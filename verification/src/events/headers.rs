//! The rules for header names and values, and `hyper`'s map of headers with
//! the operations the event needs: read the first value of a name, set a
//! name to one value, and list what the map holds.

use std::str::FromStr;
use vstd::prelude::*;
use vstd::string::*;
use hyper::header::HeaderValue;
use hyper::HeaderMap;
use crate::events::http::{header_entries, header_views, headers_of, Header, HeaderView};
use crate::text::chars_of;

verus! {

/// A byte that a header value may hold: anything but a control character,
/// the tab excepted.
pub open spec fn value_byte(b: u8) -> bool {
    b >= 32 && b != 127 || b == 9
}

/// A byte that can be read back as text: visible ASCII, a space or a tab.
pub open spec fn visible_byte(b: u8) -> bool {
    b >= 32 && b < 127 || b == 9
}

/// Every byte of `bytes` may stand in a header value.
pub open spec fn valid_value(bytes: Seq<u8>) -> bool {
    forall|i: int| 0 <= i < bytes.len() ==> value_byte(#[trigger] bytes[i])
}

/// Every byte of `bytes` can be read back as text.
pub open spec fn visible_value(bytes: Seq<u8>) -> bool {
    forall|i: int| 0 <= i < bytes.len() ==> visible_byte(#[trigger] bytes[i])
}

/// The text that visible bytes stand for: each byte as the character with
/// that code.
pub open spec fn text_of_bytes(bytes: Seq<u8>) -> Seq<char> {
    bytes.map_values(|b: u8| b as char)
}

/// A character that a header name may hold: a letter, a digit, or one of
/// ``! " # $ % & ' * + - . ^ _ ` | ~``.
pub open spec fn name_char(c: char) -> bool {
    let n = c as int;
    ||| 33 <= n <= 39
    ||| n == 42
    ||| n == 43
    ||| n == 45
    ||| n == 46
    ||| 48 <= n <= 57
    ||| 65 <= n <= 90
    ||| 94 <= n <= 122
    ||| n == 124
    ||| n == 126
}

/// The character in lower case, where it is an ASCII capital letter.
pub open spec fn lower(c: char) -> char {
    if 65 <= c as int <= 90 {
        (c as int + 32) as char
    } else {
        c
    }
}

/// The longest header name, in bytes.
pub const MAX_NAME_LEN: usize = 65535;

/// The name under which a header that is written `key` is filed: the key in
/// lower case, where it has between 1 and 65535 characters that are all
/// [`name_char`]s; `None` where it has not.
pub open spec fn header_name(key: Seq<char>) -> Option<Seq<char>> {
    if 1 <= key.len() <= MAX_NAME_LEN && (forall|i: int|
        0 <= i < key.len() ==> name_char(#[trigger] key[i])) {
        Some(key.map_values(|c: char| lower(c)))
    } else {
        None
    }
}

/// Whether `c` may stand in a header name.
pub fn is_name_char(c: char) -> (b: bool)
    ensures
        b == name_char(c),
{
    ('!' <= c && c <= '\'') || c == '*' || c == '+' || c == '-' || c == '.' || ('0' <= c && c
        <= '9') || ('A' <= c && c <= 'Z') || ('^' <= c && c <= 'z') || c == '|' || c == '~'
}

/// Whether `key` is a header name: 1 to 65535 characters that may all stand
/// in one.
pub fn name_is_valid(key: &str) -> (b: bool)
    ensures
        b == (header_name(key@) is Some),
{
    let chars = chars_of(key);
    if chars.len() == 0 || chars.len() > MAX_NAME_LEN {
        return false;
    }
    let mut i: usize = 0;
    while i < chars.len()
        invariant
            i <= chars.len(),
            chars@ == key@,
            1 <= chars.len() <= MAX_NAME_LEN,
            forall|j: int| 0 <= j < i ==> name_char(#[trigger] chars@[j]),
        decreases chars.len() - i,
    {
        if !is_name_char(chars[i]) {
            return false;
        }
        i += 1;
    }
    true
}

/// Whether `value` may be the value of a header: none of its bytes is a
/// control character other than the tab.
pub fn value_is_valid(value: &str) -> (b: bool)
    ensures
        b == valid_value(value.spec_bytes()),
{
    let bytes = value.as_bytes();
    let mut i: usize = 0;
    while i < bytes.len()
        invariant
            i <= bytes.len(),
            bytes@ == value.spec_bytes(),
            forall|j: int| 0 <= j < i ==> value_byte(#[trigger] bytes@[j]),
        decreases bytes.len() - i,
    {
        let b = bytes[i];
        if !(b >= 32 && b != 127 || b == 9) {
            return false;
        }
        i += 1;
    }
    true
}

/// The value of a header as text, where every byte of it is a
/// [`visible_byte`]; `None` where one is not.
pub fn value_text(value: &[u8]) -> (r: Option<String>)
    ensures
        r is Some <==> visible_value(value@),
        r matches Some(text) ==> text@ == text_of_bytes(value@),
{
    let mut text = String::new();
    let mut i: usize = 0;
    proof {
        assert(text_of_bytes(value@.take(0)) =~= Seq::<char>::empty());
    }
    while i < value.len()
        invariant
            i <= value.len(),
            forall|j: int| 0 <= j < i ==> visible_byte(#[trigger] value@[j]),
            text@ == text_of_bytes(value@.take(i as int)),
        decreases value.len() - i,
    {
        let b = value[i];
        if !(b >= 32 && b < 127 || b == 9) {
            return None;
        }
        text.push(b as char);
        proof {
            assert(value@.take(i + 1) =~= value@.take(i as int).push(b));
            assert(text_of_bytes(value@.take(i + 1)) =~= text_of_bytes(
                value@.take(i as int),
            ).push(b as char));
        }
        i += 1;
    }
    proof {
        assert(value@.take(i as int) =~= value@);
    }
    Some(text)
}

/// Whether `status` is a status code: a number from 100 to 999.
pub fn status_is_valid(status: u16) -> (ok: bool)
    ensures
        ok == (100 <= status < 1000),
{
    100 <= status && status < 1000
}

/// The place of the first header of `list` that has the name `name`.
pub open spec fn position_of(list: Seq<HeaderView>, name: Seq<char>) -> Option<int>
    decreases list.len(),
{
    if list.len() == 0 {
        None
    } else {
        match position_of(list.drop_last(), name) {
            Some(i) => Some(i),
            None => if list.last().name == name {
                Some(list.len() - 1)
            } else {
                None
            },
        }
    }
}

/// The value of the first header of `list` that has the name `name`.
pub open spec fn lookup(list: Seq<HeaderView>, name: Seq<char>) -> Option<Seq<u8>> {
    match position_of(list, name) {
        Some(i) => Some(list[i].value),
        None => None,
    }
}

/// The headers of `list` whose name is not `name`, in order.
pub open spec fn without(list: Seq<HeaderView>, name: Seq<char>) -> Seq<HeaderView>
    decreases list.len(),
{
    if list.len() == 0 {
        Seq::empty()
    } else if list.last().name == name {
        without(list.drop_last(), name)
    } else {
        without(list.drop_last(), name).push(list.last())
    }
}

/// `list` with the header `name` set to `value`: where the name is new, the
/// header comes last; where it is there, the value takes the place of its
/// first value, and its other values are gone.
pub open spec fn replaced(list: Seq<HeaderView>, name: Seq<char>, value: Seq<u8>) -> Seq<
    HeaderView,
> {
    match position_of(list, name) {
        None => list.push(HeaderView { name, value }),
        Some(p) => list.take(p).push(HeaderView { name, value }) + without(
            list.skip(p + 1),
            name,
        ),
    }
}

/// What [`position_of`] finds is the first header of that name, and where it
/// finds none there is none.
pub proof fn lemma_position_of(list: Seq<HeaderView>, name: Seq<char>)
    ensures
        match position_of(list, name) {
            Some(p) => {
                &&& 0 <= p < list.len()
                &&& list[p].name == name
                &&& forall|j: int| 0 <= j < p ==> (#[trigger] list[j]).name != name
            },
            None => forall|j: int| 0 <= j < list.len() ==> (#[trigger] list[j]).name != name,
        },
    decreases list.len(),
{
    if list.len() > 0 {
        lemma_position_of(list.drop_last(), name);
        assert forall|j: int| 0 <= j < list.len() - 1 implies list[j] == list.drop_last()[j] by {}
    }
}

/// The first header of a name stands where [`position_of`] says.
pub proof fn lemma_first_is_position(list: Seq<HeaderView>, name: Seq<char>, p: int)
    requires
        0 <= p < list.len(),
        list[p].name == name,
        forall|j: int| 0 <= j < p ==> (#[trigger] list[j]).name != name,
    ensures
        position_of(list, name) == Some(p),
{
    lemma_position_of(list, name);
}

/// After a header has been set, a lookup of its name finds the value it was
/// set to.
pub proof fn lemma_lookup_replaced(list: Seq<HeaderView>, name: Seq<char>, value: Seq<u8>)
    ensures
        lookup(replaced(list, name, value), name) == Some(value),
{
    lemma_position_of(list, name);
    let after = replaced(list, name, value);
    match position_of(list, name) {
        None => {
            lemma_first_is_position(after, name, list.len() as int);
        },
        Some(p) => {
            assert(after[p] == HeaderView { name, value });
            assert forall|j: int| 0 <= j < p implies (#[trigger] after[j]).name != name by {
                assert(after[j] == list[j]);
            }
            lemma_first_is_position(after, name, p);
        },
    }
}

/// Leaving headers out makes a list no longer.
pub proof fn lemma_without_len(list: Seq<HeaderView>, name: Seq<char>)
    ensures
        without(list, name).len() <= list.len(),
    decreases list.len(),
{
    if list.len() > 0 {
        lemma_without_len(list.drop_last(), name);
    }
}

/// Setting a header makes a list longer by one header at most.
pub proof fn lemma_replaced_len(list: Seq<HeaderView>, name: Seq<char>, value: Seq<u8>)
    ensures
        replaced(list, name, value).len() <= list.len() + 1,
{
    lemma_position_of(list, name);
    match position_of(list, name) {
        None => {},
        Some(p) => {
            lemma_without_len(list.skip(p + 1), name);
        },
    }
}

/// An ASCII character is the character of its own code.
proof fn lemma_ascii_char(c: char)
    requires
        c as int <= 127,
    ensures
        ((c as u8) as char) == c,
{
}

/// ASCII text is read back from its bytes as it was written.
pub proof fn lemma_visible_text_round_trip(text: Seq<char>)
    requires
        forall|i: int| 0 <= i < text.len() ==> (#[trigger] text[i]) as int <= 127,
    ensures
        text_of_bytes(Seq::new(text.len(), |i: int| text[i] as u8)) == text,
{
    let bytes = Seq::new(text.len(), |i: int| text[i] as u8);
    assert forall|i: int| 0 <= i < text.len() implies text_of_bytes(bytes)[i] == text[i] by {
        lemma_ascii_char(text[i]);
    }
    assert(text_of_bytes(bytes) =~= text);
}

/// The bytes of an optional buffer.
pub open spec fn bytes_of(bytes: Option<Vec<u8>>) -> Option<Seq<u8>> {
    match bytes {
        Some(bytes) => Some(bytes@),
        None => None,
    }
}

/// What a read of the header written `key` finds in `list`: the first value
/// filed under the key's name.
pub open spec fn found(list: Seq<HeaderView>, key: Seq<char>) -> Option<Seq<u8>> {
    match header_name(key) {
        Some(name) => lookup(list, name),
        None => None,
    }
}

/// A number of headers below which `hyper`'s map always takes another.
pub const SURE_ROOM: usize = 4096;

/// An empty map, from `HeaderMap::new`.
#[verifier::external_body]
pub(crate) fn new_headers() -> (map: HeaderMap<HeaderValue>)
    ensures
        header_entries(map) == Seq::<(Seq<char>, Seq<u8>)>::empty(),
{
    HeaderMap::new()
}

/// Reads the first value of the header written `key` with `HeaderMap::get`,
/// which parses the key as a header name is parsed and finds nothing where
/// it is none.
#[verifier::external_body]
pub(crate) fn first_value(map: &HeaderMap<HeaderValue>, key: &str) -> (r: Option<Vec<u8>>)
    ensures
        bytes_of(r) == found(headers_of(*map), key@),
{
    map.get(key).map(|value| value.as_bytes().to_vec())
}

/// Sets the header written `key` to `value` with `HeaderMap::try_insert`,
/// on a key and a value that `HeaderName::from_str` and
/// `HeaderValue::from_str` accept. The insert puts the value in the place of
/// the name's first value and drops its other values, or appends the header
/// where the name is new, and says whether the name was there. It answers
/// `None`, and changes nothing, where the map cannot grow: its table has
/// 32768 slots at most and is doubled no earlier than at a fifth of its
/// load, so that a map with fewer than 4096 headers always takes another.
#[verifier::external_body]
pub(crate) fn insert_header(map: &mut HeaderMap<HeaderValue>, key: &str, value: &str) -> (r:
    Option<bool>)
    requires
        header_name(key@) is Some,
        valid_value(value.spec_bytes()),
    ensures
        r matches Some(existed) ==> {
            &&& existed == (lookup(headers_of(*old(map)), header_name(key@).unwrap()) is Some)
            &&& headers_of(*final(map)) == replaced(
                headers_of(*old(map)),
                header_name(key@).unwrap(),
                value.spec_bytes(),
            )
        },
        r is None ==> {
            &&& header_entries(*final(map)) == header_entries(*old(map))
            &&& headers_of(*old(map)).len() >= SURE_ROOM
        },
{
    match (hyper::header::HeaderName::from_str(key), HeaderValue::from_str(value)) {
        (Ok(name), Ok(value)) => match map.try_insert(name, value) {
            Ok(before) => Some(before.is_some()),
            Err(_) => None,
        },
        _ => None,
    }
}

/// Lists what the map holds with `HeaderMap::iter`: each header's name and
/// the bytes of its value, in the map's order.
#[verifier::external_body]
pub(crate) fn list_headers(map: &HeaderMap<HeaderValue>) -> (list: Vec<Header>)
    ensures
        header_views(list@) == headers_of(*map),
{
    map.iter()
        .map(|(name, value)| Header {
            name: name.as_str().to_owned(),
            value: value.as_bytes().to_vec(),
        })
        .collect()
}

} // verus!
