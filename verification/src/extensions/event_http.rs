//! The operations on an inbound HTTP event. Each needs an attached event and
//! a permission on the request's URL path; what it reads or changes is the
//! event as `crate::events` models it.

use vstd::prelude::*;
use vstd::string::*;
use vstd::utf8::{encode_utf8, is_ascii_chars, is_ascii_chars_encode_utf8};
use crate::errors::{agrees, failure, Error, ErrorKind, ErrorView, Reason};
use hyper::header::HeaderValue;
use hyper::HeaderMap;
use crate::events::headers::{
    first_value, found, header_name, insert_header, lemma_lookup_replaced, lemma_replaced_len,
    lemma_visible_text_round_trip, list_headers, lookup, name_is_valid, new_headers, replaced,
    status_is_valid, text_of_bytes, valid_value, value_is_valid, value_text, visible_byte,
    visible_value, SURE_ROOM,
};
use crate::events::http::{
    copy_text, header_views, headers_of, spec_parse_version, spec_version_name, text_of,
    HeaderView, HttpEvent, HttpRequest, HttpResponse, HttpResponseView, HttpVersion,
};
use crate::events::Events;
use crate::permissions::events::event_http::HttpEvent as Level;
use crate::permissions::{spec_check, PermissionType, Permissions, PermissionsView, Resource};

pub use crate::extensions::queue::{BufferQueue, Polled, MAX_BUFFER_QUEUE_SIZE};

verus! {

/// The parts of a response that a script sets in one go.
#[derive(Debug)]
pub struct ResponseParts {
    pub status: u16,
    pub version: String,
    pub headers: Vec<(String, String)>,
}

impl Default for ResponseParts {
    fn default() -> (parts: ResponseParts)
        ensures
            parts.status == 0,
            parts.version@ == Seq::<char>::empty(),
            parts.headers@ == Seq::<(String, String)>::empty(),
    {
        ResponseParts { status: 0, version: String::new(), headers: Vec::new() }
    }
}

/// The URL path of the attached HTTP request, if an HTTP event is attached.
pub open spec fn request_path(events: Events) -> Option<Seq<char>> {
    match events.http {
        Some(event) => Some(event.request.uri.path@),
        None => None,
    }
}

/// What the common check of an operation answers: an HTTP event has to be
/// attached, and the permission `level` has to cover the request's URL path.
pub open spec fn spec_authorize(granted: PermissionsView, path: Option<Seq<char>>, level: Level) -> Result<
    (),
    ErrorView,
> {
    match path {
        None => Err(failure(ErrorKind::Missing, Reason::UnsupportedEvent, Seq::empty())),
        Some(path) => spec_check(granted, PermissionType::HttpEvent(level), path),
    }
}

/// The common check passes.
pub open spec fn authorized(granted: PermissionsView, events: Events, level: Level) -> bool {
    spec_authorize(granted, request_path(events), level) is Ok
}

/// The common check fails with the error `e`.
pub open spec fn refused(granted: PermissionsView, events: Events, level: Level, e: ErrorView) -> bool {
    spec_authorize(granted, request_path(events), level) == Err::<(), ErrorView>(e)
}

/// The common check of the operations.
pub fn authorize(permissions: &Permissions, events: &Events, level: Level) -> (r: Result<(), Error>)
    ensures
        agrees(r, spec_authorize(permissions@, request_path(*events), level)),
        r is Ok ==> events.http is Some,
{
    match &events.http {
        None => {
            proof {
                reveal_strlit("");
                assert(""@ =~= Seq::<char>::empty());
            }
            Err(Error::new(ErrorKind::Missing, Reason::UnsupportedEvent, ""))
        },
        Some(event) => {
            let resource = Resource::new(event.request.uri.path.as_str());
            permissions.check(PermissionType::HttpEvent(level), &resource)
        },
    }
}

/// The request of the attached event.
pub open spec fn request_of(events: Events) -> HttpRequest {
    events.http.unwrap().request
}

/// The headers of the attached request.
pub open spec fn request_headers(events: Events) -> Seq<HeaderView> {
    headers_of(request_of(events).headers)
}

/// The texts of a list of pairs of strings.
pub open spec fn pair_views(list: Seq<(String, String)>) -> Seq<(Seq<char>, Seq<char>)> {
    list.map_values(|p: (String, String)| (p.0@, p.1@))
}

/// The header at `i` is the first whose value cannot be read as text.
pub open spec fn first_opaque(headers: Seq<HeaderView>, i: int) -> bool {
    &&& 0 <= i < headers.len()
    &&& forall|j: int| 0 <= j < i ==> visible_value((#[trigger] headers[j]).value)
    &&& !visible_value(headers[i].value)
}

/// Every header, with its value as text.
pub open spec fn listed(headers: Seq<HeaderView>) -> Seq<(Seq<char>, Seq<char>)> {
    headers.map_values(|h: HeaderView| (h.name, text_of_bytes(h.value)))
}

/// All headers of the request with their values as text, in the order in
/// which the request's map holds them. Needs `ReadRequest`. Fails on the
/// first value that is not visible ASCII.
pub fn op_http_get_request_headers(permissions: &Permissions, events: &Events) -> (r: Result<
    Vec<(String, String)>,
    Error,
>)
    ensures
        match r {
            Ok(list) => {
                &&& authorized(permissions@, *events, Level::ReadRequest)
                &&& forall|i: int|
                    0 <= i < request_headers(*events).len() ==> visible_value(
                        (#[trigger] request_headers(*events)[i]).value,
                    )
                &&& pair_views(list@) == listed(request_headers(*events))
            },
            Err(e) => {
                ||| refused(permissions@, *events, Level::ReadRequest, e@)
                ||| authorized(permissions@, *events, Level::ReadRequest) && exists|i: int|
                    {
                        &&& #[trigger] first_opaque(request_headers(*events), i)
                        &&& e@ == failure(
                            ErrorKind::Type,
                            Reason::OpaqueHeaderValue,
                            request_headers(*events)[i].name,
                        )
                    }
            },
        },
{
    authorize(permissions, events, Level::ReadRequest)?;
    let request = match &events.http {
        Some(event) => &event.request,
        None => {
            return Err(Error::new(ErrorKind::Missing, Reason::UnsupportedEvent, ""));
        },
    };
    let headers = list_headers(&request.headers);
    let ghost all = header_views(headers@);
    let mut out: Vec<(String, String)> = Vec::new();
    let mut i: usize = 0;
    while i < headers.len()
        invariant
            i <= headers.len(),
            all == header_views(headers@),
            all == request_headers(*events),
            authorized(permissions@, *events, Level::ReadRequest),
            out.len() == i,
            forall|j: int| 0 <= j < i ==> visible_value((#[trigger] all[j]).value),
            forall|j: int|
                0 <= j < i ==> (#[trigger] out[j]).0@ == all[j].name && out[j].1@ == text_of_bytes(
                    all[j].value,
                ),
        decreases headers.len() - i,
    {
        let header = &headers[i];
        assert(all[i as int] == header@);
        match value_text(header.value.as_slice()) {
            Some(text) => {
                out.push((header.name.clone(), text));
            },
            None => {
                assert(first_opaque(all, i as int));
                return Err(
                    Error::new(ErrorKind::Type, Reason::OpaqueHeaderValue, header.name.as_str()),
                );
            },
        }
        i += 1;
    }
    assert(pair_views(out@) =~= listed(all));
    Ok(out)
}

/// What a read of the header written `key` answers on the headers
/// `headers`: the first value filed under the key's name, as text.
pub open spec fn spec_get_header(headers: Seq<HeaderView>, key: Seq<char>) -> Result<
    Seq<char>,
    ErrorView,
> {
    match found(headers, key) {
        None => Err(failure(ErrorKind::Missing, Reason::MissingHeader, key)),
        Some(value) => if visible_value(value) {
            Ok(text_of_bytes(value))
        } else {
            Err(failure(ErrorKind::Type, Reason::OpaqueHeaderValue, key))
        },
    }
}

/// The value of the request header written `key`, as text. Needs
/// `ReadRequest`.
pub fn op_http_get_request_header(permissions: &Permissions, events: &Events, key: &str) -> (r:
    Result<String, Error>)
    ensures
        match r {
            Ok(value) => {
                &&& authorized(permissions@, *events, Level::ReadRequest)
                &&& spec_get_header(request_headers(*events), key@) == Ok::<
                    Seq<char>,
                    ErrorView,
                >(value@)
            },
            Err(e) => {
                ||| refused(permissions@, *events, Level::ReadRequest, e@)
                ||| authorized(permissions@, *events, Level::ReadRequest) && spec_get_header(
                    request_headers(*events),
                    key@,
                ) == Err::<Seq<char>, ErrorView>(e@)
            },
        },
{
    authorize(permissions, events, Level::ReadRequest)?;
    let request = match &events.http {
        Some(event) => &event.request,
        None => {
            return Err(Error::new(ErrorKind::Missing, Reason::UnsupportedEvent, ""));
        },
    };
    let value = match first_value(&request.headers, key) {
        Some(value) => value,
        None => {
            return Err(Error::new(ErrorKind::Missing, Reason::MissingHeader, key));
        },
    };
    match value_text(value.as_slice()) {
        Some(text) => Ok(text),
        None => Err(Error::new(ErrorKind::Type, Reason::OpaqueHeaderValue, key)),
    }
}

/// Why the header written `key` cannot be set to `value`, if anything stands
/// against it: the key is no header name, or the value holds a control
/// character.
pub open spec fn pair_fault(key: Seq<char>, value: Seq<char>) -> Option<ErrorView> {
    if header_name(key) is None {
        Some(failure(ErrorKind::Type, Reason::InvalidHeaderName, key))
    } else if !valid_value(encode_utf8(value)) {
        Some(failure(ErrorKind::Type, Reason::InvalidHeaderValue, value))
    } else {
        None
    }
}

/// The error of setting a header on a map that cannot grow any further.
pub open spec fn map_full() -> ErrorView {
    failure(ErrorKind::LimitExceeded, Reason::TooManyHeaders, Seq::empty())
}

/// The events hold what they held: the same response, the same request
/// parts, and the same headers in the same order.
pub open spec fn same_events(before: Events, after: Events) -> bool {
    &&& before.http is Some <==> after.http is Some
    &&& before.http is Some ==> {
        &&& after.http.unwrap().response == before.http.unwrap().response
        &&& request_of(after).method == request_of(before).method
        &&& request_of(after).version == request_of(before).version
        &&& request_of(after).uri == request_of(before).uri
        &&& request_of(after).body_size == request_of(before).body_size
        &&& request_of(after).body_taken == request_of(before).body_taken
        &&& request_headers(after) == request_headers(before)
    }
}

/// The event `after` is the event `before` with the request header `name`
/// set to `value`; nothing else has changed.
pub open spec fn header_set(before: Events, after: Events, name: Seq<char>, value: Seq<u8>) -> bool {
    &&& before.http is Some
    &&& after.http is Some
    &&& after.http.unwrap().response == before.http.unwrap().response
    &&& request_of(after).method == request_of(before).method
    &&& request_of(after).version == request_of(before).version
    &&& request_of(after).uri == request_of(before).uri
    &&& request_of(after).body_size == request_of(before).body_size
    &&& request_of(after).body_taken == request_of(before).body_taken
    &&& request_headers(after) == replaced(request_headers(before), name, value)
}

/// Sets the request header written `key` to `value`, in place of every
/// value it had. Needs `ModifyRequest`. Hands back the new value if the
/// header was there before, and nothing if it was not. On a request with
/// fewer than [`SURE_ROOM`] headers a valid key and value are always set.
pub fn op_http_set_request_header(
    permissions: &Permissions,
    events: &mut Events,
    key: &str,
    value: &str,
) -> (r: Result<Option<String>, Error>)
    ensures
        authorized(permissions@, *old(events), Level::ModifyRequest) && pair_fault(key@, value@)
            is None && request_headers(*old(events)).len() < SURE_ROOM ==> r is Ok,
        match r {
            Ok(previous) => {
                &&& authorized(permissions@, *old(events), Level::ModifyRequest)
                &&& pair_fault(key@, value@) is None
                &&& header_set(
                    *old(events),
                    *final(events),
                    header_name(key@).unwrap(),
                    encode_utf8(value@),
                )
                &&& text_of(previous) == (if lookup(
                    request_headers(*old(events)),
                    header_name(key@).unwrap(),
                ) is Some {
                    Some(value@)
                } else {
                    None
                })
            },
            Err(e) => {
                &&& same_events(*old(events), *final(events))
                &&& {
                    ||| refused(permissions@, *old(events), Level::ModifyRequest, e@)
                    ||| authorized(permissions@, *old(events), Level::ModifyRequest)
                        && pair_fault(key@, value@) == Some(e@)
                    ||| authorized(permissions@, *old(events), Level::ModifyRequest)
                        && pair_fault(key@, value@) is None && e@ == map_full()
                        && request_headers(*old(events)).len() >= SURE_ROOM
                }
            },
        },
{
    authorize(permissions, events, Level::ModifyRequest)?;
    check_pair(key, value)?;
    let mut event = match events.http.take() {
        Some(event) => event,
        None => {
            return Err(Error::new(ErrorKind::Missing, Reason::UnsupportedEvent, ""));
        },
    };
    let stored = insert_header(&mut event.request.headers, key, value);
    events.http = Some(event);
    settle_insert(stored, value)
}

/// Refuses a key that is no header name, and then a value that holds a
/// control character.
pub fn check_pair(key: &str, value: &str) -> (r: Result<(), Error>)
    ensures
        agrees(r, match pair_fault(key@, value@) {
            Some(e) => Err(e),
            None => Ok(()),
        }),
{
    if !name_is_valid(key) {
        return Err(Error::new(ErrorKind::Type, Reason::InvalidHeaderName, key));
    }
    if !value_is_valid(value) {
        return Err(Error::new(ErrorKind::Type, Reason::InvalidHeaderValue, value));
    }
    Ok(())
}

/// The answer of an operation that has tried to set a header to `value`:
/// `stored` says whether the map took it, and whether the header was there
/// before.
pub fn settle_insert(stored: Option<bool>, value: &str) -> (r: Result<Option<String>, Error>)
    ensures
        match stored {
            None => r matches Err(e) && e@ == map_full(),
            Some(existed) => r matches Ok(previous) && text_of(previous) == (if existed {
                Some(value@)
            } else {
                None
            }),
        },
{
    proof {
        reveal_strlit("");
        assert(""@ =~= Seq::<char>::empty());
    }
    match stored {
        None => Err(Error::new(ErrorKind::LimitExceeded, Reason::TooManyHeaders, "")),
        Some(true) => Ok(Some(value.to_owned())),
        Some(false) => Ok(None),
    }
}

/// A header that has been set to visible ASCII text is read back as that
/// text, under the key it was set with.
pub proof fn lemma_set_then_get(headers: Seq<HeaderView>, key: Seq<char>, value: Seq<char>)
    requires
        header_name(key) is Some,
        forall|i: int|
            0 <= i < value.len() ==> 32 <= (#[trigger] value[i]) as int <= 126 || value[i] as int
                == 9,
    ensures
        pair_fault(key, value) is None,
        spec_get_header(replaced(headers, header_name(key).unwrap(), encode_utf8(value)), key)
            == Ok::<Seq<char>, ErrorView>(value),
{
    let name = header_name(key).unwrap();
    let bytes = encode_utf8(value);
    assert(is_ascii_chars(value)) by {
        assert forall|i: int| 0 <= i < value.len() implies '\0' <= #[trigger] value[i]
            <= '\u{7f}' by {
            lemma_char_bound(value[i]);
        }
    }
    is_ascii_chars_encode_utf8(value);
    assert forall|i: int| 0 <= i < bytes.len() implies visible_byte(#[trigger] bytes[i]) by {
        assert(bytes[i] == value[i] as u8);
        lemma_char_byte(value[i]);
    }
    assert(bytes =~= Seq::new(value.len(), |i: int| value[i] as u8));
    lemma_visible_text_round_trip(value);
    lemma_lookup_replaced(headers, name, bytes);
}

/// After a request header has been set to visible ASCII text, a read of the
/// header under the same key gives that text: `before` and `after` are the
/// events around a successful [`op_http_set_request_header`].
pub proof fn lemma_set_header_then_get_header(
    before: Events,
    after: Events,
    key: Seq<char>,
    value: Seq<char>,
)
    requires
        header_name(key) is Some,
        header_set(before, after, header_name(key).unwrap(), encode_utf8(value)),
        forall|i: int|
            0 <= i < value.len() ==> 32 <= (#[trigger] value[i]) as int <= 126 || value[i] as int
                == 9,
    ensures
        spec_get_header(request_headers(after), key) == Ok::<Seq<char>, ErrorView>(value),
{
    lemma_set_then_get(request_headers(before), key, value);
}

/// An ASCII character lies between the first and the last ASCII character.
proof fn lemma_char_bound(c: char)
    requires
        c as int <= 126,
    ensures
        '\0' <= c <= '\u{7f}',
{
}

/// The byte of an ASCII character has the character's code.
proof fn lemma_char_byte(c: char)
    requires
        c as int <= 126,
    ensures
        (c as u8) as int == c as int,
{
}

/// The scheme of the request's URI, if it has one. Needs `ReadRequest`.
pub fn op_http_get_request_uri_scheme(permissions: &Permissions, events: &Events) -> (r: Result<
    Option<String>,
    Error,
>)
    ensures
        match r {
            Ok(value) => {
                &&& authorized(permissions@, *events, Level::ReadRequest)
                &&& text_of(value) == text_of(request_of(*events).uri.scheme)
            },
            Err(e) => refused(permissions@, *events, Level::ReadRequest, e@),
        },
{
    authorize(permissions, events, Level::ReadRequest)?;
    match &events.http {
        Some(event) => Ok(copy_text(&event.request.uri.scheme)),
        None => Err(Error::new(ErrorKind::Missing, Reason::UnsupportedEvent, "")),
    }
}

/// The authority of the request's URI, if it has one. Needs `ReadRequest`.
pub fn op_http_get_request_uri_authority(permissions: &Permissions, events: &Events) -> (r: Result<
    Option<String>,
    Error,
>)
    ensures
        match r {
            Ok(value) => {
                &&& authorized(permissions@, *events, Level::ReadRequest)
                &&& text_of(value) == text_of(request_of(*events).uri.authority)
            },
            Err(e) => refused(permissions@, *events, Level::ReadRequest, e@),
        },
{
    authorize(permissions, events, Level::ReadRequest)?;
    match &events.http {
        Some(event) => Ok(copy_text(&event.request.uri.authority)),
        None => Err(Error::new(ErrorKind::Missing, Reason::UnsupportedEvent, "")),
    }
}

/// The query of the request's URI, if it has one. Needs `ReadRequest`.
pub fn op_http_get_request_uri_query(permissions: &Permissions, events: &Events) -> (r: Result<
    Option<String>,
    Error,
>)
    ensures
        match r {
            Ok(value) => {
                &&& authorized(permissions@, *events, Level::ReadRequest)
                &&& text_of(value) == text_of(request_of(*events).uri.query)
            },
            Err(e) => refused(permissions@, *events, Level::ReadRequest, e@),
        },
{
    authorize(permissions, events, Level::ReadRequest)?;
    match &events.http {
        Some(event) => Ok(copy_text(&event.request.uri.query)),
        None => Err(Error::new(ErrorKind::Missing, Reason::UnsupportedEvent, "")),
    }
}

/// The path of the request's URI. Needs `ReadRequest`.
pub fn op_http_get_request_uri_path(permissions: &Permissions, events: &Events) -> (r: Result<String, Error>)
    ensures
        match r {
            Ok(value) => {
                &&& authorized(permissions@, *events, Level::ReadRequest)
                &&& value@ == request_of(*events).uri.path@
            },
            Err(e) => refused(permissions@, *events, Level::ReadRequest, e@),
        },
{
    authorize(permissions, events, Level::ReadRequest)?;
    match &events.http {
        Some(event) => Ok(event.request.uri.path.clone()),
        None => Err(Error::new(ErrorKind::Missing, Reason::UnsupportedEvent, "")),
    }
}

/// The path and query of the request's URI, if it has them. Needs `ReadRequest`.
pub fn op_http_get_request_uri_path_query(permissions: &Permissions, events: &Events) -> (r: Result<
    Option<String>,
    Error,
>)
    ensures
        match r {
            Ok(value) => {
                &&& authorized(permissions@, *events, Level::ReadRequest)
                &&& text_of(value) == text_of(request_of(*events).uri.path_and_query)
            },
            Err(e) => refused(permissions@, *events, Level::ReadRequest, e@),
        },
{
    authorize(permissions, events, Level::ReadRequest)?;
    match &events.http {
        Some(event) => Ok(copy_text(&event.request.uri.path_and_query)),
        None => Err(Error::new(ErrorKind::Missing, Reason::UnsupportedEvent, "")),
    }
}

/// The host of the request's URI, if it has one. Needs `ReadRequest`.
pub fn op_http_get_request_uri_host(permissions: &Permissions, events: &Events) -> (r: Result<
    Option<String>,
    Error,
>)
    ensures
        match r {
            Ok(value) => {
                &&& authorized(permissions@, *events, Level::ReadRequest)
                &&& text_of(value) == text_of(request_of(*events).uri.host)
            },
            Err(e) => refused(permissions@, *events, Level::ReadRequest, e@),
        },
{
    authorize(permissions, events, Level::ReadRequest)?;
    match &events.http {
        Some(event) => Ok(copy_text(&event.request.uri.host)),
        None => Err(Error::new(ErrorKind::Missing, Reason::UnsupportedEvent, "")),
    }
}

/// The port of the request's URI, if it has one. Needs `ReadRequest`.
pub fn op_http_get_request_uri_port(permissions: &Permissions, events: &Events) -> (r: Result<
    Option<u16>,
    Error,
>)
    ensures
        match r {
            Ok(value) => {
                &&& authorized(permissions@, *events, Level::ReadRequest)
                &&& value == request_of(*events).uri.port
            },
            Err(e) => refused(permissions@, *events, Level::ReadRequest, e@),
        },
{
    authorize(permissions, events, Level::ReadRequest)?;
    match &events.http {
        Some(event) => Ok(event.request.uri.port),
        None => Err(Error::new(ErrorKind::Missing, Reason::UnsupportedEvent, "")),
    }
}

/// The method of the request. Needs `ReadRequest`.
pub fn op_http_get_request_method(permissions: &Permissions, events: &Events) -> (r: Result<String, Error>)
    ensures
        match r {
            Ok(value) => {
                &&& authorized(permissions@, *events, Level::ReadRequest)
                &&& value@ == request_of(*events).method@
            },
            Err(e) => refused(permissions@, *events, Level::ReadRequest, e@),
        },
{
    authorize(permissions, events, Level::ReadRequest)?;
    match &events.http {
        Some(event) => Ok(event.request.method.clone()),
        None => Err(Error::new(ErrorKind::Missing, Reason::UnsupportedEvent, "")),
    }
}

/// The name of the request's HTTP version, such as `HTTP/1.1`. Needs `ReadRequest`.
pub fn op_http_get_request_version(permissions: &Permissions, events: &Events) -> (r: Result<String, Error>)
    ensures
        match r {
            Ok(value) => {
                &&& authorized(permissions@, *events, Level::ReadRequest)
                &&& value@ == spec_version_name(request_of(*events).version)
            },
            Err(e) => refused(permissions@, *events, Level::ReadRequest, e@),
        },
{
    authorize(permissions, events, Level::ReadRequest)?;
    match &events.http {
        Some(event) => Ok(event.request.version.name()),
        None => Err(Error::new(ErrorKind::Missing, Reason::UnsupportedEvent, "")),
    }
}

/// The size of the request's body as far as it is known before it is read:
/// its exact size, or 0 where that is unknown or the body has been taken.
pub open spec fn spec_size_hint(request: HttpRequest) -> u64 {
    if request.body_taken {
        0
    } else {
        match request.body_size {
            Some(size) => size,
            None => 0,
        }
    }
}

/// The size of the request's body, see [`spec_size_hint`]. Needs
/// `ReadRequest`.
pub fn op_http_get_request_body_size_hint(permissions: &Permissions, events: &Events) -> (r:
    Result<u64, Error>)
    ensures
        match r {
            Ok(size) => {
                &&& authorized(permissions@, *events, Level::ReadRequest)
                &&& size == spec_size_hint(request_of(*events))
            },
            Err(e) => refused(permissions@, *events, Level::ReadRequest, e@),
        },
{
    authorize(permissions, events, Level::ReadRequest)?;
    match &events.http {
        Some(event) => {
            if event.request.body_taken {
                Ok(0)
            } else {
                match event.request.body_size {
                    Some(size) => Ok(size),
                    None => Ok(0),
                }
            }
        },
        None => Err(Error::new(ErrorKind::Missing, Reason::UnsupportedEvent, "")),
    }
}

/// The event `after` is the event `before` with the request's body taken;
/// nothing else has changed.
pub open spec fn body_taken(before: Events, after: Events) -> bool {
    &&& before.http is Some
    &&& after.http is Some
    &&& after.http.unwrap().response == before.http.unwrap().response
    &&& request_of(after).method == request_of(before).method
    &&& request_of(after).version == request_of(before).version
    &&& request_of(after).uri == request_of(before).uri
    &&& request_of(after).headers == request_of(before).headers
    &&& request_of(after).body_size == request_of(before).body_size
    &&& request_of(after).body_taken
}

/// Hands the request's body to the script as a stream: the event records
/// that the body has been taken, and the caller installs the reader. Needs
/// `ReadRequest`.
pub fn op_http_get_request_body_read_stream(permissions: &Permissions, events: &mut Events) -> (r:
    Result<(), Error>)
    ensures
        match r {
            Ok(_) => {
                &&& authorized(permissions@, *old(events), Level::ReadRequest)
                &&& body_taken(*old(events), *final(events))
            },
            Err(e) => {
                &&& *final(events) == *old(events)
                &&& refused(permissions@, *old(events), Level::ReadRequest, e@)
            },
        },
{
    authorize(permissions, events, Level::ReadRequest)?;
    let mut event = match events.http.take() {
        Some(event) => event,
        None => {
            return Err(Error::new(ErrorKind::Missing, Reason::UnsupportedEvent, ""));
        },
    };
    event.request.body_taken = true;
    events.http = Some(event);
    Ok(())
}

/// Decides whether the script may read the next chunk of the request's
/// body; reading it from the stream is left to the caller. Needs
/// `ReadRequest`.
pub fn op_http_read_request_body_chunk(permissions: &Permissions, events: &Events) -> (r: Result<
    (),
    Error,
>)
    ensures
        agrees(r, spec_authorize(permissions@, request_path(*events), Level::ReadRequest)),
{
    authorize(permissions, events, Level::ReadRequest)
}

/// The headers that the pairs `pairs` make when they are set one after
/// another on an empty list, or the fault of the first pair that cannot be
/// set.
pub open spec fn collect_headers(pairs: Seq<(Seq<char>, Seq<char>)>) -> Result<
    Seq<HeaderView>,
    ErrorView,
>
    decreases pairs.len(),
{
    if pairs.len() == 0 {
        Ok(Seq::empty())
    } else {
        match collect_headers(pairs.drop_last()) {
            Err(e) => Err(e),
            Ok(list) => match pair_fault(pairs.last().0, pairs.last().1) {
                Some(e) => Err(e),
                None => Ok(
                    replaced(
                        list,
                        header_name(pairs.last().0).unwrap(),
                        encode_utf8(pairs.last().1),
                    ),
                ),
            },
        }
    }
}

/// What setting the parts does to the response `response`, and what it
/// answers. The headers are replaced first, then the version, then the
/// status; a part that is refused and the parts after it stay as they were.
pub open spec fn spec_set_parts(
    response: HttpResponseView,
    status: u16,
    version: Seq<char>,
    pairs: Seq<(Seq<char>, Seq<char>)>,
) -> (HttpResponseView, Result<(), ErrorView>) {
    match collect_headers(pairs) {
        Err(e) => (response, Err(e)),
        Ok(headers) => match spec_parse_version(version) {
            None => (
                HttpResponseView { version: response.version, status: response.status, headers },
                Err(failure(ErrorKind::Type, Reason::InvalidVersion, version)),
            ),
            Some(parsed) => if 100 <= status < 1000 {
                (HttpResponseView { version: parsed, status, headers }, Ok(()))
            } else {
                (
                    HttpResponseView { version: parsed, status: response.status, headers },
                    Err(failure(ErrorKind::Type, Reason::InvalidStatus, Seq::empty())),
                )
            },
        },
    }
}

/// A fault among the first `n` pairs is the fault of the whole list.
proof fn lemma_collect_fault_extends(pairs: Seq<(Seq<char>, Seq<char>)>, n: int)
    requires
        0 <= n <= pairs.len(),
        collect_headers(pairs.take(n)) is Err,
    ensures
        collect_headers(pairs) == collect_headers(pairs.take(n)),
    decreases pairs.len() - n,
{
    if n < pairs.len() {
        assert(pairs.take(n + 1).drop_last() =~= pairs.take(n));
        lemma_collect_fault_extends(pairs, n + 1);
    } else {
        assert(pairs.take(n) =~= pairs);
    }
}

/// The headers that `pairs` make, see [`collect_headers`], in a new map. A
/// list of no more than [`SURE_ROOM`] pairs always fits; a longer one may
/// meet a map that cannot grow any further.
pub fn build_headers(pairs: &Vec<(String, String)>) -> (r: Result<HeaderMap<HeaderValue>, Error>)
    ensures
        pairs@.len() <= SURE_ROOM ==> match r {
            Ok(map) => collect_headers(pair_views(pairs@)) == Ok::<Seq<HeaderView>, ErrorView>(
                headers_of(map),
            ),
            Err(e) => collect_headers(pair_views(pairs@)) == Err::<Seq<HeaderView>, ErrorView>(
                e@,
            ),
        },
        match r {
            Ok(map) => collect_headers(pair_views(pairs@)) == Ok::<Seq<HeaderView>, ErrorView>(
                headers_of(map),
            ),
            Err(e) => e@ == map_full() && pairs@.len() > SURE_ROOM || collect_headers(
                pair_views(pairs@),
            ) == Err::<Seq<HeaderView>, ErrorView>(e@),
        },
{
    let ghost all = pair_views(pairs@);
    let mut out = new_headers();
    let mut i: usize = 0;
    proof {
        assert(all.take(0) =~= Seq::<(Seq<char>, Seq<char>)>::empty());
        assert(headers_of(out) =~= Seq::<HeaderView>::empty());
    }
    while i < pairs.len()
        invariant
            i <= pairs.len(),
            all == pair_views(pairs@),
            headers_of(out).len() <= i,
            collect_headers(all.take(i as int)) == Ok::<Seq<HeaderView>, ErrorView>(
                headers_of(out),
            ),
        decreases pairs.len() - i,
    {
        let key: &str = pairs[i].0.as_str();
        let value: &str = pairs[i].1.as_str();
        proof {
            assert(all.take(i + 1).drop_last() =~= all.take(i as int));
            assert(all.take(i + 1).last() == (key@, value@));
        }
        match check_pair(key, value) {
            Ok(_) => {},
            Err(e) => {
                proof {
                    lemma_collect_fault_extends(all, i + 1);
                }
                return Err(e);
            },
        }
        let ghost before = headers_of(out);
        let stored = insert_header(&mut out, key, value);
        proof {
            lemma_replaced_len(before, header_name(key@).unwrap(), encode_utf8(value@));
        }
        match settle_insert(stored, value) {
            Ok(_) => {},
            Err(e) => {
                return Err(e);
            },
        }
        i += 1;
    }
    proof {
        assert(all.take(i as int) =~= all);
    }
    Ok(out)
}

/// The response that the attached event still holds.
pub open spec fn response_of(events: Events) -> Option<HttpResponse> {
    match events.http {
        Some(event) => event.response,
        None => None,
    }
}

/// The error of an operation on a response that has been sent.
pub open spec fn response_sent() -> ErrorView {
    failure(ErrorKind::Missing, Reason::ResponseSent, Seq::empty())
}

/// Sets the headers, the version and the status of the response, as
/// [`spec_set_parts`] says. Needs `WriteResponse`, and a response that has
/// not been sent. Up to [`SURE_ROOM`] headers are always taken; where there
/// are more and the map of headers cannot grow far enough, nothing is set.
pub fn op_http_set_response_parts(
    permissions: &Permissions,
    events: &mut Events,
    parts: &ResponseParts,
) -> (r: Result<(), Error>)
    ensures
        authorized(permissions@, *old(events), Level::WriteResponse) && response_of(*old(events))
            is Some ==> {
            let outcome = spec_set_parts(
                response_of(*old(events)).unwrap()@,
                parts.status,
                parts.version@,
                pair_views(parts.headers@),
            );
            &&& final(events).http is Some
            &&& request_of(*final(events)) == request_of(*old(events))
            &&& response_of(*final(events)) is Some
            &&& {
                ||| response_of(*final(events)).unwrap()@ == outcome.0 && agrees(r, outcome.1)
                ||| parts.headers@.len() > SURE_ROOM && *final(events) == *old(events) && (r matches Err(
                    e,
                ) && e@ == map_full())
            }
        },
        authorized(permissions@, *old(events), Level::WriteResponse) && response_of(*old(events))
            is None ==> {
            &&& *final(events) == *old(events)
            &&& r matches Err(e)
            &&& e@ == response_sent()
        },
        !authorized(permissions@, *old(events), Level::WriteResponse) ==> {
            &&& *final(events) == *old(events)
            &&& r matches Err(e)
            &&& refused(permissions@, *old(events), Level::WriteResponse, e@)
        },
{
    proof {
        reveal_strlit("");
        assert(""@ =~= Seq::<char>::empty());
    }
    authorize(permissions, events, Level::WriteResponse)?;
    let pending = match &events.http {
        Some(event) => event.response.is_some(),
        None => false,
    };
    if !pending {
        return Err(Error::new(ErrorKind::Missing, Reason::ResponseSent, ""));
    }
    let headers = build_headers(&parts.headers)?;
    let mut event = match events.http.take() {
        Some(event) => event,
        None => {
            return Err(Error::new(ErrorKind::Missing, Reason::UnsupportedEvent, ""));
        },
    };
    let mut response = match event.response.take() {
        Some(response) => response,
        None => {
            return Err(Error::new(ErrorKind::Missing, Reason::ResponseSent, ""));
        },
    };
    response.headers = headers;
    let r = match HttpVersion::parse(parts.version.as_str()) {
        None => Err(
            Error::new(ErrorKind::Type, Reason::InvalidVersion, parts.version.as_str()),
        ),
        Some(version) => {
            response.version = version;
            if status_is_valid(parts.status) {
                response.status = parts.status;
                Ok(())
            } else {
                Err(Error::new(ErrorKind::Type, Reason::InvalidStatus, ""))
            }
        },
    };
    event.response = Some(response);
    events.http = Some(event);
    r
}

/// A response can be sent: an HTTP event is attached, `SendResponse` covers
/// the request's path, and the response has not been sent.
pub open spec fn sendable(granted: PermissionsView, events: Events) -> bool {
    authorized(granted, events, Level::SendResponse) && response_of(events) is Some
}

/// The event `after` is the event `before` with its response `response`
/// handed over; the request has not changed.
pub open spec fn sent(before: Events, after: Events, response: HttpResponse) -> bool {
    &&& before.http is Some
    &&& response_of(before) == Some(response)
    &&& after.http is Some
    &&& request_of(after) == request_of(before)
    &&& response_of(after) is None
}

/// Why a response cannot be sent.
pub open spec fn send_fault(granted: PermissionsView, events: Events, e: ErrorView) -> bool {
    ||| refused(granted, events, Level::SendResponse, e)
    ||| authorized(granted, events, Level::SendResponse) && response_of(events) is None && e
        == response_sent()
}

/// Once a response has been sent, no permissions make it sendable again: of
/// the sends on one event at most one succeeds.
pub proof fn lemma_send_at_most_once(
    granted: PermissionsView,
    before: Events,
    after: Events,
    response: HttpResponse,
)
    requires
        sent(before, after, response),
    ensures
        !sendable(granted, after),
{
}

/// Takes the response off the event, after the common check.
fn take_response(permissions: &Permissions, events: &mut Events) -> (r: Result<HttpResponse, Error>)
    ensures
        r is Ok <==> sendable(permissions@, *old(events)),
        match r {
            Ok(response) => sent(*old(events), *final(events), response),
            Err(e) => *final(events) == *old(events) && send_fault(
                permissions@,
                *old(events),
                e@,
            ),
        },
{
    proof {
        reveal_strlit("");
        assert(""@ =~= Seq::<char>::empty());
    }
    authorize(permissions, events, Level::SendResponse)?;
    let pending = match &events.http {
        Some(event) => event.response.is_some(),
        None => false,
    };
    if !pending {
        return Err(Error::new(ErrorKind::Missing, Reason::ResponseSent, ""));
    }
    let mut event = match events.http.take() {
        Some(event) => event,
        None => {
            return Err(Error::new(ErrorKind::Missing, Reason::UnsupportedEvent, ""));
        },
    };
    let response = match event.response.take() {
        Some(response) => response,
        None => {
            return Err(Error::new(ErrorKind::Missing, Reason::ResponseSent, ""));
        },
    };
    events.http = Some(event);
    Ok(response)
}

/// Hands the response over with `buf` as its whole body; an empty `buf` is
/// an empty body. The caller gives both to the responder. Needs
/// `SendResponse`, and succeeds at most once for an event.
pub fn op_http_set_send_response_body(
    permissions: &Permissions,
    events: &mut Events,
    buf: Vec<u8>,
) -> (r: Result<(HttpResponse, Vec<u8>), Error>)
    ensures
        r is Ok <==> sendable(permissions@, *old(events)),
        match r {
            Ok((response, body)) => sent(*old(events), *final(events), response) && body == buf,
            Err(e) => *final(events) == *old(events) && send_fault(
                permissions@,
                *old(events),
                e@,
            ),
        },
{
    let response = take_response(permissions, events)?;
    Ok((response, buf))
}

/// Hands the response over with a body that the script writes in chunks:
/// the new, empty queue takes the chunks, and the caller gives the response
/// to the responder with the queue as its body. Needs `SendResponse`, and
/// succeeds at most once for an event.
pub fn op_http_set_send_response_body_write_stream(
    permissions: &Permissions,
    events: &mut Events,
) -> (r: Result<(HttpResponse, BufferQueue), Error>)
    ensures
        r is Ok <==> sendable(permissions@, *old(events)),
        match r {
            Ok((response, queue)) => {
                &&& sent(*old(events), *final(events), response)
                &&& queue@ == Seq::<Seq<u8>>::empty()
                &&& queue.bound() == MAX_BUFFER_QUEUE_SIZE
                &&& !queue.is_waiting()
            },
            Err(e) => *final(events) == *old(events) && send_fault(
                permissions@,
                *old(events),
                e@,
            ),
        },
{
    let response = take_response(permissions, events)?;
    Ok((response, BufferQueue::new()))
}

/// Queues the chunk `buf` of a streamed response body; an empty `buf` ends
/// the stream. Says whether the waiting transport has to be woken. Needs an
/// attached event and `ReadRequest`, and fails once the queue is at its
/// bound.
pub fn op_http_write_response_body_chunk(
    permissions: &Permissions,
    events: &Events,
    queue: &mut BufferQueue,
    buf: Vec<u8>,
) -> (r: Result<bool, Error>)
    ensures
        final(queue).bound() == old(queue).bound(),
        match r {
            Ok(wake) => {
                &&& authorized(permissions@, *events, Level::ReadRequest)
                &&& old(queue)@.len() < old(queue).bound()
                &&& final(queue)@ == old(queue)@.push(buf@)
                &&& final(queue)@.len() <= final(queue).bound()
                &&& wake == old(queue).is_waiting()
                &&& !final(queue).is_waiting()
            },
            Err(e) => {
                &&& final(queue)@ == old(queue)@
                &&& final(queue).is_waiting() == old(queue).is_waiting()
                &&& {
                    ||| refused(permissions@, *events, Level::ReadRequest, e@)
                    ||| authorized(permissions@, *events, Level::ReadRequest) && old(queue)@.len()
                        >= old(queue).bound() && e@ == failure(
                        ErrorKind::LimitExceeded,
                        Reason::QueueFull,
                        Seq::empty(),
                    )
                }
            },
        },
{
    authorize(permissions, events, Level::ReadRequest)?;
    queue.push(buf)
}

} // verus!
