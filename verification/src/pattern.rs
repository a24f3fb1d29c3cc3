//! Allow-list patterns: the grammar with its two wildcards, the anchored
//! regular expression that a pattern stands for, and the `regex` crate that
//! compiles and runs it.

use vstd::prelude::*;
use crate::text::{chars_of, string_of};

verus! {

/// The characters that mean something in a regular expression. Each stands
/// for itself only behind a backslash; every other character stands for
/// itself as it is.
pub open spec fn is_meta(c: char) -> bool {
    ||| c == '\\'
    ||| c == '.'
    ||| c == '+'
    ||| c == '*'
    ||| c == '?'
    ||| c == '('
    ||| c == ')'
    ||| c == '|'
    ||| c == '['
    ||| c == ']'
    ||| c == '{'
    ||| c == '}'
    ||| c == '^'
    ||| c == '$'
    ||| c == '#'
    ||| c == '&'
    ||| c == '-'
    ||| c == '~'
}

/// The regular expression for one character of a pattern that is no
/// wildcard: the character itself, behind a backslash where it would mean
/// something else.
pub open spec fn literal(c: char) -> Seq<char> {
    if is_meta(c) {
        seq!['\\', c]
    } else {
        seq![c]
    }
}

/// The regular expression for one or more of any character.
pub open spec fn any_run() -> Seq<char> {
    seq!['(', '?', 's', ':', '.', '+', ')']
}

/// The regular expression for a pattern's text: `**` becomes `(?s:.+)` (one
/// or more of any character, the line feed too), a remaining `*` becomes
/// `[^/]+` (one or more characters other than the separator), and every
/// other character becomes an expression that matches that character and
/// nothing else.
pub open spec fn glob_body(s: Seq<char>) -> Seq<char>
    decreases s.len(),
{
    if s.len() == 0 {
        Seq::empty()
    } else if s.len() >= 2 && s[0] == '*' && s[1] == '*' {
        any_run() + glob_body(s.skip(2))
    } else if s[0] == '*' {
        seq!['[', '^', '/', ']', '+'] + glob_body(s.skip(1))
    } else {
        literal(s[0]) + glob_body(s.skip(1))
    }
}

/// The anchored regular expression of a pattern: [`glob_body`] between `^`
/// and `$`, so that it has to match the whole text.
pub open spec fn anchored(s: Seq<char>) -> Seq<char> {
    seq!['^'] + glob_body(s) + seq!['$']
}

/// Whether `pattern` is a regular expression that `regex::Regex::new` accepts.
pub uninterp spec fn regex_valid(pattern: Seq<char>) -> bool;

/// Whether the compiled `pattern` finds a match in `text`, as
/// `regex::Regex::is_match` reports it.
pub uninterp spec fn regex_matches(pattern: Seq<char>, text: Seq<char>) -> bool;

/// A pattern accepts a text when it compiles and matches it.
pub open spec fn accepts(pattern: Seq<char>, text: Seq<char>) -> bool {
    regex_valid(pattern) && regex_matches(pattern, text)
}

/// Calls `regex::Regex::new` and reports whether it returned `Ok`. Nothing is
/// proved of which patterns compile: the answer has the name `regex_valid`.
#[verifier::external_body]
pub(crate) fn regex_compiles(pattern: &str) -> (ok: bool)
    ensures
        ok == regex_valid(pattern@),
{
    regex::Regex::new(pattern).is_ok()
}

/// Compiles `pattern` with `regex::Regex::new` and runs `Regex::is_match` on
/// `text`. `None` stands for a pattern that does not compile; otherwise the
/// answer of `is_match` is handed back under the name `regex_matches`.
#[verifier::external_body]
pub(crate) fn regex_is_match(pattern: &str, text: &str) -> (r: Option<bool>)
    ensures
        r == (if regex_valid(pattern@) {
            Some(regex_matches(pattern@, text@))
        } else {
            None
        }),
{
    match regex::Regex::new(pattern) {
        Ok(re) => Some(re.is_match(text)),
        Err(_) => None,
    }
}

/// The text in which every match of the compiled `pattern` in `text` has
/// been replaced by `replacement`, as `regex::Regex::replace_all` gives it;
/// the replacement may refer to capture groups with `$`.
pub uninterp spec fn regex_replaced(
    pattern: Seq<char>,
    text: Seq<char>,
    replacement: Seq<char>,
) -> Seq<char>;

/// Compiles `pattern` with `regex::Regex::new` and runs `Regex::replace_all`
/// on `text`. `None` stands for a pattern that does not compile; otherwise
/// the new text is handed back under the name `regex_replaced`.
#[verifier::external_body]
pub(crate) fn regex_replace_all(pattern: &str, text: &str, replacement: &str) -> (r: Option<String>)
    ensures
        regex_valid(pattern@) ==> r is Some && r.unwrap()@ == regex_replaced(
            pattern@,
            text@,
            replacement@,
        ),
        !regex_valid(pattern@) ==> r is None,
{
    match regex::Regex::new(pattern) {
        Ok(re) => Some(re.replace_all(text, replacement).into_owned()),
        Err(_) => None,
    }
}

proof fn lemma_skip_skip(s: Seq<char>, i: int, k: int)
    requires
        0 <= i,
        0 <= k,
        i + k <= s.len(),
    ensures
        s.skip(i).skip(k) == s.skip(i + k),
{
    assert(s.skip(i).skip(k) =~= s.skip(i + k));
}

/// Whether `c` means something in a regular expression.
pub fn needs_escape(c: char) -> (b: bool)
    ensures
        b == is_meta(c),
{
    c == '\\' || c == '.' || c == '+' || c == '*' || c == '?' || c == '(' || c == ')' || c == '|'
        || c == '[' || c == ']' || c == '{' || c == '}' || c == '^' || c == '$' || c == '#' || c
        == '&' || c == '-' || c == '~'
}

/// The anchored regular expression of `pattern`.
pub fn glob_to_regex(pattern: &str) -> (re: String)
    ensures
        re@ == anchored(pattern@),
{
    let src = chars_of(pattern);
    let mut out: Vec<char> = Vec::new();
    out.push('^');
    let mut i: usize = 0;
    proof {
        assert(src@.skip(0) =~= src@);
        assert(out@ =~= seq!['^']);
    }
    while i < src.len()
        invariant
            i <= src.len(),
            src@ == pattern@,
            out@ + glob_body(src@.skip(i as int)) == seq!['^'] + glob_body(src@),
        decreases src.len() - i,
    {
        let ghost rest = src@.skip(i as int);
        let ghost before = out@;
        if src[i] == '*' && i + 1 < src.len() && src[i + 1] == '*' {
            out.push('(');
            out.push('?');
            out.push('s');
            out.push(':');
            out.push('.');
            out.push('+');
            out.push(')');
            proof {
                lemma_skip_skip(src@, i as int, 2);
                assert(out@ =~= before + any_run());
                assert(out@ + glob_body(rest.skip(2)) =~= before + glob_body(rest));
            }
            i += 2;
        } else if src[i] == '*' {
            out.push('[');
            out.push('^');
            out.push('/');
            out.push(']');
            out.push('+');
            proof {
                lemma_skip_skip(src@, i as int, 1);
                assert(out@ =~= before + seq!['[', '^', '/', ']', '+']);
                assert(out@ + glob_body(rest.skip(1)) =~= before + glob_body(rest));
            }
            i += 1;
        } else {
            let c = src[i];
            if needs_escape(c) {
                out.push('\\');
            }
            out.push(c);
            proof {
                lemma_skip_skip(src@, i as int, 1);
                assert(out@ =~= before + literal(rest[0]));
                assert(out@ + glob_body(rest.skip(1)) =~= before + glob_body(rest));
            }
            i += 1;
        }
    }
    proof {
        assert(src@.skip(i as int) =~= Seq::<char>::empty());
        assert(out@ =~= seq!['^'] + glob_body(src@));
    }
    out.push('$');
    string_of(&out)
}

/// Whether `pattern`, a regular expression, compiles and matches `text`.
pub fn pattern_accepts(pattern: &str, text: &str) -> (b: bool)
    ensures
        b == accepts(pattern@, text@),
{
    match regex_is_match(pattern, text) {
        Some(found) => found,
        None => false,
    }
}

} // verus!
