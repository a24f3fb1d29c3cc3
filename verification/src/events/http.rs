//! An inbound HTTP event as the operations see it: the request's parts, its
//! headers, and the response that is being prepared until it is sent.

use hyper::header::HeaderValue;
use hyper::HeaderMap;
use vstd::prelude::*;
use vstd::string::*;

verus! {

/// `hyper`'s map of headers: for each name one value or several.
#[verifier::external_type_specification]
#[verifier::external_body]
#[verifier::reject_recursive_types(T)]
pub struct ExHeaderMap<T>(HeaderMap<T>);

/// `hyper`'s header value: bytes without control characters.
#[verifier::external_type_specification]
#[verifier::external_body]
pub struct ExHeaderValue(HeaderValue);

/// What a map of headers holds: each header's name and the bytes of its
/// value, in the order in which `HeaderMap::iter` yields them.
pub uninterp spec fn header_entries(map: HeaderMap<HeaderValue>) -> Seq<(Seq<char>, Seq<u8>)>;

/// The HTTP versions.
#[derive(Clone, Copy, Debug, PartialEq, Eq, Structural)]
pub enum HttpVersion {
    Http09,
    Http10,
    Http11,
    H2,
    H3,
}

/// One header line: its name in lower case and the bytes of its value.
#[derive(Debug)]
pub struct Header {
    pub name: String,
    pub value: Vec<u8>,
}

/// The mathematical value of a [`Header`].
pub struct HeaderView {
    pub name: Seq<char>,
    pub value: Seq<u8>,
}

impl View for Header {
    type V = HeaderView;

    open spec fn view(&self) -> HeaderView {
        HeaderView { name: self.name@, value: self.value@ }
    }
}

/// The values of a list of headers.
pub open spec fn header_views(list: Seq<Header>) -> Seq<HeaderView> {
    list.map_values(|h: Header| h@)
}

/// The headers that a map holds, in the map's order.
pub open spec fn headers_of(map: HeaderMap<HeaderValue>) -> Seq<HeaderView> {
    header_entries(map).map_values(
        |entry: (Seq<char>, Seq<u8>)| HeaderView { name: entry.0, value: entry.1 },
    )
}

/// The parts of the request's URI.
#[derive(Debug)]
pub struct Uri {
    pub scheme: Option<String>,
    pub authority: Option<String>,
    pub host: Option<String>,
    pub port: Option<u16>,
    pub path: String,
    pub query: Option<String>,
    pub path_and_query: Option<String>,
}

/// The request of the event. The body itself stays with the transport; what
/// is kept here is its exact size, where that is known, and whether a script
/// has taken it.
#[derive(Debug)]
pub struct HttpRequest {
    pub method: String,
    pub version: HttpVersion,
    pub uri: Uri,
    pub headers: HeaderMap<HeaderValue>,
    pub body_size: Option<u64>,
    pub body_taken: bool,
}

/// The response that is being prepared.
#[derive(Debug)]
pub struct HttpResponse {
    pub version: HttpVersion,
    pub status: u16,
    pub headers: HeaderMap<HeaderValue>,
}

/// The mathematical value of an [`HttpResponse`].
pub struct HttpResponseView {
    pub version: HttpVersion,
    pub status: u16,
    pub headers: Seq<HeaderView>,
}

impl View for HttpResponse {
    type V = HttpResponseView;

    open spec fn view(&self) -> HttpResponseView {
        HttpResponseView {
            version: self.version,
            status: self.status,
            headers: headers_of(self.headers),
        }
    }
}

impl Default for HttpResponse {
    /// An empty `200` response over HTTP/1.1.
    fn default() -> (response: HttpResponse)
        ensures
            response@ == (HttpResponseView {
                version: HttpVersion::Http11,
                status: 200,
                headers: Seq::empty(),
            }),
    {
        let response = HttpResponse {
            version: HttpVersion::Http11,
            status: 200,
            headers: crate::events::headers::new_headers(),
        };
        assert(headers_of(response.headers) =~= Seq::<HeaderView>::empty());
        response
    }
}

/// An HTTP event: the request, and the response until it has been handed to
/// the responder.
#[derive(Debug)]
pub struct HttpEvent {
    pub request: HttpRequest,
    pub response: Option<HttpResponse>,
}

impl HttpEvent {
    /// The event for `request`, with an empty `200` response to work on.
    pub fn new(request: HttpRequest) -> (event: HttpEvent)
        ensures
            event.request == request,
            event.response is Some,
            event.response.unwrap()@ == (HttpResponseView {
                version: HttpVersion::Http11,
                status: 200,
                headers: Seq::empty(),
            }),
    {
        HttpEvent { request, response: Some(HttpResponse::default()) }
    }
}

/// The text of an optional string.
pub open spec fn text_of(s: Option<String>) -> Option<Seq<char>> {
    match s {
        Some(s) => Some(s@),
        None => None,
    }
}

/// A copy of an optional string.
pub fn copy_text(s: &Option<String>) -> (out: Option<String>)
    ensures
        text_of(out) == text_of(*s),
{
    match s {
        Some(s) => Some(s.clone()),
        None => None,
    }
}

/// The version that a version string names: one of `0.9`, `1.0`, `1.1`, `2`
/// and `3`.
pub open spec fn spec_parse_version(s: Seq<char>) -> Option<HttpVersion> {
    if s == seq!['0', '.', '9'] {
        Some(HttpVersion::Http09)
    } else if s == seq!['1', '.', '0'] {
        Some(HttpVersion::Http10)
    } else if s == seq!['1', '.', '1'] {
        Some(HttpVersion::Http11)
    } else if s == seq!['2'] {
        Some(HttpVersion::H2)
    } else if s == seq!['3'] {
        Some(HttpVersion::H3)
    } else {
        None
    }
}

/// The name of a version as a request reports it.
pub open spec fn spec_version_name(version: HttpVersion) -> Seq<char> {
    match version {
        HttpVersion::Http09 => seq!['H', 'T', 'T', 'P', '/', '0', '.', '9'],
        HttpVersion::Http10 => seq!['H', 'T', 'T', 'P', '/', '1', '.', '0'],
        HttpVersion::Http11 => seq!['H', 'T', 'T', 'P', '/', '1', '.', '1'],
        HttpVersion::H2 => seq!['H', 'T', 'T', 'P', '/', '2', '.', '0'],
        HttpVersion::H3 => seq!['H', 'T', 'T', 'P', '/', '3', '.', '0'],
    }
}

impl HttpVersion {
    /// The version that the string names, if it names one.
    pub fn parse(s: &str) -> (version: Option<HttpVersion>)
        ensures
            version == spec_parse_version(s@),
    {
        proof {
            reveal_strlit("0.9");
            reveal_strlit("1.0");
            reveal_strlit("1.1");
            reveal_strlit("2");
            reveal_strlit("3");
            assert("0.9"@ =~= seq!['0', '.', '9']);
            assert("1.0"@ =~= seq!['1', '.', '0']);
            assert("1.1"@ =~= seq!['1', '.', '1']);
            assert("2"@ =~= seq!['2']);
            assert("3"@ =~= seq!['3']);
        }
        if crate::text::same_text(s, "0.9") {
            Some(HttpVersion::Http09)
        } else if crate::text::same_text(s, "1.0") {
            Some(HttpVersion::Http10)
        } else if crate::text::same_text(s, "1.1") {
            Some(HttpVersion::Http11)
        } else if crate::text::same_text(s, "2") {
            Some(HttpVersion::H2)
        } else if crate::text::same_text(s, "3") {
            Some(HttpVersion::H3)
        } else {
            None
        }
    }

    /// The name of the version, such as `HTTP/1.1`.
    pub fn name(&self) -> (s: String)
        ensures
            s@ == spec_version_name(*self),
    {
        proof {
            reveal_strlit("HTTP/0.9");
            reveal_strlit("HTTP/1.0");
            reveal_strlit("HTTP/1.1");
            reveal_strlit("HTTP/2.0");
            reveal_strlit("HTTP/3.0");
            assert("HTTP/0.9"@ =~= spec_version_name(HttpVersion::Http09));
            assert("HTTP/1.0"@ =~= spec_version_name(HttpVersion::Http10));
            assert("HTTP/1.1"@ =~= spec_version_name(HttpVersion::Http11));
            assert("HTTP/2.0"@ =~= spec_version_name(HttpVersion::H2));
            assert("HTTP/3.0"@ =~= spec_version_name(HttpVersion::H3));
        }
        match self {
            HttpVersion::Http09 => "HTTP/0.9".to_owned(),
            HttpVersion::Http10 => "HTTP/1.0".to_owned(),
            HttpVersion::Http11 => "HTTP/1.1".to_owned(),
            HttpVersion::H2 => "HTTP/2.0".to_owned(),
            HttpVersion::H3 => "HTTP/3.0".to_owned(),
        }
    }
}

} // verus!
