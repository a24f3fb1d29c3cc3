use tera::errors::{ErrorKind, Reason};
use hyper::header::{HeaderName, HeaderValue};
use hyper::HeaderMap;
use tera::events::{Events, HttpEvent, HttpRequest, HttpResponse, HttpVersion, Uri};
use tera::events::headers::{
    is_name_char, name_is_valid, status_is_valid, value_is_valid, value_text, SURE_ROOM,
};
use tera::extensions::event_http::{
    authorize, build_headers, check_pair, settle_insert, op_http_get_request_body_read_stream,
    op_http_get_request_body_size_hint, op_http_get_request_header,
    op_http_get_request_headers, op_http_get_request_method, op_http_get_request_uri_authority,
    op_http_get_request_uri_host, op_http_get_request_uri_path,
    op_http_get_request_uri_path_query, op_http_get_request_uri_port,
    op_http_get_request_uri_query, op_http_get_request_uri_scheme,
    op_http_get_request_version, op_http_read_request_body_chunk, op_http_set_request_header,
    op_http_set_response_parts, op_http_set_send_response_body,
    op_http_set_send_response_body_write_stream, op_http_write_response_body_chunk,
    BufferQueue, Polled, ResponseParts, MAX_BUFFER_QUEUE_SIZE,
};
use tera::permissions::events::event_http::{HttpEvent as Level, HttpEventPath};
use tera::permissions::{PermissionType, Permissions};

fn permissions_for(levels: &[Level], pattern: &str) -> Permissions {
    let mut builder = Permissions::builder();
    for level in levels {
        builder = builder
            .add_permission_with_allow_list(
                PermissionType::HttpEvent(*level),
                vec![HttpEventPath::new(pattern)],
            )
            .unwrap();
    }
    builder.build()
}

fn header_map(pairs: &[(&str, &[u8])]) -> HeaderMap {
    let mut map = HeaderMap::new();
    for (name, value) in pairs {
        map.append(
            HeaderName::from_bytes(name.as_bytes()).unwrap(),
            HeaderValue::from_bytes(value).unwrap(),
        );
    }
    map
}

fn listing(map: &HeaderMap) -> Vec<(String, Vec<u8>)> {
    map.iter().map(|(n, v)| (n.as_str().to_owned(), v.as_bytes().to_vec())).collect()
}

fn hello_request() -> HttpRequest {
    HttpRequest {
        method: String::from("POST"),
        version: HttpVersion::Http11,
        uri: Uri {
            scheme: Some(String::from("https")),
            authority: Some(String::from("example.com:8443")),
            host: Some(String::from("example.com")),
            port: Some(8443),
            path: String::from("/v1/hello"),
            query: Some(String::from("a=1")),
            path_and_query: Some(String::from("/v1/hello?a=1")),
        },
        headers: header_map(&[("accept", b"text/plain"), ("x-tag", b"one"), ("x-tag", b"two")]),
        body_size: Some(2),
        body_taken: false,
    }
}

fn hello_events() -> Events {
    Events { http: Some(HttpEvent::new(hello_request())) }
}

const ALL: [Level; 4] =
    [Level::ReadRequest, Level::ModifyRequest, Level::WriteResponse, Level::SendResponse];

#[test]
fn http_echo() {
    let permissions = permissions_for(&[Level::ReadRequest, Level::SendResponse], "/v1/*");
    let mut events = hello_events();
    assert!(op_http_get_request_body_read_stream(&permissions, &mut events).is_ok());
    assert!(op_http_read_request_body_chunk(&permissions, &events).is_ok());
    let (response, body) =
        op_http_set_send_response_body(&permissions, &mut events, b"hi".to_vec()).unwrap();
    assert_eq!(response.status, 200);
    assert_eq!(body, b"hi");
    let again =
        op_http_set_send_response_body(&permissions, &mut events, b"hi".to_vec()).unwrap_err();
    assert_eq!(again.kind, ErrorKind::Missing);
    assert_eq!(again.reason, Reason::ResponseSent);
    let again =
        op_http_set_send_response_body_write_stream(&permissions, &mut events).err().unwrap();
    assert_eq!(again.reason, Reason::ResponseSent);
}

#[test]
fn no_event_is_a_missing_error() {
    let permissions = permissions_for(&ALL, "/**");
    let mut events = Events::default();
    let e = authorize(&permissions, &events, Level::ReadRequest).unwrap_err();
    assert_eq!(e.kind, ErrorKind::Missing);
    assert_eq!(e.reason, Reason::UnsupportedEvent);
    assert_eq!(e.message(), "unsupported event, \"HttpEvent\"");
    assert!(op_http_get_request_method(&permissions, &events).is_err());
    assert!(op_http_set_request_header(&permissions, &mut events, "a", "b").is_err());
    assert!(op_http_set_send_response_body(&permissions, &mut events, Vec::new()).is_err());
    let mut queue = BufferQueue::new();
    let e = op_http_write_response_body_chunk(&permissions, &events, &mut queue, vec![1])
        .unwrap_err();
    assert_eq!(e.reason, Reason::UnsupportedEvent);
    assert_eq!(queue.len(), 0);
}

#[test]
fn path_outside_the_allow_list_is_refused() {
    let permissions = permissions_for(&ALL, "/v2/*");
    let mut events = hello_events();
    let e = op_http_get_request_method(&permissions, &events).unwrap_err();
    assert_eq!(e.kind, ErrorKind::Permission);
    assert_eq!(e.reason, Reason::PermissionDenied(PermissionType::HttpEvent(Level::ReadRequest)));
    assert_eq!(e.subject, "/v1/hello");
    let e = op_http_set_send_response_body(&permissions, &mut events, Vec::new()).unwrap_err();
    assert_eq!(e.reason, Reason::PermissionDenied(PermissionType::HttpEvent(Level::SendResponse)));
    assert!(events.http.as_ref().unwrap().response.is_some());
}

#[test]
fn each_operation_needs_its_own_level() {
    let read_only = permissions_for(&[Level::ReadRequest], "/v1/*");
    let mut events = hello_events();
    assert!(op_http_get_request_method(&read_only, &events).is_ok());
    let e = op_http_set_request_header(&read_only, &mut events, "a", "b").unwrap_err();
    assert_eq!(e.reason, Reason::PermissionDenied(PermissionType::HttpEvent(Level::ModifyRequest)));
    let e = op_http_set_response_parts(&read_only, &mut events, &ResponseParts::default())
        .unwrap_err();
    assert_eq!(e.reason, Reason::PermissionDenied(PermissionType::HttpEvent(Level::WriteResponse)));
    let e = op_http_set_send_response_body_write_stream(&read_only, &mut events).err().unwrap();
    assert_eq!(e.reason, Reason::PermissionDenied(PermissionType::HttpEvent(Level::SendResponse)));
}

#[test]
fn request_parts_are_read_back() {
    let permissions = permissions_for(&[Level::ReadRequest], "/v1/*");
    let events = hello_events();
    assert_eq!(op_http_get_request_method(&permissions, &events).unwrap(), "POST");
    assert_eq!(op_http_get_request_version(&permissions, &events).unwrap(), "HTTP/1.1");
    assert_eq!(op_http_get_request_uri_path(&permissions, &events).unwrap(), "/v1/hello");
    assert_eq!(
        op_http_get_request_uri_scheme(&permissions, &events).unwrap().as_deref(),
        Some("https")
    );
    assert_eq!(
        op_http_get_request_uri_authority(&permissions, &events).unwrap().as_deref(),
        Some("example.com:8443")
    );
    assert_eq!(
        op_http_get_request_uri_host(&permissions, &events).unwrap().as_deref(),
        Some("example.com")
    );
    assert_eq!(op_http_get_request_uri_port(&permissions, &events).unwrap(), Some(8443));
    assert_eq!(
        op_http_get_request_uri_query(&permissions, &events).unwrap().as_deref(),
        Some("a=1")
    );
    assert_eq!(
        op_http_get_request_uri_path_query(&permissions, &events).unwrap().as_deref(),
        Some("/v1/hello?a=1")
    );
    assert_eq!(op_http_get_request_body_size_hint(&permissions, &events).unwrap(), 2);
}

#[test]
fn size_hint_is_zero_once_the_body_is_taken() {
    let permissions = permissions_for(&[Level::ReadRequest], "/v1/*");
    let mut events = hello_events();
    op_http_get_request_body_read_stream(&permissions, &mut events).unwrap();
    assert!(events.http.as_ref().unwrap().request.body_taken);
    assert_eq!(op_http_get_request_body_size_hint(&permissions, &events).unwrap(), 0);
    let mut unknown = hello_events();
    unknown.http.as_mut().unwrap().request.body_size = None;
    assert_eq!(op_http_get_request_body_size_hint(&permissions, &unknown).unwrap(), 0);
}

#[test]
fn headers_are_listed_in_order() {
    let permissions = permissions_for(&[Level::ReadRequest], "/v1/*");
    let events = hello_events();
    let listed = op_http_get_request_headers(&permissions, &events).unwrap();
    assert_eq!(
        listed,
        vec![
            (String::from("accept"), String::from("text/plain")),
            (String::from("x-tag"), String::from("one")),
            (String::from("x-tag"), String::from("two")),
        ]
    );
}

#[test]
fn header_lookup_ignores_case_and_takes_the_first() {
    let permissions = permissions_for(&[Level::ReadRequest], "/v1/*");
    let events = hello_events();
    assert_eq!(op_http_get_request_header(&permissions, &events, "X-Tag").unwrap(), "one");
    assert_eq!(op_http_get_request_header(&permissions, &events, "accept").unwrap(), "text/plain");
    let e = op_http_get_request_header(&permissions, &events, "x-none").unwrap_err();
    assert_eq!(e.kind, ErrorKind::Missing);
    assert_eq!(e.reason, Reason::MissingHeader);
    assert_eq!(e.subject, "x-none");
    let e = op_http_get_request_header(&permissions, &events, "not a name").unwrap_err();
    assert_eq!(e.reason, Reason::MissingHeader);
}

#[test]
fn opaque_header_value_is_a_type_error() {
    let permissions = permissions_for(&[Level::ReadRequest], "/v1/*");
    let mut events = hello_events();
    events
        .http
        .as_mut()
        .unwrap()
        .request
        .headers
        .append("x-bin", HeaderValue::from_bytes(&[0xc3, 0xa9]).unwrap());
    let e = op_http_get_request_header(&permissions, &events, "x-bin").unwrap_err();
    assert_eq!(e.kind, ErrorKind::Type);
    assert_eq!(e.reason, Reason::OpaqueHeaderValue);
    let e = op_http_get_request_headers(&permissions, &events).unwrap_err();
    assert_eq!(e.reason, Reason::OpaqueHeaderValue);
    assert_eq!(e.subject, "x-bin");
    assert_eq!(op_http_get_request_header(&permissions, &events, "accept").unwrap(), "text/plain");
}

#[test]
fn set_header_then_get_header() {
    let permissions = permissions_for(&[Level::ReadRequest, Level::ModifyRequest], "/v1/*");
    let mut events = hello_events();
    let before = op_http_set_request_header(&permissions, &mut events, "X-New", "fresh value\t1")
        .unwrap();
    assert_eq!(before, None);
    assert_eq!(
        op_http_get_request_header(&permissions, &events, "x-new").unwrap(),
        "fresh value\t1"
    );
    let before = op_http_set_request_header(&permissions, &mut events, "X-TAG", "three").unwrap();
    assert_eq!(before.as_deref(), Some("three"));
    assert_eq!(op_http_get_request_header(&permissions, &events, "x-tag").unwrap(), "three");
    let listed = op_http_get_request_headers(&permissions, &events).unwrap();
    assert_eq!(
        listed,
        vec![
            (String::from("accept"), String::from("text/plain")),
            (String::from("x-tag"), String::from("three")),
            (String::from("x-new"), String::from("fresh value\t1")),
        ]
    );
}

#[test]
fn header_names_are_tokens_in_lower_case() {
    let permissions = permissions_for(&[Level::ReadRequest, Level::ModifyRequest], "/v1/*");
    let mut events = hello_events();
    let odd = "A!\"#$%&'*+-.^_`|~09Zz";
    assert!(op_http_set_request_header(&permissions, &mut events, odd, "v").is_ok());
    let listed = op_http_get_request_headers(&permissions, &events).unwrap();
    assert_eq!(listed.last().unwrap().0, "a!\"#$%&'*+-.^_`|~09zz");
    assert_eq!(op_http_get_request_header(&permissions, &events, &odd.to_lowercase()).unwrap(), "v");
    for bad in ["", " ", "a b", "a(b", "a)b", "a,b", "a/b", "a:b", "a;b", "a<b", "a=b", "a>b",
        "a?b", "a@b", "a[b", "a\\b", "a]b", "a{b", "a}b", "a\u{7f}", "caf\u{e9}", "a\tb"]
    {
        let e = op_http_set_request_header(&permissions, &mut events, bad, "v").unwrap_err();
        assert_eq!(e.reason, Reason::InvalidHeaderName);
        let e = op_http_get_request_header(&permissions, &events, bad).unwrap_err();
        assert_eq!(e.reason, Reason::MissingHeader);
    }
    let longest = "a".repeat(65535);
    assert!(op_http_set_request_header(&permissions, &mut events, &longest, "v").is_ok());
    assert_eq!(op_http_get_request_header(&permissions, &events, &longest).unwrap(), "v");
    let too_long = "a".repeat(65536);
    let e = op_http_set_request_header(&permissions, &mut events, &too_long, "v").unwrap_err();
    assert_eq!(e.reason, Reason::InvalidHeaderName);
}

#[test]
fn header_rules() {
    assert!(name_is_valid("Content-Type"));
    assert!(name_is_valid("a\"b"));
    assert!(!name_is_valid(""));
    assert!(!name_is_valid("a b"));
    assert!(!name_is_valid("caf\u{e9}"));
    assert!(name_is_valid(&"a".repeat(65535)));
    assert!(!name_is_valid(&"a".repeat(65536)));
    for c in "!\"#$%&'*+-.^_`|~09azAZ".chars() {
        assert!(is_name_char(c));
    }
    for c in " (),/:;<=>?@[\\]{}\u{7f}\u{0}\t\u{e9}".chars() {
        assert!(!is_name_char(c));
    }
    assert!(value_is_valid(""));
    assert!(value_is_valid("a b\tc~"));
    assert!(value_is_valid("caf\u{e9}"));
    assert!(!value_is_valid("a\nb"));
    assert!(!value_is_valid("a\u{7f}"));
    assert!(!value_is_valid("\u{1f}"));
    assert_eq!(value_text(b"a b\tc~").as_deref(), Some("a b\tc~"));
    assert_eq!(value_text(b"").as_deref(), Some(""));
    assert_eq!(value_text(&[0x7f]), None);
    assert_eq!(value_text(&[0x80]), None);
    assert_eq!(value_text(&[0x1f]), None);
    assert_eq!(value_text("caf\u{e9}".as_bytes()), None);
    assert!(!status_is_valid(99));
    assert!(status_is_valid(100));
    assert!(status_is_valid(999));
    assert!(!status_is_valid(1000));
    let e = check_pair("a b", "\n").unwrap_err();
    assert_eq!(e.reason, Reason::InvalidHeaderName);
    let e = check_pair("a", "\n").unwrap_err();
    assert_eq!(e.reason, Reason::InvalidHeaderValue);
    assert!(check_pair("a", "b").is_ok());
    assert_eq!(settle_insert(Some(true), "v").unwrap().as_deref(), Some("v"));
    assert_eq!(settle_insert(Some(false), "v").unwrap(), None);
    let e = settle_insert(None, "v").unwrap_err();
    assert_eq!(e.kind, ErrorKind::LimitExceeded);
    assert_eq!(e.reason, Reason::TooManyHeaders);
}

#[test]
fn a_map_that_cannot_grow_refuses() {
    let pairs: Vec<(String, String)> =
        (0..40_000usize).map(|i| (format!("h{}", i), String::from("v"))).collect();
    let e = build_headers(&pairs).unwrap_err();
    assert_eq!(e.kind, ErrorKind::LimitExceeded);
    assert_eq!(e.reason, Reason::TooManyHeaders);
    assert_eq!(e.message(), "too many headers");
    let permissions = permissions_for(&[Level::WriteResponse], "/v1/*");
    let mut events = hello_events();
    let parts = ResponseParts { status: 204, version: String::from("2"), headers: pairs };
    let e = op_http_set_response_parts(&permissions, &mut events, &parts).unwrap_err();
    assert_eq!(e.reason, Reason::TooManyHeaders);
    let response = events.http.as_ref().unwrap().response.as_ref().unwrap();
    assert!(response.headers.is_empty());
    assert_eq!(response.status, 200);
    assert_eq!(response.version, HttpVersion::Http11);
}

#[test]
fn many_headers_can_be_set() {
    let permissions = permissions_for(&[Level::ReadRequest, Level::ModifyRequest], "/v1/*");
    let mut events = hello_events();
    for i in 0..200usize {
        let name = format!("h{}", i);
        assert_eq!(op_http_set_request_header(&permissions, &mut events, &name, "v").unwrap(), None);
    }
    assert_eq!(events.http.as_ref().unwrap().request.headers.len(), 203);
    assert_eq!(op_http_get_request_header(&permissions, &events, "h199").unwrap(), "v");
}

#[test]
fn a_list_within_the_sure_room_always_fits() {
    assert_eq!(SURE_ROOM, 4096);
    let pairs: Vec<(String, String)> =
        (0..SURE_ROOM).map(|i| (format!("h{}", i), String::from("v"))).collect();
    assert_eq!(build_headers(&pairs).unwrap().len(), SURE_ROOM);
    let permissions = permissions_for(&[Level::WriteResponse], "/v1/*");
    let mut events = hello_events();
    let parts = ResponseParts { status: 204, version: String::from("1.1"), headers: pairs };
    assert!(op_http_set_response_parts(&permissions, &mut events, &parts).is_ok());
    let empty = ResponseParts { status: 204, version: String::from("1.1"), headers: Vec::new() };
    assert!(op_http_set_response_parts(&permissions, &mut events, &empty).is_ok());
    let response = events.http.as_ref().unwrap().response.as_ref().unwrap();
    assert!(response.headers.is_empty());
}

#[test]
fn a_set_header_keeps_its_place() {
    let permissions = permissions_for(&[Level::ReadRequest, Level::ModifyRequest], "/v1/*");
    let mut events = hello_events();
    op_http_set_request_header(&permissions, &mut events, "Accept", "*/*").unwrap();
    let map = &events.http.as_ref().unwrap().request.headers;
    assert_eq!(
        listing(map),
        vec![
            (String::from("accept"), b"*/*".to_vec()),
            (String::from("x-tag"), b"one".to_vec()),
            (String::from("x-tag"), b"two".to_vec()),
        ]
    );
}

#[test]
fn bad_header_parts_are_type_errors() {
    let permissions = permissions_for(&[Level::ReadRequest, Level::ModifyRequest], "/v1/*");
    let mut events = hello_events();
    let e = op_http_set_request_header(&permissions, &mut events, "bad name", "v").unwrap_err();
    assert_eq!(e.kind, ErrorKind::Type);
    assert_eq!(e.reason, Reason::InvalidHeaderName);
    assert_eq!(e.subject, "bad name");
    let e = op_http_set_request_header(&permissions, &mut events, "", "v").unwrap_err();
    assert_eq!(e.reason, Reason::InvalidHeaderName);
    let e = op_http_set_request_header(&permissions, &mut events, "x-a", "line\nbreak").unwrap_err();
    assert_eq!(e.reason, Reason::InvalidHeaderValue);
    assert_eq!(e.subject, "line\nbreak");
    let e = op_http_set_request_header(&permissions, &mut events, "x-a", "del\u{7f}").unwrap_err();
    assert_eq!(e.reason, Reason::InvalidHeaderValue);
    assert_eq!(
        listing(&events.http.as_ref().unwrap().request.headers),
        listing(&hello_request().headers)
    );
}

#[test]
fn a_value_outside_ascii_is_set_but_not_read_back() {
    let permissions = permissions_for(&[Level::ReadRequest, Level::ModifyRequest], "/v1/*");
    let mut events = hello_events();
    assert!(op_http_set_request_header(&permissions, &mut events, "x-a", "caf\u{e9}").is_ok());
    let stored = &events.http.as_ref().unwrap().request.headers;
    assert_eq!(stored.get("x-a").unwrap().as_bytes(), "caf\u{e9}".as_bytes());
    let e = op_http_get_request_header(&permissions, &events, "x-a").unwrap_err();
    assert_eq!(e.reason, Reason::OpaqueHeaderValue);
}

#[test]
fn response_parts_are_set() {
    let permissions = permissions_for(&[Level::WriteResponse, Level::SendResponse], "/v1/*");
    let mut events = hello_events();
    let parts = ResponseParts {
        status: 404,
        version: String::from("2"),
        headers: vec![
            (String::from("Content-Type"), String::from("text/plain")),
            (String::from("X-A"), String::from("1")),
            (String::from("content-type"), String::from("text/html")),
        ],
    };
    op_http_set_response_parts(&permissions, &mut events, &parts).unwrap();
    let (response, body) =
        op_http_set_send_response_body(&permissions, &mut events, Vec::new()).unwrap();
    assert!(body.is_empty());
    assert_eq!(response.status, 404);
    assert_eq!(response.version, HttpVersion::H2);
    assert_eq!(
        listing(&response.headers),
        vec![
            (String::from("content-type"), b"text/html".to_vec()),
            (String::from("x-a"), b"1".to_vec()),
        ]
    );
    let e = op_http_set_response_parts(&permissions, &mut events, &parts).unwrap_err();
    assert_eq!(e.kind, ErrorKind::Missing);
    assert_eq!(e.reason, Reason::ResponseSent);
}

#[test]
fn every_version_string() {
    assert_eq!(HttpVersion::parse("0.9"), Some(HttpVersion::Http09));
    assert_eq!(HttpVersion::parse("1.0"), Some(HttpVersion::Http10));
    assert_eq!(HttpVersion::parse("1.1"), Some(HttpVersion::Http11));
    assert_eq!(HttpVersion::parse("2"), Some(HttpVersion::H2));
    assert_eq!(HttpVersion::parse("3"), Some(HttpVersion::H3));
    assert_eq!(HttpVersion::parse("2.0"), None);
    assert_eq!(HttpVersion::parse(""), None);
    assert_eq!(HttpVersion::parse("HTTP/1.1"), None);
    assert_eq!(HttpVersion::Http09.name(), "HTTP/0.9");
    assert_eq!(HttpVersion::Http10.name(), "HTTP/1.0");
    assert_eq!(HttpVersion::H2.name(), "HTTP/2.0");
    assert_eq!(HttpVersion::H3.name(), "HTTP/3.0");
}

#[test]
fn a_refused_part_keeps_the_parts_after_it() {
    let permissions = permissions_for(&[Level::WriteResponse], "/v1/*");
    let mut events = hello_events();
    let bad_version = ResponseParts {
        status: 201,
        version: String::from("1.2"),
        headers: vec![(String::from("x-a"), String::from("1"))],
    };
    let e = op_http_set_response_parts(&permissions, &mut events, &bad_version).unwrap_err();
    assert_eq!(e.kind, ErrorKind::Type);
    assert_eq!(e.reason, Reason::InvalidVersion);
    assert_eq!(e.subject, "1.2");
    let response = events.http.as_ref().unwrap().response.as_ref().unwrap();
    assert_eq!(response.headers.len(), 1);
    assert_eq!(response.version, HttpVersion::Http11);
    assert_eq!(response.status, 200);

    let bad_status = ResponseParts { status: 99, version: String::from("3"), headers: Vec::new() };
    let e = op_http_set_response_parts(&permissions, &mut events, &bad_status).unwrap_err();
    assert_eq!(e.reason, Reason::InvalidStatus);
    let response = events.http.as_ref().unwrap().response.as_ref().unwrap();
    assert!(response.headers.is_empty());
    assert_eq!(response.version, HttpVersion::H3);
    assert_eq!(response.status, 200);

    let bad_header = ResponseParts {
        status: 500,
        version: String::from("1.0"),
        headers: vec![
            (String::from("x-a"), String::from("1")),
            (String::from("x b"), String::from("2")),
            (String::from("x-c"), String::from("\u{1}")),
        ],
    };
    let e = op_http_set_response_parts(&permissions, &mut events, &bad_header).unwrap_err();
    assert_eq!(e.reason, Reason::InvalidHeaderName);
    assert_eq!(e.subject, "x b");
    let response = events.http.as_ref().unwrap().response.as_ref().unwrap();
    assert!(response.headers.is_empty());
    assert_eq!(response.version, HttpVersion::H3);
}

#[test]
fn status_bounds() {
    let permissions = permissions_for(&[Level::WriteResponse], "/v1/*");
    for (status, good) in [(99u16, false), (100, true), (999, true), (1000, false), (0, false)] {
        let mut events = hello_events();
        let parts = ResponseParts { status, version: String::from("1.1"), headers: Vec::new() };
        assert_eq!(op_http_set_response_parts(&permissions, &mut events, &parts).is_ok(), good);
    }
}

#[test]
fn headers_are_built_from_pairs() {
    let built = build_headers(&vec![
        (String::from("A"), String::from("1")),
        (String::from("B"), String::from("2")),
        (String::from("a"), String::from("3")),
    ])
    .unwrap();
    assert_eq!(
        listing(&built),
        vec![(String::from("a"), b"3".to_vec()), (String::from("b"), b"2".to_vec())]
    );
    assert!(build_headers(&Vec::new()).unwrap().is_empty());
}

#[test]
fn response_defaults() {
    let response = HttpResponse::default();
    assert_eq!(response.status, 200);
    assert_eq!(response.version, HttpVersion::Http11);
    assert!(response.headers.is_empty());
    let parts = ResponseParts::default();
    assert_eq!(parts.status, 0);
    assert!(parts.version.is_empty());
    assert!(parts.headers.is_empty());
}

#[test]
fn streaming_response() {
    let permissions = permissions_for(&[Level::ReadRequest, Level::SendResponse], "/v1/*");
    let mut events = hello_events();
    let (response, mut queue) =
        op_http_set_send_response_body_write_stream(&permissions, &mut events).unwrap();
    assert_eq!(response.status, 200);
    assert_eq!(queue.len(), 0);
    for chunk in [&b"a"[..], &b"bc"[..], &b""[..]] {
        let wake =
            op_http_write_response_body_chunk(&permissions, &events, &mut queue, chunk.to_vec())
                .unwrap();
        assert!(!wake);
    }
    assert!(matches!(queue.poll(), Polled::Ready(chunk) if chunk == b"a"));
    assert!(matches!(queue.poll(), Polled::Ready(chunk) if chunk == b"bc"));
    assert!(matches!(queue.poll(), Polled::Done));
    assert!(matches!(queue.poll(), Polled::Pending));
}

#[test]
fn chunks_reach_the_transport_in_order() {
    let mut queue = BufferQueue::new();
    for chunk in [&b"a"[..], &b"bc"[..], &b""[..], &b"late"[..]] {
        queue.push(chunk.to_vec()).unwrap();
    }
    let (bytes, ended) = queue.drain();
    assert_eq!(bytes, b"abc");
    assert!(ended);
    assert_eq!(queue.len(), 1);
    let mut open = BufferQueue::new();
    open.push(b"xy".to_vec()).unwrap();
    let (bytes, ended) = open.drain();
    assert_eq!(bytes, b"xy");
    assert!(!ended);
    assert!(open.waiting());
}

#[test]
fn the_queue_is_bounded() {
    let permissions = permissions_for(&[Level::ReadRequest, Level::SendResponse], "/v1/*");
    let mut events = hello_events();
    let (_, mut queue) =
        op_http_set_send_response_body_write_stream(&permissions, &mut events).unwrap();
    assert_eq!(MAX_BUFFER_QUEUE_SIZE, 1024);
    for _ in 0..1024 {
        op_http_write_response_body_chunk(&permissions, &events, &mut queue, vec![7]).unwrap();
    }
    assert_eq!(queue.len(), 1024);
    let e = op_http_write_response_body_chunk(&permissions, &events, &mut queue, vec![7])
        .unwrap_err();
    assert_eq!(e.kind, ErrorKind::LimitExceeded);
    assert_eq!(e.reason, Reason::QueueFull);
    assert_eq!(queue.len(), 1024);
    assert!(matches!(queue.poll(), Polled::Ready(_)));
    assert!(op_http_write_response_body_chunk(&permissions, &events, &mut queue, vec![7]).is_ok());
}

#[test]
fn a_small_bound_is_kept() {
    let mut queue = BufferQueue::with_bound(2);
    assert!(queue.push(vec![1]).is_ok());
    assert!(queue.push(vec![2]).is_ok());
    assert!(queue.push(vec![3]).is_err());
    assert_eq!(queue.len(), 2);
    let mut none = BufferQueue::with_bound(0);
    assert!(none.push(vec![1]).is_err());
    assert_eq!(none.len(), 0);
}

#[test]
fn a_write_wakes_the_waiting_transport_once() {
    let mut queue = BufferQueue::new();
    assert!(!queue.waiting());
    assert!(matches!(queue.poll(), Polled::Pending));
    assert!(queue.waiting());
    assert_eq!(queue.push(vec![1]).unwrap(), true);
    assert!(!queue.waiting());
    assert_eq!(queue.push(vec![2]).unwrap(), false);
}
