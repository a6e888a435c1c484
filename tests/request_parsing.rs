use http_server::{Method, ParseError, QueryString, Request, Value};

fn single(q: &QueryString, key: &str) -> String {
    match q.get(key) {
        Some(Value::Single(v)) => v.to_string(),
        Some(Value::Multiple(vs)) => panic!("{} has several values: {:?}", key, vs),
        None => panic!("{} is missing", key),
    }
}

#[test]
fn parses_search_request() {
    let buf = b"GET /search?name=abc&sort=1 HTTP/1.1\r\nHost: localhost\r\n\r\n";
    let req = Request::try_from(&buf[..]).unwrap();
    assert_eq!(*req.method(), Method::GET);
    assert_eq!(req.path(), "/search");
    let q = req.query_string().expect("query string");
    assert_eq!(single(q, "name"), "abc");
    assert_eq!(single(q, "sort"), "1");
    assert!(q.get("other").is_none());
}

#[test]
fn path_without_query_has_no_query_string() {
    let req = Request::try_from(&b"GET /index.html HTTP/1.1\r\n"[..]).unwrap();
    assert_eq!(req.path(), "/index.html");
    assert!(req.query_string().is_none());
}

#[test]
fn question_mark_alone_gives_empty_key() {
    let req = Request::try_from(&b"GET /? HTTP/1.1\r\n"[..]).unwrap();
    assert_eq!(req.path(), "/");
    let q = req.query_string().expect("query string");
    assert_eq!(single(q, ""), "");
}

#[test]
fn path_never_keeps_question_mark() {
    let req = Request::try_from(&b"POST /a/b?x=1?y=2&z HTTP/1.1\r\n"[..]).unwrap();
    assert_eq!(*req.method(), Method::POST);
    assert_eq!(req.path(), "/a/b");
    assert!(!req.path().contains('?'));
    let q = req.query_string().unwrap();
    assert_eq!(single(q, "x"), "1?y=2");
    assert_eq!(single(q, "z"), "");
}

#[test]
fn all_nine_methods_parse() {
    let cases = [
        ("GET", Method::GET),
        ("DELETE", Method::DELETE),
        ("POST", Method::POST),
        ("PUT", Method::PUT),
        ("HEAD", Method::HEAD),
        ("CONNECT", Method::CONNECT),
        ("OPTIONS", Method::OPTIONS),
        ("TRACE", Method::TRACE),
        ("PATCH", Method::PATCH),
    ];
    for (name, m) in cases {
        let line = format!("{} /x HTTP/1.1\r\n", name);
        let req = Request::try_from(line.as_bytes()).unwrap();
        assert_eq!(*req.method(), m);
        assert_eq!(req.path(), "/x");
    }
}

#[test]
fn unknown_or_lower_case_method_is_invalid_method() {
    for name in ["get", "FETCH", "Get", ""] {
        let line = format!("{} / HTTP/1.1\r\n", name);
        let r = Request::try_from(line.as_bytes());
        assert_eq!(r.err(), Some(ParseError::InvalidMethod), "method {:?}", name);
    }
}

#[test]
fn path_with_space_fails_as_protocol_mismatch() {
    let r = Request::try_from(&b"GET /a b HTTP/1.1\r\n"[..]);
    assert_eq!(r.err(), Some(ParseError::InvalidProtocol));
}

#[test]
fn protocol_mismatch_is_not_structural() {
    let r = Request::try_from(&b"GET / HTTP/1.0\r\n"[..]);
    assert_eq!(r.err(), Some(ParseError::InvalidProtocol));
    let r = Request::try_from(&b"FETCH / HTTP/1.0\r\n"[..]);
    assert_eq!(r.err(), Some(ParseError::InvalidProtocol));
}

#[test]
fn unterminated_request_line_is_invalid_request() {
    let r = Request::try_from(&b"GET / HTTP/1.0"[..]);
    assert_eq!(r.err(), Some(ParseError::InvalidRequest));
    let r = Request::try_from(&b"GET / HTTP/1.1"[..]);
    assert_eq!(r.err(), Some(ParseError::InvalidRequest));
}

#[test]
fn too_few_words_is_invalid_request() {
    for buf in [&b""[..], &b"GET"[..], &b"GET /\r\n"[..]] {
        assert_eq!(Request::try_from(buf).err(), Some(ParseError::InvalidRequest));
    }
}

#[test]
fn carriage_return_ends_a_word() {
    let req = Request::try_from(&b"GET\r/x\rHTTP/1.1\rrest"[..]).unwrap();
    assert_eq!(*req.method(), Method::GET);
    assert_eq!(req.path(), "/x");
}

#[test]
fn non_utf8_is_encoding_error() {
    let r = Request::try_from(&b"GET /\xff HTTP/1.1\r\n"[..]);
    assert_eq!(r.err(), Some(ParseError::InvalidEncoding));
    let r = Request::try_from(&b"\xc3"[..]);
    assert_eq!(r.err(), Some(ParseError::InvalidEncoding));
}

#[test]
fn encoding_is_checked_before_words() {
    let r = Request::try_from(&b"GET / HTTP/1.1\r\n\xfe\xfe"[..]);
    assert_eq!(r.err(), Some(ParseError::InvalidEncoding));
    let mut buf = [0u8; 1024];
    buf[..16].copy_from_slice(b"GET / HTTP/1.1\r\n");
    let req = Request::try_from(&buf[..]).unwrap();
    assert_eq!(req.path(), "/");
}

#[test]
fn non_ascii_path_is_kept_whole() {
    let line = "GET /caf\u{e9}?q=\u{1f648} HTTP/1.1\r\n";
    let req = Request::try_from(line.as_bytes()).unwrap();
    assert_eq!(req.path(), "/caf\u{e9}");
    assert_eq!(single(req.query_string().unwrap(), "q"), "\u{1f648}");
}

#[test]
fn parse_error_messages() {
    assert_eq!(ParseError::InvalidRequest.message(), "Invalid Request");
    assert_eq!(ParseError::InvalidEncoding.message(), "Invalid Enconding");
    assert_eq!(ParseError::InvalidProtocol.message(), "Invalid Protocol");
    assert_eq!(ParseError::InvalidMethod.message(), "Invalid Method");
}

#[test]
fn method_error_becomes_invalid_method() {
    let e = "get".parse::<Method>().err().unwrap();
    assert_eq!(ParseError::from(e), ParseError::InvalidMethod);
    assert_eq!(Method::from_str("PATCH"), Ok(Method::PATCH));
    assert!(Method::from_str(" GET").is_err());
}

#[test]
fn try_from_trait_forwards() {
    let buf = b"PUT /x?k=v HTTP/1.1\r\n";
    let req: Request = (&buf[..]).try_into().unwrap();
    assert_eq!(*req.method(), Method::PUT);
    assert_eq!(req.path(), "/x");
    let r: Result<Request, ParseError> = <Request as TryFrom<&[u8]>>::try_from(&b"GET / HTTP/2\r\n"[..]);
    assert_eq!(r.err(), Some(ParseError::InvalidProtocol));
}
