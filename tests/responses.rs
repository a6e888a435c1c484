use http_server::{
    bad_request_response, Handler, Method, ParseError, Request, Response, Server, StatusCode, WebsiteHandler,
};

fn bytes_of(r: &Response) -> String {
    let mut out = Vec::new();
    r.send(&mut out);
    String::from_utf8(out).unwrap()
}

#[test]
fn ok_response_with_body() {
    let r = Response::new(StatusCode::OK, Some("<h1>IT WORKS</h1>".to_string()));
    assert_eq!(bytes_of(&r), "HTTP/1.1 200 Ok\r\n\r\n<h1>IT WORKS</h1>");
}

#[test]
fn response_without_body() {
    let r = Response::new(StatusCode::BadRequest, None);
    assert_eq!(bytes_of(&r), "HTTP/1.1 400 Bad Request\r\n\r\n");
    let r = Response::new(StatusCode::NotFound, None);
    assert_eq!(bytes_of(&r), "HTTP/1.1 404 Not Found\r\n\r\n");
}

#[test]
fn send_appends_to_what_is_there() {
    let mut out = b"x".to_vec();
    Response::new(StatusCode::NotFound, Some("\u{e9}".to_string())).send(&mut out);
    assert_eq!(out, "xHTTP/1.1 404 Not Found\r\n\r\n\u{e9}".as_bytes());
}

#[test]
fn status_codes_and_phrases() {
    assert_eq!(StatusCode::OK.code(), 200);
    assert_eq!(StatusCode::BadRequest.code(), 400);
    assert_eq!(StatusCode::NotFound.code(), 404);
    assert_eq!(StatusCode::OK.code_str(), "200");
    assert_eq!(StatusCode::OK.reason_phrase(), "Ok");
    assert_eq!(StatusCode::BadRequest.reason_phrase(), "Bad Request");
    assert_eq!(StatusCode::NotFound.reason_phrase(), "Not Found");
}

struct Echo;

impl Handler for Echo {
    fn handle_request(&mut self, request: &Request) -> Response {
        Response::new(StatusCode::OK, Some(request.path().to_string()))
    }
}

#[test]
fn default_bad_request_answer() {
    let mut h = Echo;
    let r = h.handle_bad_request(&ParseError::InvalidProtocol);
    assert_eq!(bytes_of(&r), "HTTP/1.1 400 Bad Request\r\n\r\n");
    let req = Request::try_from(&b"GET /p HTTP/1.1\r\n"[..]).unwrap();
    assert_eq!(bytes_of(&h.handle_request(&req)), "HTTP/1.1 200 Ok\r\n\r\n/p");
}

#[test]
fn server_keeps_address() {
    let s = Server::new("127.0.0.1:8080".to_string());
    assert_eq!(s.addr(), "127.0.0.1:8080");
}

#[test]
fn website_routes() {
    let h = WebsiteHandler::new("/srv/public".to_string());
    assert_eq!(h.public_path(), "/srv/public");
    assert_eq!(WebsiteHandler::route(&Method::GET, "/"), Some("index.html"));
    assert_eq!(WebsiteHandler::route(&Method::GET, "/hello"), Some("hello.html"));
    assert_eq!(WebsiteHandler::route(&Method::GET, "/style.css"), Some("/style.css"));
    assert_eq!(WebsiteHandler::route(&Method::POST, "/"), None);
}

#[test]
fn website_answers() {
    let r = WebsiteHandler::answer("/", None);
    assert_eq!(bytes_of(&r), "HTTP/1.1 200 Ok\r\n\r\n");
    let r = WebsiteHandler::answer("/missing.css", None);
    assert_eq!(bytes_of(&r), "HTTP/1.1 404 Not Found\r\n\r\n");
    let r = WebsiteHandler::answer("/a.css", Some("body{}".to_string()));
    assert_eq!(bytes_of(&r), "HTTP/1.1 200 Ok\r\n\r\nbody{}");
}

#[test]
fn bad_request_for_every_kind() {
    let kinds = [
        ParseError::InvalidRequest,
        ParseError::InvalidEncoding,
        ParseError::InvalidProtocol,
        ParseError::InvalidMethod,
    ];
    let mut h = Echo;
    for e in kinds {
        assert_eq!(bytes_of(&bad_request_response(&e)), "HTTP/1.1 400 Bad Request\r\n\r\n");
        assert_eq!(bytes_of(&h.handle_bad_request(&e)), "HTTP/1.1 400 Bad Request\r\n\r\n");
    }
}

#[test]
fn website_responds_per_method_and_path() {
    let r = WebsiteHandler::respond(&Method::POST, "/", Some("x".to_string()));
    assert_eq!(bytes_of(&r), "HTTP/1.1 404 Not Found\r\n\r\n");
    let r = WebsiteHandler::respond(&Method::DELETE, "/a.css", None);
    assert_eq!(bytes_of(&r), "HTTP/1.1 404 Not Found\r\n\r\n");
    let r = WebsiteHandler::respond(&Method::GET, "/hello", None);
    assert_eq!(bytes_of(&r), "HTTP/1.1 200 Ok\r\n\r\n");
    let r = WebsiteHandler::respond(&Method::GET, "/", Some("<p>home</p>".to_string()));
    assert_eq!(bytes_of(&r), "HTTP/1.1 200 Ok\r\n\r\n<p>home</p>");
    let r = WebsiteHandler::respond(&Method::GET, "/gone.html", None);
    assert_eq!(bytes_of(&r), "HTTP/1.1 404 Not Found\r\n\r\n");
}
