//! Which file of a public directory answers a request.
use vstd::prelude::*;
use vstd::string::*;
use crate::method::Method;
use crate::response::Response;
use crate::status_code::StatusCode;
use crate::text::{ascii, text_is};

verus! {

broadcast use vstd::string::group_string_axioms;

/// Serves the files under one directory.
pub struct WebsiteHandler {
    public_path: String,
}

/// The file, relative to the public directory, that a request for `path`
/// with method `m` reads; `None` when nothing is read.
pub open spec fn route_of(m: Method, path: Seq<u8>) -> Option<Seq<u8>> {
    if m != Method::GET {
        None
    } else if path == ascii("/"@) {
        Some(ascii("index.html"@))
    } else if path == ascii("/hello"@) {
        Some(ascii("hello.html"@))
    } else {
        Some(path)
    }
}

/// A named page is answered `200 OK` whether or not its file could be
/// read; any other path is `404 Not Found` when its file could not be read.
pub open spec fn answer_of(path: Seq<u8>, found: bool) -> StatusCode {
    if found || path == ascii("/"@) || path == ascii("/hello"@) {
        StatusCode::OK
    } else {
        StatusCode::NotFound
    }
}

impl WebsiteHandler {
    pub closed spec fn spec_public_path(&self) -> Seq<char> {
        self.public_path@
    }

    pub fn new(public_path: String) -> (r: WebsiteHandler)
        ensures
            r.spec_public_path() == public_path@,
    {
        WebsiteHandler { public_path }
    }

    /// The directory the files are served from.
    pub fn public_path(&self) -> (r: &str)
        ensures
            r@ == self.spec_public_path(),
    {
        self.public_path.as_str()
    }

    /// The file that answers a request for `path` with method `method`.
    pub fn route<'a>(method: &Method, path: &'a str) -> (r: Option<&'a str>)
        ensures
            r is None <==> route_of(*method, path.spec_bytes()) is None,
            r matches Some(f) ==> route_of(*method, path.spec_bytes()) == Some(f.spec_bytes()),
    {
        proof {
            reveal_strlit("/");
            reveal_strlit("/hello");
            reveal_strlit("index.html");
            reveal_strlit("hello.html");
        }
        if *method != Method::GET {
            None
        } else if text_is(path, "/") {
            assert(is_ascii("index.html"));
            assert("index.html".spec_bytes() =~= ascii("index.html"@));
            Some("index.html")
        } else if text_is(path, "/hello") {
            assert(is_ascii("hello.html"));
            assert("hello.html".spec_bytes() =~= ascii("hello.html"@));
            Some("hello.html")
        } else {
            Some(path)
        }
    }

    /// The response to a GET of `path`, given what reading its file gave.
    pub fn answer(path: &str, contents: Option<String>) -> (r: Response)
        ensures
            r.status() == answer_of(path.spec_bytes(), contents is Some),
            r.body() == (match contents {
                Some(b) => Some(b@),
                None => None::<Seq<char>>,
            }),
    {
        proof {
            reveal_strlit("/");
            reveal_strlit("/hello");
        }
        let found = contents.is_some();
        if found || text_is(path, "/") || text_is(path, "/hello") {
            Response::new(StatusCode::OK, contents)
        } else {
            Response::new(StatusCode::NotFound, contents)
        }
    }

    /// The response to a request for `path` with method `method`, given
    /// what reading the routed file gave (`None` when nothing was read).
    /// A request that routes to no file is `404 Not Found` with no body.
    pub fn respond(method: &Method, path: &str, contents: Option<String>) -> (r: Response)
        ensures
            route_of(*method, path.spec_bytes()) is None ==> r.status() == StatusCode::NotFound
                && r.body() is None,
            route_of(*method, path.spec_bytes()) is Some ==> r.status() == answer_of(
                path.spec_bytes(),
                contents is Some,
            ) && r.body() == (match contents {
                Some(b) => Some(b@),
                None => None::<Seq<char>>,
            }),
    {
        match WebsiteHandler::route(method, path) {
            None => Response::new(StatusCode::NotFound, None),
            Some(_) => WebsiteHandler::answer(path, contents),
        }
    }
}

} // verus!