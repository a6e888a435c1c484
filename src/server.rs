//! The handler capability and the server's configuration.
use vstd::prelude::*;
use crate::request::{ParseError, Request};
use crate::response::Response;
use crate::status_code::StatusCode;

verus! {

/// Answers parsed requests, and requests that could not be parsed.
pub trait Handler {
    fn handle_request(&mut self, request: &Request) -> Response;

    /// By default a buffer that is not a request gets `400 Bad Request`
    /// with no body, whatever the kind of error.
    fn handle_bad_request(&mut self, e: &ParseError) -> Response {
        bad_request_response(e)
    }
}

/// The default answer to a buffer that is not a request: `400 Bad Request`
/// with no body, for every kind of error.
pub fn bad_request_response(e: &ParseError) -> (r: Response)
    ensures
        r.status() == StatusCode::BadRequest,
        r.body() is None,
{
    Response::new(StatusCode::BadRequest, None)
}

/// A server that listens on one address.
pub struct Server {
    addr: String,
}

impl Server {
    pub closed spec fn spec_addr(&self) -> Seq<char> {
        self.addr@
    }

    pub fn new(addr: String) -> (r: Server)
        ensures
            r.spec_addr() == addr@,
    {
        Server { addr }
    }

    /// The address to listen on.
    pub fn addr(&self) -> (r: &str)
        ensures
            r@ == self.spec_addr(),
    {
        self.addr.as_str()
    }
}

} // verus!
