//! HTTP request methods.
use vstd::prelude::*;
use vstd::string::*;
use crate::text::{ascii, text_is};

verus! {

broadcast use vstd::string::group_string_axioms;

/// The request methods of HTTP/1.1.
#[derive(Debug, Clone, Copy, PartialEq, Eq, Structural)]
pub enum Method {
    GET,
    DELETE,
    POST,
    PUT,
    HEAD,
    CONNECT,
    OPTIONS,
    TRACE,
    PATCH,
}

/// A token that names no known method.
#[derive(Debug, Clone, Copy, PartialEq, Eq, Structural)]
pub struct MethodError;

/// The method whose name is spelled by the bytes `t`, exactly and case-sensitively.
pub open spec fn method_of(t: Seq<u8>) -> Option<Method> {
    if t == ascii("GET"@) {
        Some(Method::GET)
    } else if t == ascii("DELETE"@) {
        Some(Method::DELETE)
    } else if t == ascii("POST"@) {
        Some(Method::POST)
    } else if t == ascii("PUT"@) {
        Some(Method::PUT)
    } else if t == ascii("HEAD"@) {
        Some(Method::HEAD)
    } else if t == ascii("CONNECT"@) {
        Some(Method::CONNECT)
    } else if t == ascii("OPTIONS"@) {
        Some(Method::OPTIONS)
    } else if t == ascii("TRACE"@) {
        Some(Method::TRACE)
    } else if t == ascii("PATCH"@) {
        Some(Method::PATCH)
    } else {
        None
    }
}

impl Method {
    /// Reads a method name; anything but one of the nine names fails.
    pub fn from_str(s: &str) -> (r: Result<Method, MethodError>)
        ensures
            r matches Ok(m) ==> method_of(s.spec_bytes()) == Some(m),
            r is Err ==> method_of(s.spec_bytes()) is None,
    {
        proof {
            reveal_strlit("GET");
            reveal_strlit("DELETE");
            reveal_strlit("POST");
            reveal_strlit("PUT");
            reveal_strlit("HEAD");
            reveal_strlit("CONNECT");
            reveal_strlit("OPTIONS");
            reveal_strlit("TRACE");
            reveal_strlit("PATCH");
        }
        if text_is(s, "GET") {
            Ok(Method::GET)
        } else if text_is(s, "DELETE") {
            Ok(Method::DELETE)
        } else if text_is(s, "POST") {
            Ok(Method::POST)
        } else if text_is(s, "PUT") {
            Ok(Method::PUT)
        } else if text_is(s, "HEAD") {
            Ok(Method::HEAD)
        } else if text_is(s, "CONNECT") {
            Ok(Method::CONNECT)
        } else if text_is(s, "OPTIONS") {
            Ok(Method::OPTIONS)
        } else if text_is(s, "TRACE") {
            Ok(Method::TRACE)
        } else if text_is(s, "PATCH") {
            Ok(Method::PATCH)
        } else {
            Err(MethodError)
        }
    }
}

impl std::str::FromStr for Method {
    type Err = MethodError;

    fn from_str(s: &str) -> Result<Method, MethodError> {
        Method::from_str(s)
    }
}

} // verus!
