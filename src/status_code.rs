//! Response status codes.
use vstd::prelude::*;

verus! {

/// The status codes this server answers with.
#[derive(Debug, Clone, Copy, PartialEq, Eq, Structural)]
pub enum StatusCode {
    OK,
    BadRequest,
    NotFound,
}

/// The number of each status.
pub open spec fn code_of(s: StatusCode) -> u16 {
    match s {
        StatusCode::OK => 200,
        StatusCode::BadRequest => 400,
        StatusCode::NotFound => 404,
    }
}

/// The number of each status, written in decimal.
pub open spec fn code_text(s: StatusCode) -> Seq<char> {
    match s {
        StatusCode::OK => "200"@,
        StatusCode::BadRequest => "400"@,
        StatusCode::NotFound => "404"@,
    }
}

/// The reason phrase of each status.
pub open spec fn reason_of(s: StatusCode) -> Seq<char> {
    match s {
        StatusCode::OK => "Ok"@,
        StatusCode::BadRequest => "Bad Request"@,
        StatusCode::NotFound => "Not Found"@,
    }
}

impl StatusCode {
    /// The status's number.
    pub fn code(&self) -> (r: u16)
        ensures
            r == code_of(*self),
    {
        match self {
            StatusCode::OK => 200,
            StatusCode::BadRequest => 400,
            StatusCode::NotFound => 404,
        }
    }

    /// The status's number in decimal, as the status line writes it.
    pub fn code_str(&self) -> (r: &'static str)
        ensures
            r@ == code_text(*self),
    {
        match self {
            StatusCode::OK => "200",
            StatusCode::BadRequest => "400",
            StatusCode::NotFound => "404",
        }
    }

    /// The status's fixed reason phrase.
    pub fn reason_phrase(&self) -> (r: &'static str)
        ensures
            r@ == reason_of(*self),
    {
        match self {
            StatusCode::OK => "Ok",
            StatusCode::BadRequest => "Bad Request",
            StatusCode::NotFound => "Not Found",
        }
    }
}

} // verus!
