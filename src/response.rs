//! Responses and their bytes on the wire.
use vstd::prelude::*;
use vstd::string::*;
use vstd::utf8::*;
use crate::status_code::{code_text, reason_of, StatusCode};
use crate::text::{append_bytes, ascii, literal_bytes};

verus! {

broadcast use vstd::string::group_string_axioms;

/// A status and an optional body.
#[derive(Debug)]
pub struct Response {
    status_code: StatusCode,
    body: Option<String>,
}

/// The bytes that a response with status `s` and body text `body` is sent
/// as: `HTTP/1.1 <code> <reason>\r\n\r\n<body>`, with no headers.
pub open spec fn wire_bytes(s: StatusCode, body: Seq<char>) -> Seq<u8> {
    ascii("HTTP/1.1 "@) + ascii(code_text(s)) + ascii(" "@) + ascii(reason_of(s)) + ascii(
        "\r\n\r\n"@,
    ) + encode_utf8(body)
}

impl Response {
    pub closed spec fn status(&self) -> StatusCode {
        self.status_code
    }

    /// The body's text, when there is one.
    pub closed spec fn body(&self) -> Option<Seq<char>> {
        match self.body {
            Some(b) => Some(b@),
            None => None,
        }
    }

    /// The body's text, or the empty text when there is none.
    pub open spec fn body_text(&self) -> Seq<char> {
        match self.body() {
            Some(b) => b,
            None => Seq::empty(),
        }
    }

    pub fn new(status_code: StatusCode, body: Option<String>) -> (r: Response)
        ensures
            r.status() == status_code,
            r.body() == (match body {
                Some(b) => Some(b@),
                None => None::<Seq<char>>,
            }),
    {
        Response { status_code, body }
    }

    /// Appends the response's bytes to `out`, which the caller then writes
    /// to the connection.
    pub fn send(&self, out: &mut Vec<u8>)
        ensures
            final(out)@ == old(out)@ + wire_bytes(self.status(), self.body_text()),
    {
        proof {
            reveal_strlit("HTTP/1.1 ");
            reveal_strlit(" ");
            reveal_strlit("\r\n\r\n");
            reveal_strlit("200");
            reveal_strlit("400");
            reveal_strlit("404");
            reveal_strlit("Ok");
            reveal_strlit("Bad Request");
            reveal_strlit("Not Found");
            reveal_strlit("");
        }
        let ghost start = out@;
        append_bytes(out, literal_bytes("HTTP/1.1 "));
        append_bytes(out, literal_bytes(self.status_code.code_str()));
        append_bytes(out, literal_bytes(" "));
        append_bytes(out, literal_bytes(self.status_code.reason_phrase()));
        append_bytes(out, literal_bytes("\r\n\r\n"));
        let body: &str = match &self.body {
            Some(b) => b.as_str(),
            None => "",
        };
        append_bytes(out, body.as_bytes());
        proof {
            let s = self.status_code;
            assert(out@ =~= start + wire_bytes(s, self.body_text()));
        }
    }
}

} // verus!
