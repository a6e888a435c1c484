//! Parsing of an HTTP/1.1 request line into a request that borrows its text.
use vstd::prelude::*;
use vstd::string::*;
use vstd::utf8::*;
use crate::method::{method_of, Method, MethodError};
use crate::query_string::{decode_query, QueryString};
use crate::text::{
    after, ascii, before, find_either, first_index, first_of, is_first_of, lemma_first_of_facts,
    lemma_first_of_unique, split_around, text_is,
};

verus! {

broadcast use vstd::string::group_string_axioms;

/// The byte ` `, which ends a word of the request line.
pub const SPACE: u8 = 32;

/// The byte `\r`, which also ends a word of the request line.
pub const CARRIAGE_RETURN: u8 = 13;

/// The byte `?`, which starts the query string of a path.
pub const QUESTION_MARK: u8 = 63;

/// Why a buffer is not a request.
#[derive(Debug, Clone, Copy, PartialEq, Eq, Structural)]
pub enum ParseError {
    InvalidRequest,
    InvalidEncoding,
    InvalidProtocol,
    InvalidMethod,
}

impl ParseError {
    /// A fixed description of each kind.
    pub fn message(&self) -> (r: &'static str)
        ensures
            *self == ParseError::InvalidRequest ==> r@ == "Invalid Request"@,
            *self == ParseError::InvalidEncoding ==> r@ == "Invalid Enconding"@,
            *self == ParseError::InvalidProtocol ==> r@ == "Invalid Protocol"@,
            *self == ParseError::InvalidMethod ==> r@ == "Invalid Method"@,
    {
        match self {
            ParseError::InvalidRequest => "Invalid Request",
            ParseError::InvalidEncoding => "Invalid Enconding",
            ParseError::InvalidProtocol => "Invalid Protocol",
            ParseError::InvalidMethod => "Invalid Method",
        }
    }
}

impl From<MethodError> for ParseError {
    fn from(e: MethodError) -> (r: ParseError)
        ensures
            r == ParseError::InvalidMethod,
    {
        ParseError::InvalidMethod
    }
}

impl vstd::std_specs::convert::FromSpecImpl<MethodError> for ParseError {
    open spec fn obeys_from_spec() -> bool {
        true
    }

    open spec fn from_spec(e: MethodError) -> ParseError {
        ParseError::InvalidMethod
    }
}

/// The first word of `s` and what follows the space or carriage return
/// that ends it; `None` when no such separator is in `s`.
pub open spec fn next_word(s: Seq<u8>) -> Option<(Seq<u8>, Seq<u8>)> {
    match first_of(s, SPACE, CARRIAGE_RETURN) {
        Some(i) => Some((before(s, i), after(s, i))),
        None => None,
    }
}

/// The path and, when the path holds a `?`, what follows the first one.
pub open spec fn split_query(p: Seq<u8>) -> (Seq<u8>, Option<Seq<u8>>) {
    match first_index(p, QUESTION_MARK) {
        Some(i) => (before(p, i), Some(after(p, i))),
        None => (p, None),
    }
}

/// What a request is made of: its method, its path, and its query string's
/// mapping when it has one.
pub struct RequestParts {
    pub method: Method,
    pub path: Seq<u8>,
    pub query: Option<Map<Seq<u8>, Seq<Seq<u8>>>>,
}

/// The request that the buffer `b` holds, or why it holds none.
pub open spec fn parse_request(b: Seq<u8>) -> Result<RequestParts, ParseError> {
    if !valid_utf8(b) {
        Err(ParseError::InvalidEncoding)
    } else {
        match next_word(b) {
            None => Err(ParseError::InvalidRequest),
            Some((m, r1)) => match next_word(r1) {
                None => Err(ParseError::InvalidRequest),
                Some((p, r2)) => match next_word(r2) {
                    None => Err(ParseError::InvalidRequest),
                    Some((proto, _)) => if proto != ascii("HTTP/1.1"@) {
                        Err(ParseError::InvalidProtocol)
                    } else {
                        match method_of(m) {
                            None => Err(ParseError::InvalidMethod),
                            Some(method) => {
                                let (path, q) = split_query(p);
                                Ok(
                                    RequestParts {
                                        method,
                                        path,
                                        query: match q {
                                            Some(qb) => Some(decode_query(qb)),
                                            None => None,
                                        },
                                    },
                                )
                            },
                        }
                    },
                },
            },
        }
    }
}

/// Relies on std::str::from_utf8: it succeeds exactly on valid UTF-8, and
/// the text it returns is the given bytes.
#[verifier::external_body]
fn utf8_text(b: &[u8]) -> (r: Option<&str>)
    ensures
        r is Some <==> valid_utf8(b@),
        r matches Some(s) ==> s.spec_bytes() == b@,
{
    match std::str::from_utf8(b) {
        Ok(s) => Some(s),
        Err(_) => None,
    }
}

/// The first word of `request` and the rest after its separator, both
/// borrowed from `request`.
pub fn get_next_word(request: &str) -> (r: Option<(&str, &str)>)
    ensures
        r is None <==> next_word(request.spec_bytes()) is None,
        r matches Some((w, rest)) ==> next_word(request.spec_bytes()) == Some(
            (w.spec_bytes(), rest.spec_bytes()),
        ),
{
    match find_either(request.as_bytes(), SPACE, CARRIAGE_RETURN) {
        Some(i) => Some(split_around(request, i)),
        None => None,
    }
}

/// A parsed request line. Its path and query string borrow from the
/// buffer it was parsed from.
#[derive(Debug)]
pub struct Request<'buf> {
    path: &'buf str,
    query_string: Option<QueryString<'buf>>,
    method: Method,
}

impl<'buf> Request<'buf> {
    /// The request's parts, seen as values.
    pub closed spec fn view(&self) -> RequestParts {
        RequestParts {
            method: self.method,
            path: self.path.spec_bytes(),
            query: match self.query_string {
                Some(q) => Some(q@),
                None => None,
            },
        }
    }

    /// The path, without the query string.
    pub fn path(&self) -> (r: &str)
        ensures
            r.spec_bytes() == self@.path,
    {
        self.path
    }

    pub fn method(&self) -> (r: &Method)
        ensures
            *r == self@.method,
    {
        &self.method
    }

    pub fn query_string(&self) -> (r: Option<&QueryString<'buf>>)
        ensures
            r is Some <==> self@.query is Some,
            r matches Some(q) ==> self@.query == Some(q@),
    {
        match &self.query_string {
            Some(q) => Some(q),
            None => None,
        }
    }

    /// Parses the request line at the start of `buf`. What follows the
    /// protocol word is not read.
    pub fn try_from(buf: &'buf [u8]) -> (r: Result<Request<'buf>, ParseError>)
        ensures
            r matches Err(e) ==> parse_request(buf@) == Err::<RequestParts, ParseError>(e),
            r matches Ok(req) ==> parse_request(buf@) == Ok::<
                RequestParts,
                ParseError,
            >(req@),
    {
        let text = match utf8_text(buf) {
            Some(t) => t,
            None => {
                return Err(ParseError::InvalidEncoding);
            },
        };
        let (method, rest) = match get_next_word(text) {
            Some(w) => w,
            None => {
                return Err(ParseError::InvalidRequest);
            },
        };
        let (path, rest) = match get_next_word(rest) {
            Some(w) => w,
            None => {
                return Err(ParseError::InvalidRequest);
            },
        };
        let (protocol, _) = match get_next_word(rest) {
            Some(w) => w,
            None => {
                return Err(ParseError::InvalidRequest);
            },
        };
        proof {
            reveal_strlit("HTTP/1.1");
        }
        if !text_is(protocol, "HTTP/1.1") {
            return Err(ParseError::InvalidProtocol);
        }
        let method = match Method::from_str(method) {
            Ok(m) => m,
            Err(e) => {
                return Err(ParseError::from(e));
            },
        };
        match find_either(path.as_bytes(), QUESTION_MARK, QUESTION_MARK) {
            Some(i) => {
                let (p, q) = split_around(path, i);
                let query = QueryString::from(q);
                Ok(Request { path: p, query_string: Some(query), method })
            },
            None => Ok(Request { path, query_string: None, method }),
        }
    }
}

impl<'buf> TryFrom<&'buf [u8]> for Request<'buf> {
    type Error = ParseError;

    fn try_from(buf: &'buf [u8]) -> Result<Request<'buf>, ParseError> {
        Request::try_from(buf)
    }
}

/// Through the trait no result is promised; the inherent `Request::try_from`
/// states it exactly.
impl<'buf> vstd::std_specs::convert::TryFromSpecImpl<&'buf [u8]> for Request<'buf> {
    open spec fn obeys_try_from_spec() -> bool {
        false
    }

    open spec fn try_from_spec(buf: &'buf [u8]) -> Result<Request<'buf>, ParseError> {
        arbitrary()
    }
}

/// `s` holds no byte that ends a word of the request line.
pub open spec fn no_separator(s: Seq<u8>) -> bool {
    forall|i: int| 0 <= i < s.len() ==> s[i] != SPACE && s[i] != CARRIAGE_RETURN
}

/// What stands before the first space of `t`, or all of `t`.
pub open spec fn up_to_space(t: Seq<u8>) -> Seq<u8> {
    match first_index(t, SPACE) {
        Some(j) => before(t, j),
        None => t,
    }
}

/// The request line `m SP p SP HTTP/1.1` followed by `tail`.
pub open spec fn request_line(m: Seq<u8>, p: Seq<u8>, tail: Seq<u8>) -> Seq<u8> {
    m + seq![SPACE] + p + seq![SPACE] + ascii("HTTP/1.1"@) + tail
}

proof fn lemma_next_word_of(a: Seq<u8>, x: u8, c: Seq<u8>)
    requires
        no_separator(a),
        x == SPACE || x == CARRIAGE_RETURN,
    ensures
        next_word(a + seq![x] + c) == Some((a, c)),
{
    let s = a + seq![x] + c;
    let n = a.len() as int;
    assert(is_first_of(s, n, SPACE, CARRIAGE_RETURN));
    lemma_first_of_unique(s, n, SPACE, CARRIAGE_RETURN);
    assert(before(s, n) =~= a);
    assert(after(s, n) =~= c);
}

/// A buffer that is not valid UTF-8 is refused as badly encoded, whatever
/// its words would have been.
pub proof fn lemma_encoding_checked_first(b: Seq<u8>)
    requires
        !valid_utf8(b),
    ensures
        parse_request(b) == Err::<RequestParts, ParseError>(ParseError::InvalidEncoding),
{
}

/// A request line `METHOD PATH HTTP/1.1`, its protocol word ended by a space
/// or carriage return, with METHOD and PATH free of those, parses exactly
/// when METHOD is one of the nine methods, and then carries that method.
pub proof fn lemma_request_line(m: Seq<u8>, p: Seq<u8>, tail: Seq<u8>)
    requires
        valid_utf8(request_line(m, p, tail)),
        no_separator(m),
        no_separator(p),
        tail.len() > 0,
        tail[0] == SPACE || tail[0] == CARRIAGE_RETURN,
    ensures
        parse_request(request_line(m, p, tail)) is Ok <==> method_of(m) is Some,
        method_of(m) is Some ==> parse_request(request_line(m, p, tail))->Ok_0.method
            == method_of(m)->Some_0,
{
    let h = ascii("HTTP/1.1"@);
    reveal_strlit("HTTP/1.1");
    assert(no_separator(h));
    let r1 = p + seq![SPACE] + h + tail;
    assert(request_line(m, p, tail) =~= m + seq![SPACE] + r1);
    lemma_next_word_of(m, SPACE, r1);
    let t1 = tail.subrange(1, tail.len() as int);
    let r2 = h + tail;
    assert(r1 =~= p + seq![SPACE] + r2);
    lemma_next_word_of(p, SPACE, r2);
    assert(r2 =~= h + seq![tail[0]] + t1);
    lemma_next_word_of(h, tail[0], t1);
}

/// When the request line has three words, each ended by a space or carriage
/// return, and the third is not `HTTP/1.1`, parsing fails as a protocol
/// mismatch, never as a malformed request, whatever the method.
pub proof fn lemma_protocol_mismatch(
    m: Seq<u8>,
    p: Seq<u8>,
    proto: Seq<u8>,
    x: u8,
    tail: Seq<u8>,
)
    requires
        valid_utf8(m + seq![SPACE] + p + seq![SPACE] + proto + seq![x] + tail),
        no_separator(m),
        no_separator(p),
        no_separator(proto),
        x == SPACE || x == CARRIAGE_RETURN,
        proto != ascii("HTTP/1.1"@),
    ensures
        parse_request(m + seq![SPACE] + p + seq![SPACE] + proto + seq![x] + tail) == Err::<
            RequestParts,
            ParseError,
        >(ParseError::InvalidProtocol),
{
    let r2 = proto + seq![x] + tail;
    let r1 = p + seq![SPACE] + r2;
    assert(m + seq![SPACE] + p + seq![SPACE] + proto + seq![x] + tail =~= m + seq![SPACE] + r1);
    lemma_next_word_of(m, SPACE, r1);
    lemma_next_word_of(p, SPACE, r2);
    lemma_next_word_of(proto, x, tail);
}

/// A request line `METHOD PATH HTTP/1.1` whose PATH holds a space (and no
/// carriage return) fails as a protocol mismatch, unless the word after
/// that space is itself `HTTP/1.1`.
pub proof fn lemma_path_with_space(m: Seq<u8>, p: Seq<u8>, tail: Seq<u8>, k: int)
    requires
        valid_utf8(request_line(m, p, tail)),
        no_separator(m),
        forall|i: int| 0 <= i < p.len() ==> p[i] != CARRIAGE_RETURN,
        first_index(p, SPACE) == Some(k),
        up_to_space(after(p, k)) != ascii("HTTP/1.1"@),
    ensures
        parse_request(request_line(m, p, tail)) == Err::<RequestParts, ParseError>(
            ParseError::InvalidProtocol,
        ),
{
    let h = ascii("HTTP/1.1"@);
    reveal_strlit("HTTP/1.1");
    assert(no_separator(h));
    let r1 = p + seq![SPACE] + h + tail;
    assert(request_line(m, p, tail) =~= m + seq![SPACE] + r1);
    lemma_next_word_of(m, SPACE, r1);
    lemma_first_of_facts(p, SPACE, SPACE);
    let pre = before(p, k);
    let t = after(p, k);
    assert(no_separator(pre));
    assert(p =~= pre + seq![SPACE] + t);
    let r2 = t + seq![SPACE] + h + tail;
    assert(r1 =~= pre + seq![SPACE] + r2);
    lemma_next_word_of(pre, SPACE, r2);
    lemma_first_of_facts(t, SPACE, SPACE);
    assert forall|i: int| 0 <= i < t.len() implies t[i] != CARRIAGE_RETURN by {
        assert(t[i] == p[k + 1 + i]);
    }
    match first_index(t, SPACE) {
        Some(q) => {
            let w = before(t, q);
            assert(no_separator(w));
            let r3 = after(t, q) + seq![SPACE] + h + tail;
            assert(r2 =~= w + seq![SPACE] + r3);
            lemma_next_word_of(w, SPACE, r3);
        },
        None => {
            assert(no_separator(t));
            assert(r2 =~= t + seq![SPACE] + (h + tail));
            lemma_next_word_of(t, SPACE, h + tail);
        },
    }
}

/// The path of a parsed request never holds `?`: when the request line
/// carried a query string, it was cut off there.
pub proof fn lemma_path_has_no_question_mark(b: Seq<u8>)
    requires
        parse_request(b) is Ok,
    ensures
        forall|i: int|
            0 <= i < parse_request(b)->Ok_0.path.len() ==> parse_request(b)->Ok_0.path[i]
                != QUESTION_MARK,
{
    let r1 = next_word(b)->Some_0.1;
    let p = next_word(r1)->Some_0.0;
    lemma_first_of_facts(p, QUESTION_MARK, QUESTION_MARK);
}

} // verus!
