//! A small HTTP/1.1 request-line parser, query-string decoder and response
//! serializer. Parsed requests borrow their text from the caller's buffer.
pub mod text;
pub mod method;
pub mod query_string;
pub mod request;
pub mod status_code;
pub mod response;
pub mod server;
pub mod website_handler;

pub use method::{Method, MethodError};
pub use query_string::{QueryString, Value};
pub use query_string::Value as QueryStringValue;
pub use request::{ParseError, Request};
pub use response::Response;
pub use server::{bad_request_response, Handler, Server};
pub use status_code::StatusCode;
pub use website_handler::WebsiteHandler;
