//! Requests and responses as plain values, independent of any transport.

use vstd::prelude::*;
use vstd::string::*;
use crate::json::ToJson;
use crate::text::{pair_views, same_text};

verus! {

/// The status codes that the service answers with.
#[derive(Clone, Copy, Debug, PartialEq, Eq, Structural)]
pub enum StatusCode {
    Success,
    NoContent,
    BadRequest,
    NotFound,
    MethodNotAllowed,
    InternalServerError,
}

impl StatusCode {
    /// The number of this status on the wire.
    pub open spec fn code_spec(self) -> u16 {
        match self {
            StatusCode::Success => 200,
            StatusCode::NoContent => 204,
            StatusCode::BadRequest => 400,
            StatusCode::NotFound => 404,
            StatusCode::MethodNotAllowed => 405,
            StatusCode::InternalServerError => 500,
        }
    }

    #[verifier::when_used_as_spec(code_spec)]
    pub fn code(self) -> (r: u16)
        ensures
            r == self.code_spec(),
    {
        match self {
            StatusCode::Success => 200,
            StatusCode::NoContent => 204,
            StatusCode::BadRequest => 400,
            StatusCode::NotFound => 404,
            StatusCode::MethodNotAllowed => 405,
            StatusCode::InternalServerError => 500,
        }
    }
}

/// The method of a request. `Extension` stands for every method that has no
/// variant of its own.
#[derive(Clone, Copy, Debug, PartialEq, Eq, Structural)]
pub enum Method {
    Get,
    Head,
    Post,
    Put,
    Delete,
    Connect,
    Options,
    Trace,
    Patch,
    Extension,
}

impl Method {
    /// The method that `name` names. Names are case-sensitive.
    pub open spec fn named(name: Seq<char>) -> Method {
        if name == "GET"@ {
            Method::Get
        } else if name == "HEAD"@ {
            Method::Head
        } else if name == "POST"@ {
            Method::Post
        } else if name == "PUT"@ {
            Method::Put
        } else if name == "DELETE"@ {
            Method::Delete
        } else if name == "CONNECT"@ {
            Method::Connect
        } else if name == "OPTIONS"@ {
            Method::Options
        } else if name == "TRACE"@ {
            Method::Trace
        } else if name == "PATCH"@ {
            Method::Patch
        } else {
            Method::Extension
        }
    }

    pub fn from_name(name: &str) -> (r: Method)
        ensures
            r == Method::named(name@),
    {
        if same_text(name, "GET") {
            Method::Get
        } else if same_text(name, "HEAD") {
            Method::Head
        } else if same_text(name, "POST") {
            Method::Post
        } else if same_text(name, "PUT") {
            Method::Put
        } else if same_text(name, "DELETE") {
            Method::Delete
        } else if same_text(name, "CONNECT") {
            Method::Connect
        } else if same_text(name, "OPTIONS") {
            Method::Options
        } else if same_text(name, "TRACE") {
            Method::Trace
        } else if same_text(name, "PATCH") {
            Method::Patch
        } else {
            Method::Extension
        }
    }
}

/// A response: status, headers in the order they were set, and body text.
#[derive(Debug)]
pub struct HttpResponse {
    pub status: StatusCode,
    pub headers: Vec<(String, String)>,
    pub body: String,
}

/// A response as a mathematical value.
pub ghost struct ResponseView {
    pub status: StatusCode,
    pub headers: Seq<(Seq<char>, Seq<char>)>,
    pub body: Seq<char>,
}

impl View for HttpResponse {
    type V = ResponseView;

    open spec fn view(&self) -> ResponseView {
        ResponseView {
            status: self.status,
            headers: pair_views(self.headers@),
            body: self.body@,
        }
    }
}

/// The header that marks a body as JSON.
pub open spec fn json_header() -> (Seq<char>, Seq<char>) {
    ("Content-Type"@, "application/json"@)
}

/// The response with `status` and the JSON text `body`.
pub open spec fn json_response(status: StatusCode, body: Seq<char>) -> ResponseView {
    ResponseView { status, headers: seq![json_header()], body }
}

/// The response that reports success and carries nothing.
pub open spec fn empty_response_view() -> ResponseView {
    ResponseView { status: StatusCode::NoContent, headers: Seq::empty(), body: Seq::empty() }
}

/// A response with `status`, marked as JSON, whose body is still empty.
pub fn json_builder(status: StatusCode) -> (r: HttpResponse)
    ensures
        r@ == json_response(status, Seq::empty()),
{
    let mut headers: Vec<(String, String)> = Vec::new();
    headers.push((String::from_str("Content-Type"), String::from_str("application/json")));
    let r = HttpResponse { status, headers, body: String::new() };
    assert(r@.headers =~= seq![json_header()]);
    r
}

/// The response with `status` whose body is the JSON text of `value`.
pub fn json<T: ToJson>(value: &T, status: StatusCode) -> (r: HttpResponse)
    ensures
        r@ == json_response(status, value.json_spec()),
{
    let mut r = json_builder(status);
    r.body = value.to_json();
    r
}

/// The response with status 200 whose body is the JSON text of `value`.
pub fn json_ok<T: ToJson>(value: &T) -> (r: HttpResponse)
    ensures
        r@ == json_response(StatusCode::Success, value.json_spec()),
{
    json(value, StatusCode::Success)
}

/// The response with status 204: no header, no body.
pub fn empty_response() -> (r: HttpResponse)
    ensures
        r@ == empty_response_view(),
{
    let r = HttpResponse { status: StatusCode::NoContent, headers: Vec::new(), body: String::new() };
    assert(r@.headers =~= Seq::empty());
    r
}

} // verus!
