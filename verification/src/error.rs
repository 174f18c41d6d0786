//! Error kinds and the uniform error payload.

use vstd::prelude::*;
use vstd::string::*;
use crate::codec::{json_string, quote};
use crate::http::{json, json_response, HttpResponse, StatusCode};
use crate::json::ToJson;

verus! {

/// What a storage backend reports when an operation fails.
pub trait Failure {
    /// The backend's description of what went wrong.
    spec fn detail_spec(&self) -> Seq<char>;

    fn detail(&self) -> (r: String)
        ensures
            r@ == self.detail_spec(),
    ;
}

/// The error of an operation that cannot fail: it has no values.
pub struct Never {
    #[allow(dead_code)]
    never: core::convert::Infallible,
}

impl Failure for Never {
    open spec fn detail_spec(&self) -> Seq<char> {
        Seq::empty()
    }

    fn detail(&self) -> (r: String) {
        String::new()
    }
}

/// A failure of a storage backend, with the backend's own description of it.
pub struct StorageError {
    pub detail: String,
}

impl StorageError {
    pub fn new(detail: String) -> (r: Self)
        ensures
            r.detail@ == detail@,
    {
        StorageError { detail }
    }
}

impl Failure for StorageError {
    open spec fn detail_spec(&self) -> Seq<char> {
        self.detail@
    }

    fn detail(&self) -> (r: String) {
        self.detail.clone()
    }
}

/// The JSON object that carries a message to the client.
pub open spec fn error_json(message: Seq<char>) -> Seq<char> {
    "{\"message\":"@ + json_string(message) + "}"@
}

/// The payload of every error response: a single human-readable message.
pub struct ErrorInfo<'a> {
    message: &'a str,
}

impl<'a> ErrorInfo<'a> {
    /// The message this payload carries.
    pub closed spec fn message(&self) -> Seq<char> {
        self.message@
    }

    pub fn new(message: &'a str) -> (r: Self)
        ensures
            r.message() == message@,
    {
        ErrorInfo { message }
    }

    /// The payload as JSON text: an object with the one key `message`.
    pub fn json(&self) -> (r: String)
        ensures
            r@ == error_json(self.message()),
    {
        let text = String::from_str("{\"message\":");
        let text = text.concat(quote(self.message).as_str());
        text.concat("}")
    }

    /// The payload as the body of a response.
    pub fn body(&self) -> (r: String)
        ensures
            r@ == error_json(self.message()),
    {
        self.json()
    }

    /// The response with `status` that carries this payload.
    pub fn resp(&self, status: StatusCode) -> (r: HttpResponse)
        ensures
            r@ == json_response(status, error_json(self.message())),
    {
        json(self, status)
    }
}

impl<'a> ToJson for ErrorInfo<'a> {
    open spec fn json_spec(&self) -> Seq<char> {
        error_json(self.message())
    }

    fn to_json(&self) -> (r: String) {
        self.json()
    }
}

} // verus!
