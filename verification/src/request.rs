//! Requests as values. The library computes what is to be sent; sending is
//! left to the caller.

use crate::errors::{DetaError, Failure};
use crate::json::{json_of, Json};
use crate::text::opt_text;
use serde_json::Value;
use vstd::prelude::*;

verus! {

/// The name of the header that carries the project key.
pub const API_KEY_HEADER: &'static str = "X-API-Key";

/// The method of a request.
#[derive(Debug, Clone, Copy, PartialEq, Eq, Structural)]
pub enum Method {
    Get,
    Put,
    Post,
    Delete,
    Patch,
}

/// The name of a method on the wire.
pub open spec fn method_name(method: Method) -> Seq<char> {
    match method {
        Method::Get => "GET"@,
        Method::Put => "PUT"@,
        Method::Post => "POST"@,
        Method::Delete => "DELETE"@,
        Method::Patch => "PATCH"@,
    }
}

impl Method {
    /// The name of this method on the wire.
    pub fn as_str(&self) -> (name: &'static str)
        ensures
            name@ == method_name(*self),
    {
        match self {
            Method::Get => "GET",
            Method::Put => "PUT",
            Method::Post => "POST",
            Method::Delete => "DELETE",
            Method::Patch => "PATCH",
        }
    }
}

/// The body of a request.
#[derive(Debug)]
pub enum Body<'a> {
    Empty,
    Json(Value),
    Bytes(&'a [u8]),
}

/// A request that is ready to be sent.
#[derive(Debug)]
pub struct Request<'a> {
    pub method: Method,
    pub url: String,
    /// The project key, sent in the header `API_KEY_HEADER`.
    pub api_key: String,
    pub content_type: Option<String>,
    pub body: Body<'a>,
}

/// What a body holds.
pub enum Payload {
    Empty,
    Json(Json),
    Bytes(Seq<u8>),
}

/// What a request holds.
pub struct Wire {
    pub method: Method,
    pub url: Seq<char>,
    pub api_key: Seq<char>,
    pub content_type: Option<Seq<char>>,
    pub body: Payload,
}

impl<'a> View for Body<'a> {
    type V = Payload;

    open spec fn view(&self) -> Payload {
        match self {
            Body::Empty => Payload::Empty,
            Body::Json(v) => Payload::Json(json_of(*v)),
            Body::Bytes(b) => Payload::Bytes(b@),
        }
    }
}

impl<'a> View for Request<'a> {
    type V = Wire;

    open spec fn view(&self) -> Wire {
        Wire {
            method: self.method,
            url: self.url@,
            api_key: self.api_key@,
            content_type: opt_text(self.content_type),
            body: self.body@,
        }
    }
}

/// What a request or its refusal holds.
pub open spec fn outcome(r: Result<Request, DetaError>) -> Result<Wire, Failure> {
    match r {
        Ok(request) => Ok(request@),
        Err(e) => Err(e@),
    }
}

} // verus!
