//! Requests to the provider and its replies, as plain data.
//!
//! The library describes each request; the caller sends it.

use vstd::prelude::*;
use crate::error::{RequestError, RequestErrorView};

verus! {

/// How a request is sent.
#[derive(Debug, Clone, Copy, PartialEq, Eq, Structural)]
pub enum Method {
    /// `GET`, with the parameters in the query.
    Get,
    /// `POST`, with the parameters as a form in the body.
    Post,
}

/// One request to the provider.
#[derive(Debug, Clone, PartialEq, Eq)]
pub struct Request {
    pub method: Method,
    pub url: String,
    /// The access token to send as bearer token, where the request carries one.
    pub bearer: Option<String>,
    /// Names and values, in the order in which they are sent.
    pub params: Vec<(String, String)>,
}

/// [`Request`] with texts as character sequences.
pub struct RequestView {
    pub method: Method,
    pub url: Seq<char>,
    pub bearer: Option<Seq<char>>,
    pub params: Seq<(Seq<char>, Seq<char>)>,
}

impl View for Request {
    type V = RequestView;

    open spec fn view(&self) -> RequestView {
        RequestView {
            method: self.method,
            url: self.url@,
            bearer: self.bearer.deep_view(),
            params: self.params.deep_view(),
        }
    }
}

impl DeepView for Request {
    type V = RequestView;

    open spec fn deep_view(&self) -> RequestView {
        self@
    }
}

/// A status that reports success.
pub open spec fn is_success(status: u16) -> bool {
    200 <= status <= 299
}

/// What came back for a request.
#[derive(Debug, Clone, PartialEq, Eq)]
pub struct Reply {
    pub status: u16,
    pub body: String,
}

impl Reply {
    /// The body of a reply that reports success. A reply with any other
    /// status is an error, whatever its body holds.
    pub fn success_body(&self) -> (r: Result<&String, RequestError>)
        ensures
            match r {
                Ok(body) => is_success(self.status) && body == &self.body,
                Err(e) => !is_success(self.status) && e@ == RequestErrorView::Status(self.status),
            },
    {
        if 200 <= self.status && self.status <= 299 {
            Ok(&self.body)
        } else {
            Err(RequestError::Status(self.status))
        }
    }
}

} // verus!
