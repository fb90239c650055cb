//! The response record: what the compiled module hands back to the host.

use crate::headers::{distinct_names, pairs_to_map, Headers};
use vstd::prelude::*;

verus! {

/// What a response holds, as the contracts see it.
pub struct ResponseView {
    pub status_code: Seq<char>,
    pub headers: Map<Seq<char>, Seq<char>>,
    pub body: Option<Seq<char>>,
}

impl ResponseView {
    /// The response as it is right after construction: an empty status code,
    /// no headers, no body.
    pub open spec fn initial() -> ResponseView {
        ResponseView { status_code: Seq::empty(), headers: Map::empty(), body: None }
    }

    /// The same response with another status code.
    pub open spec fn with_status_code(self, status_code: Seq<char>) -> ResponseView {
        ResponseView { status_code, ..self }
    }

    /// The same response with `body` as its body.
    pub open spec fn with_body(self, body: Seq<char>) -> ResponseView {
        ResponseView { body: Some(body), ..self }
    }
}

/// A response that originates from the compiled module.
///
/// The status code is a string like any other: it is not required to be a
/// number.
pub struct JsResponse {
    pub status_code: String,
    pub headers: Headers,
    pub body: Option<String>,
}

impl View for JsResponse {
    type V = ResponseView;

    open spec fn view(&self) -> ResponseView {
        ResponseView {
            status_code: self.status_code@,
            headers: self.headers@,
            body: self.body.deep_view(),
        }
    }
}

impl JsResponse {
    /// A response with an empty status code, without headers and without a
    /// body.
    pub fn new() -> (response: JsResponse)
        ensures
            response@ == ResponseView::initial(),
            response@.status_code == Seq::<char>::empty(),
            response@.body is None,
            response@.headers == Map::<Seq<char>, Seq<char>>::empty(),
    {
        JsResponse { status_code: String::new(), headers: Headers::new(), body: None }
    }

    /// A copy of the status code.
    pub fn status_code(&self) -> (status_code: String)
        ensures
            status_code@ == self@.status_code,
    {
        self.status_code.clone()
    }

    /// A copy of the body, or `None` where the response has no body.
    pub fn body(&self) -> (body: Option<String>)
        ensures
            body.deep_view() == self@.body,
    {
        match &self.body {
            Some(body) => Some(body.clone()),
            None => None,
        }
    }

    /// A copy of every header, one name/value pair for each name.
    pub fn headers(&self) -> (pairs: Vec<(String, String)>)
        ensures
            distinct_names(pairs.deep_view()),
            pairs_to_map(pairs.deep_view()) == self@.headers,
            pairs.len() == self@.headers.len(),
    {
        self.headers.to_vec()
    }

    /// Replaces the status code. Nothing else changes.
    pub fn set_status_code(&mut self, status_code: String)
        ensures
            final(self)@ == old(self)@.with_status_code(status_code@),
    {
        self.status_code = status_code;
    }

    /// Gives the response `body` as its body, whether or not it had one.
    /// Nothing else changes.
    pub fn set_body(&mut self, body: String)
        ensures
            final(self)@ == old(self)@.with_body(body@),
    {
        self.body = Some(body);
    }
}

/// After the body was set, the response has that body.
pub proof fn lemma_set_body_then_read(response: JsResponse, body: String)
    ensures
        response@.with_body(body@).body == Some(body@),
{
}

} // verus!
