//! The request record: what the host hands to the compiled module.

use crate::headers::{distinct_names, pairs_to_map, Headers};
use vstd::prelude::*;

verus! {

/// What a request holds, as the contracts see it.
pub struct RequestView {
    pub uri: Seq<char>,
    pub method: Seq<char>,
    pub body: Option<Seq<char>>,
    pub headers: Map<Seq<char>, Seq<char>>,
}

impl RequestView {
    /// The request as it is right after construction: no body, no headers.
    pub open spec fn initial(uri: Seq<char>, method: Seq<char>) -> RequestView {
        RequestView { uri, method, body: None, headers: Map::empty() }
    }

    /// The same request with another URI.
    pub open spec fn with_uri(self, uri: Seq<char>) -> RequestView {
        RequestView { uri, ..self }
    }

    /// The same request with another method.
    pub open spec fn with_method(self, method: Seq<char>) -> RequestView {
        RequestView { method, ..self }
    }

    /// The same request with `body` as its body.
    pub open spec fn with_body(self, body: Seq<char>) -> RequestView {
        RequestView { body: Some(body), ..self }
    }

    /// The same request with `value` under the header `name`.
    pub open spec fn with_header(self, name: Seq<char>, value: Seq<char>) -> RequestView {
        RequestView { headers: self.headers.insert(name, value), ..self }
    }
}

/// A request that originates from the host.
///
/// The strings are taken as they come: the URI is not parsed and the method
/// is not held against any list of known methods.
pub struct JsRequest {
    pub uri: String,
    pub method: String,
    pub body: Option<String>,
    pub headers: Headers,
}

impl View for JsRequest {
    type V = RequestView;

    open spec fn view(&self) -> RequestView {
        RequestView {
            uri: self.uri@,
            method: self.method@,
            body: self.body.deep_view(),
            headers: self.headers@,
        }
    }
}

impl JsRequest {
    /// A request for `uri` with `method`, without a body and without headers.
    pub fn new(uri: String, method: String) -> (request: JsRequest)
        ensures
            request@ == RequestView::initial(uri@, method@),
            request@.body is None,
            request@.headers == Map::<Seq<char>, Seq<char>>::empty(),
    {
        JsRequest { uri, method, body: None, headers: Headers::new() }
    }

    /// A copy of the URI.
    pub fn uri(&self) -> (uri: String)
        ensures
            uri@ == self@.uri,
    {
        self.uri.clone()
    }

    /// A copy of the method.
    pub fn method(&self) -> (method: String)
        ensures
            method@ == self@.method,
    {
        self.method.clone()
    }

    /// A copy of the body.
    ///
    /// The request must have a body. A request has none until `set_body` was
    /// called on it or its `body` field was filled; callers that cannot know
    /// test the field first.
    pub fn body(&self) -> (body: String)
        requires
            self@.body is Some,
        ensures
            self@.body == Some(body@),
    {
        self.body.as_ref().unwrap().clone()
    }

    /// A copy of every header, one name/value pair for each name.
    pub fn headers(&self) -> (pairs: Vec<(String, String)>)
        ensures
            distinct_names(pairs.deep_view()),
            pairs_to_map(pairs.deep_view()) == self@.headers,
            pairs.len() == self@.headers.len(),
    {
        self.headers.to_vec()
    }

    /// Puts `value` under the header `key`, replacing the value that `key`
    /// had. Nothing else changes.
    pub fn headers_append(&mut self, key: String, value: String)
        ensures
            final(self)@ == old(self)@.with_header(key@, value@),
    {
        let _ = self.headers.insert(key, value);
    }

    /// Replaces the URI. Nothing else changes.
    pub fn set_uri(&mut self, uri: String)
        ensures
            final(self)@ == old(self)@.with_uri(uri@),
    {
        self.uri = uri;
    }

    /// Replaces the method. Nothing else changes.
    pub fn set_method(&mut self, method: String)
        ensures
            final(self)@ == old(self)@.with_method(method@),
    {
        self.method = method;
    }

    /// Gives the request `body` as its body, whether or not it had one.
    /// Nothing else changes.
    pub fn set_body(&mut self, body: String)
        ensures
            final(self)@ == old(self)@.with_body(body@),
    {
        self.body = Some(body);
    }
}

/// A request reads back the URI and the method that it was constructed with.
pub proof fn lemma_new_then_read(uri: String, method: String)
    ensures
        RequestView::initial(uri@, method@).uri == uri@,
        RequestView::initial(uri@, method@).method == method@,
{
}

/// After a header was appended, the headers hold its value under its key.
pub proof fn lemma_append_then_lookup(request: JsRequest, key: String, value: String)
    ensures
        request@.with_header(key@, value@).headers.contains_key(key@),
        request@.with_header(key@, value@).headers[key@] == value@,
{
}

/// Appending twice under one key leaves what appending the second value
/// alone would have left: the later value wins, and the second append adds
/// no header.
pub proof fn lemma_append_twice(request: JsRequest, key: String, first: String, second: String)
    ensures
        request@.with_header(key@, first@).with_header(key@, second@) == request@.with_header(
            key@,
            second@,
        ),
        request@.with_header(key@, first@).with_header(key@, second@).headers[key@] == second@,
        request@.with_header(key@, first@).with_header(key@, second@).headers.len()
            == request@.with_header(key@, first@).headers.len(),
{
    request.headers.lemma_finite();
    let once = request@.with_header(key@, first@);
    let twice = once.with_header(key@, second@);
    assert(twice.headers =~= request@.headers.insert(key@, second@));
    assert(twice.headers.dom() =~= once.headers.dom());
}

/// After the body was set, the request has that body.
pub proof fn lemma_set_body_then_read(request: JsRequest, body: String)
    ensures
        request@.with_body(body@).body == Some(body@),
{
}

} // verus!
