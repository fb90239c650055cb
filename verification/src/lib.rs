//! Request and response records for exchanging HTTP-shaped messages between a
//! compiled module and the host that embeds it.
//!
//! Both records are plain value containers: a few strings, an optional body
//! and a mapping from header names to header values. Nothing is validated and
//! nothing is sent anywhere; the contracts say exactly which field each
//! operation reads or replaces.

pub mod headers;
pub mod request;
pub mod response;

pub use headers::Headers;
pub use request::JsRequest;
pub use response::JsResponse;
