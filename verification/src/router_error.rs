//! The errors of the router and the messages that report them.

use crate::text::{cat, cat3, decimal, decimal_of};
use vstd::prelude::*;
use vstd::string::*;

verus! {

/// Why the router refuses or fails a request.
#[derive(Debug)]
pub enum RouterError {
    NonLoopbackBind(String),
    InvalidJson(String),
    MissingModel,
    UnknownProvider(String),
    UnknownModel(String),
    InvalidBaseUrl(String, String),
    Credential(String),
    Upstream(String),
    Bind(String, String),
    OfficialPassthroughRequired,
    MissingOfficialAuthorization,
    ContextBoundary(String),
    UnsupportedEndpoint(String),
    InvalidHeader(String),
    MissingCapabilityToken,
    EndpointFile(String),
    Unauthorized,
    InvalidRequestOrigin,
    UnsupportedContentType,
    UnsupportedContentEncoding(String),
    InvalidCompressedBody(String),
    RequestBodyTooLarge(usize),
    Registry(String),
}

/// The model of an error.
pub ghost enum RouterErrorView {
    NonLoopbackBind(Seq<char>),
    InvalidJson(Seq<char>),
    MissingModel,
    UnknownProvider(Seq<char>),
    UnknownModel(Seq<char>),
    InvalidBaseUrl(Seq<char>, Seq<char>),
    Credential(Seq<char>),
    Upstream(Seq<char>),
    Bind(Seq<char>, Seq<char>),
    OfficialPassthroughRequired,
    MissingOfficialAuthorization,
    ContextBoundary(Seq<char>),
    UnsupportedEndpoint(Seq<char>),
    InvalidHeader(Seq<char>),
    MissingCapabilityToken,
    EndpointFile(Seq<char>),
    Unauthorized,
    InvalidRequestOrigin,
    UnsupportedContentType,
    UnsupportedContentEncoding(Seq<char>),
    InvalidCompressedBody(Seq<char>),
    RequestBodyTooLarge(usize),
    Registry(Seq<char>),
}

impl View for RouterError {
    type V = RouterErrorView;

    open spec fn view(&self) -> RouterErrorView {
        match *self {
            RouterError::NonLoopbackBind(a) => RouterErrorView::NonLoopbackBind(a@),
            RouterError::InvalidJson(a) => RouterErrorView::InvalidJson(a@),
            RouterError::MissingModel => RouterErrorView::MissingModel,
            RouterError::UnknownProvider(a) => RouterErrorView::UnknownProvider(a@),
            RouterError::UnknownModel(a) => RouterErrorView::UnknownModel(a@),
            RouterError::InvalidBaseUrl(a, b) => RouterErrorView::InvalidBaseUrl(a@, b@),
            RouterError::Credential(a) => RouterErrorView::Credential(a@),
            RouterError::Upstream(a) => RouterErrorView::Upstream(a@),
            RouterError::Bind(a, b) => RouterErrorView::Bind(a@, b@),
            RouterError::OfficialPassthroughRequired => RouterErrorView::OfficialPassthroughRequired,
            RouterError::MissingOfficialAuthorization => RouterErrorView::MissingOfficialAuthorization,
            RouterError::ContextBoundary(a) => RouterErrorView::ContextBoundary(a@),
            RouterError::UnsupportedEndpoint(a) => RouterErrorView::UnsupportedEndpoint(a@),
            RouterError::InvalidHeader(a) => RouterErrorView::InvalidHeader(a@),
            RouterError::MissingCapabilityToken => RouterErrorView::MissingCapabilityToken,
            RouterError::EndpointFile(a) => RouterErrorView::EndpointFile(a@),
            RouterError::Unauthorized => RouterErrorView::Unauthorized,
            RouterError::InvalidRequestOrigin => RouterErrorView::InvalidRequestOrigin,
            RouterError::UnsupportedContentType => RouterErrorView::UnsupportedContentType,
            RouterError::UnsupportedContentEncoding(a) => RouterErrorView::UnsupportedContentEncoding(a@),
            RouterError::InvalidCompressedBody(a) => RouterErrorView::InvalidCompressedBody(a@),
            RouterError::RequestBodyTooLarge(a) => RouterErrorView::RequestBodyTooLarge(a),
            RouterError::Registry(a) => RouterErrorView::Registry(a@),
        }
    }
}

impl RouterErrorView {
    /// The message that reports the error.
    pub open spec fn message(self) -> Seq<char> {
        match self {
            RouterErrorView::NonLoopbackBind(a) => "router may only bind to loopback, got "@ + a,
            RouterErrorView::InvalidJson(a) => "request body is not valid JSON: "@ + a,
            RouterErrorView::MissingModel => "request did not contain a string `model`"@,
            RouterErrorView::UnknownProvider(a) => "provider `"@ + a + "` is disabled or unknown"@,
            RouterErrorView::UnknownModel(a) => "model `"@ + a + "` is disabled or unknown"@,
            RouterErrorView::InvalidBaseUrl(a, b) => "provider `"@ + a + "` has an invalid base URL: "@ + b,
            RouterErrorView::Credential(a) => "credential error: "@ + a,
            RouterErrorView::Upstream(a) => "upstream request failed: "@ + a,
            RouterErrorView::Bind(a, b) => "could not bind "@ + a + ": "@ + b,
            RouterErrorView::OfficialPassthroughRequired => "official model traffic is not handled by the third-party adapter"@,
            RouterErrorView::MissingOfficialAuthorization => "official route requires a valid ChatGPT OAuth Authorization bearer"@,
            RouterErrorView::ContextBoundary(a) => "history context boundary: "@ + a,
            RouterErrorView::UnsupportedEndpoint(a) => "endpoint `"@ + a + "` is not supported by the selected route"@,
            RouterErrorView::InvalidHeader(a) => "provider header is invalid: "@ + a,
            RouterErrorView::MissingCapabilityToken => "router capability token is required for serving"@,
            RouterErrorView::EndpointFile(a) => "router endpoint file error: "@ + a,
            RouterErrorView::Unauthorized => "router request is not authorized"@,
            RouterErrorView::InvalidRequestOrigin => "router request must use a loopback Host and Origin"@,
            RouterErrorView::UnsupportedContentType => "router requests must use Content-Type: application/json"@,
            RouterErrorView::UnsupportedContentEncoding(a) => "request Content-Encoding is unsupported: "@ + a,
            RouterErrorView::InvalidCompressedBody(a) => "request body decompression failed: "@ + a,
            RouterErrorView::RequestBodyTooLarge(a) => "request body exceeds the "@ + decimal(a as nat) + " byte decoded limit"@,
            RouterErrorView::Registry(a) => "registry reload failed: "@ + a,
        }
    }
}

impl RouterError {
    /// The message that reports the error.
    pub fn message(&self) -> (r: String)
        ensures
            r@ == self@.message(),
    {
        match self {
            RouterError::NonLoopbackBind(a) => cat("router may only bind to loopback, got ", a),
            RouterError::InvalidJson(a) => cat("request body is not valid JSON: ", a),
            RouterError::MissingModel => "request did not contain a string `model`".to_owned(),
            RouterError::UnknownProvider(a) => cat3("provider `", a, "` is disabled or unknown"),
            RouterError::UnknownModel(a) => cat3("model `", a, "` is disabled or unknown"),
            RouterError::InvalidBaseUrl(a, b) => cat(&cat3("provider `", a, "` has an invalid base URL: "), b),
            RouterError::Credential(a) => cat("credential error: ", a),
            RouterError::Upstream(a) => cat("upstream request failed: ", a),
            RouterError::Bind(a, b) => cat(&cat3("could not bind ", a, ": "), b),
            RouterError::OfficialPassthroughRequired => "official model traffic is not handled by the third-party adapter".to_owned(),
            RouterError::MissingOfficialAuthorization => "official route requires a valid ChatGPT OAuth Authorization bearer".to_owned(),
            RouterError::ContextBoundary(a) => cat("history context boundary: ", a),
            RouterError::UnsupportedEndpoint(a) => cat3("endpoint `", a, "` is not supported by the selected route"),
            RouterError::InvalidHeader(a) => cat("provider header is invalid: ", a),
            RouterError::MissingCapabilityToken => "router capability token is required for serving".to_owned(),
            RouterError::EndpointFile(a) => cat("router endpoint file error: ", a),
            RouterError::Unauthorized => "router request is not authorized".to_owned(),
            RouterError::InvalidRequestOrigin => "router request must use a loopback Host and Origin".to_owned(),
            RouterError::UnsupportedContentType => "router requests must use Content-Type: application/json".to_owned(),
            RouterError::UnsupportedContentEncoding(a) => cat("request Content-Encoding is unsupported: ", a),
            RouterError::InvalidCompressedBody(a) => cat("request body decompression failed: ", a),
            RouterError::RequestBodyTooLarge(a) => cat3("request body exceeds the ", &decimal_of(*a as u64), " byte decoded limit"),
            RouterError::Registry(a) => cat("registry reload failed: ", a),
        }
    }
}

} // verus!
