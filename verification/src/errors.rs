//! The closed taxonomy of provider-side failures, shared by every adapter.
use vstd::prelude::*;
use vstd::string::*;

verus! {

/// A provider-call failure, classified.
#[derive(Debug, PartialEq)]
pub enum ProviderError {
    /// The provider rejected the credentials (HTTP 401/403).
    Authentication(String),
    /// The request exceeded the model's context window.
    ContextLengthExceeded(String),
    /// The provider itself failed (HTTP 500/503).
    ServerError(String),
    /// Any other non-success outcome.
    RequestFailed(String),
}

/// The mirror of `ProviderError`.
#[verifier::ext_equal]
pub enum ProviderErrorV {
    Authentication(Seq<char>),
    ContextLengthExceeded(Seq<char>),
    ServerError(Seq<char>),
    RequestFailed(Seq<char>),
}

impl View for ProviderError {
    type V = ProviderErrorV;

    open spec fn view(&self) -> ProviderErrorV {
        match self {
            ProviderError::Authentication(s) => ProviderErrorV::Authentication(s@),
            ProviderError::ContextLengthExceeded(s) => ProviderErrorV::ContextLengthExceeded(s@),
            ProviderError::ServerError(s) => ProviderErrorV::ServerError(s@),
            ProviderError::RequestFailed(s) => ProviderErrorV::RequestFailed(s@),
        }
    }
}

/// The text a provider error reads as, mirrored by `error_text`.
pub open spec fn spec_provider_error_text(e: ProviderErrorV) -> Seq<char> {
    match e {
        ProviderErrorV::Authentication(s) => "Authentication failed: "@ + s,
        ProviderErrorV::ContextLengthExceeded(s) => "Context length exceeded: "@ + s,
        ProviderErrorV::ServerError(s) => "Server error: "@ + s,
        ProviderErrorV::RequestFailed(s) => "Request failed: "@ + s,
    }
}

impl ProviderError {
    /// The text this error reads as.
    pub fn error_text(&self) -> (r: String)
        ensures
            r@ == spec_provider_error_text(self@),
    {
        let mut r = String::new();
        match self {
            ProviderError::Authentication(s) => {
                r.append("Authentication failed: ");
                r.append(s.as_str());
            },
            ProviderError::ContextLengthExceeded(s) => {
                r.append("Context length exceeded: ");
                r.append(s.as_str());
            },
            ProviderError::ServerError(s) => {
                r.append("Server error: ");
                r.append(s.as_str());
            },
            ProviderError::RequestFailed(s) => {
                r.append("Request failed: ");
                r.append(s.as_str());
            },
        }
        r
    }
}

} // verus!
