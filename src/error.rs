//! The failures that a call to the service can end in.
use vstd::prelude::*;

verus! {

/// Why a logical call to the service did not succeed.
#[derive(Clone, Debug, PartialEq, Eq)]
pub enum S3VectorsError {
    /// No credentials are configured; nothing was sent.
    AuthRequired(String),
    /// A caller-side precondition failed; nothing was sent.
    Validation(String),
    /// The service reported that the resource does not exist.
    NotFound(String),
    /// The service reported that the resource exists already.
    AlreadyExists(String),
    /// Still rate limited after the last retry; holds the backoff in
    /// milliseconds that the next retry would have waited.
    RateLimit(u64),
    /// Any other failure reported by the service, or an unreadable one.
    ServiceError(String),
    /// The connection failed, on the last attempt allowed.
    RequestError(String),
    /// A response body could not be read as the expected shape.
    JsonError(String),
    /// The request could not be signed (the URL has no host).
    SigningError(String),
}

/// An error with its messages as characters.
pub enum ErrorView {
    AuthRequired(Seq<char>),
    Validation(Seq<char>),
    NotFound(Seq<char>),
    AlreadyExists(Seq<char>),
    RateLimit(u64),
    ServiceError(Seq<char>),
    RequestError(Seq<char>),
    JsonError(Seq<char>),
    SigningError(Seq<char>),
}

impl View for S3VectorsError {
    type V = ErrorView;

    open spec fn view(&self) -> ErrorView {
        match self {
            S3VectorsError::AuthRequired(m) => ErrorView::AuthRequired(m@),
            S3VectorsError::Validation(m) => ErrorView::Validation(m@),
            S3VectorsError::NotFound(m) => ErrorView::NotFound(m@),
            S3VectorsError::AlreadyExists(m) => ErrorView::AlreadyExists(m@),
            S3VectorsError::RateLimit(ms) => ErrorView::RateLimit(*ms),
            S3VectorsError::ServiceError(m) => ErrorView::ServiceError(m@),
            S3VectorsError::RequestError(m) => ErrorView::RequestError(m@),
            S3VectorsError::JsonError(m) => ErrorView::JsonError(m@),
            S3VectorsError::SigningError(m) => ErrorView::SigningError(m@),
        }
    }
}

/// The error as a line of text: its kind, then its message.
pub open spec fn message_of(e: ErrorView) -> Seq<char> {
    match e {
        ErrorView::AuthRequired(m) => "Authentication required: "@ + m,
        ErrorView::Validation(m) => "Validation error: "@ + m,
        ErrorView::NotFound(m) => "Resource not found: "@ + m,
        ErrorView::AlreadyExists(m) => "Resource already exists: "@ + m,
        ErrorView::RateLimit(ms) => "Rate limit exceeded, retry after "@ + crate::text::decimal(ms as nat)
            + "ms"@,
        ErrorView::ServiceError(m) => "Service error: "@ + m,
        ErrorView::RequestError(m) => "Request error: "@ + m,
        ErrorView::JsonError(m) => "JSON error: "@ + m,
        ErrorView::SigningError(m) => "Signing error: "@ + m,
    }
}

impl S3VectorsError {
    /// The error as a line of text for the user.
    pub fn to_message(&self) -> (r: String)
        ensures
            r@ == message_of(self@),
    {
        let mut r = String::new();
        match self {
            S3VectorsError::AuthRequired(m) => {
                r.append("Authentication required: ");
                r.append(m.as_str());
            },
            S3VectorsError::Validation(m) => {
                r.append("Validation error: ");
                r.append(m.as_str());
            },
            S3VectorsError::NotFound(m) => {
                r.append("Resource not found: ");
                r.append(m.as_str());
            },
            S3VectorsError::AlreadyExists(m) => {
                r.append("Resource already exists: ");
                r.append(m.as_str());
            },
            S3VectorsError::RateLimit(ms) => {
                r.append("Rate limit exceeded, retry after ");
                crate::text::push_decimal(&mut r, *ms);
                r.append("ms");
            },
            S3VectorsError::ServiceError(m) => {
                r.append("Service error: ");
                r.append(m.as_str());
            },
            S3VectorsError::RequestError(m) => {
                r.append("Request error: ");
                r.append(m.as_str());
            },
            S3VectorsError::JsonError(m) => {
                r.append("JSON error: ");
                r.append(m.as_str());
            },
            S3VectorsError::SigningError(m) => {
                r.append("Signing error: ");
                r.append(m.as_str());
            },
        }
        r
    }
}

} // verus!
