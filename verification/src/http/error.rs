//! What can go wrong in an HTTP exchange.

use vstd::prelude::*;
use vstd::string::StringExecFns;

verus! {

/// A failed HTTP operation.
#[derive(Debug, Clone)]
pub enum HttpError {
    /// The exchange itself failed (connection refused, timeout, ...).
    Network(String),
    /// A body could not be read or written in the expected format.
    Parse(String),
    /// The method is not one this client sends.
    UnsupportedMethod(String),
    /// Anything else.
    Other(String),
}

/// The mathematical content of an `HttpError`.
pub ghost enum HttpErrorView {
    Network(Seq<char>),
    Parse(Seq<char>),
    UnsupportedMethod(Seq<char>),
    Other(Seq<char>),
}

impl View for HttpError {
    type V = HttpErrorView;

    open spec fn view(&self) -> HttpErrorView {
        match self {
            HttpError::Network(msg) => HttpErrorView::Network(msg@),
            HttpError::Parse(msg) => HttpErrorView::Parse(msg@),
            HttpError::UnsupportedMethod(method) => HttpErrorView::UnsupportedMethod(method@),
            HttpError::Other(msg) => HttpErrorView::Other(msg@),
        }
    }
}

impl HttpErrorView {
    /// The text of the message shown for the error.
    pub open spec fn message(self) -> Seq<char> {
        match self {
            HttpErrorView::Network(msg) => "Network error: "@ + msg,
            HttpErrorView::Parse(msg) => "Parse error: "@ + msg,
            HttpErrorView::UnsupportedMethod(method) => "Unsupported HTTP method: "@ + method,
            HttpErrorView::Other(msg) => "Error: "@ + msg,
        }
    }
}

impl HttpError {
    /// The message shown for this error.
    pub fn to_string(&self) -> (r: String)
        ensures
            r@ == self@.message(),
    {
        match self {
            HttpError::Network(msg) => String::from_str("Network error: ").concat(msg.as_str()),
            HttpError::Parse(msg) => String::from_str("Parse error: ").concat(msg.as_str()),
            HttpError::UnsupportedMethod(method) => String::from_str(
                "Unsupported HTTP method: ",
            ).concat(method.as_str()),
            HttpError::Other(msg) => String::from_str("Error: ").concat(msg.as_str()),
        }
    }

    /// A copy of the error.
    pub fn duplicate(&self) -> (r: HttpError)
        ensures
            r@ == self@,
    {
        match self {
            HttpError::Network(msg) => HttpError::Network(msg.clone()),
            HttpError::Parse(msg) => HttpError::Parse(msg.clone()),
            HttpError::UnsupportedMethod(method) => HttpError::UnsupportedMethod(method.clone()),
            HttpError::Other(msg) => HttpError::Other(msg.clone()),
        }
    }
}

} // verus!
