//! The methods a request can carry.

use vstd::prelude::*;

verus! {

/// An HTTP method.
#[derive(Debug, Clone, Copy, PartialEq, Eq, Structural, Hash)]
pub enum Method {
    GET,
    POST,
    PUT,
    DELETE,
    PATCH,
    HEAD,
    OPTIONS,
}

impl Method {
    /// The method's name, in upper case.
    pub open spec fn name(self) -> Seq<char> {
        match self {
            Method::GET => "GET"@,
            Method::POST => "POST"@,
            Method::PUT => "PUT"@,
            Method::DELETE => "DELETE"@,
            Method::PATCH => "PATCH"@,
            Method::HEAD => "HEAD"@,
            Method::OPTIONS => "OPTIONS"@,
        }
    }

    /// The method's name, in upper case.
    pub fn as_str(&self) -> (r: &'static str)
        ensures
            r@ == self.name(),
    {
        match self {
            Method::GET => "GET",
            Method::POST => "POST",
            Method::PUT => "PUT",
            Method::DELETE => "DELETE",
            Method::PATCH => "PATCH",
            Method::HEAD => "HEAD",
            Method::OPTIONS => "OPTIONS",
        }
    }

    /// Whether a request with this method carries a body.
    pub open spec fn carries_body(self) -> bool {
        self == Method::POST || self == Method::PUT || self == Method::PATCH
    }
}

} // verus!
