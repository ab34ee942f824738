//! What sends a request and brings back the response.

use crate::http::error::HttpError;
use crate::http::request::HttpRequest;
use crate::http::response::HttpResponse;
use crate::http::headers::set_headers;
use crate::http::method::Method;
use crate::pairs::pairs_of;
use vstd::prelude::*;

verus! {

/// A backend: it sends one request and gives the response, or the error of
/// the exchange. What a backend answers is its own affair: each backend says
/// which answers are its own, and nothing more is promised of them.
pub trait HttpBackend {
    /// Whether `answer` is what this backend gives when `req` is sent
    /// through it. A backend that says nothing of its answers takes any
    /// answer for its own.
    open spec fn answers(&self, req: &HttpRequest, answer: Result<HttpResponse, HttpError>)
        -> bool {
        true
    }

    /// Sends `req`.
    fn send(&self, req: &HttpRequest) -> (r: Result<HttpResponse, HttpError>)
        ensures
            self.answers(req, r),
    ;
}

/// The backend for real exchanges, as far as it computes: what it hands to
/// the transport for a request, and what it makes of the transport's answer.
/// The exchange itself is not here.
#[derive(Debug, Clone, Copy)]
pub struct ReqwestBackend;

impl ReqwestBackend {
    /// The verb that the transport is asked for: the method's name. Only the
    /// seven methods of `Method` exist, so no other verb is ever sent.
    pub fn verb(method: Method) -> (r: &'static str)
        ensures
            r@ == method.name(),
    {
        method.as_str()
    }

    /// The headers handed to the transport: those of the request, names and
    /// values as they stand, in order.
    pub fn wire_headers(req: &HttpRequest) -> (r: Vec<(String, String)>)
        ensures
            pairs_of(r@) == req.headers@,
    {
        req.headers.to_pairs()
    }

    /// The response made of what the transport gave: each header is set in
    /// turn, so that of a name that comes twice the last value stays.
    pub fn response(status: u16, headers: Vec<(String, String)>, body: String) -> (r:
        HttpResponse)
        ensures
            r.status == status,
            r.headers@ == set_headers(Seq::empty(), pairs_of(headers@)),
            r.body@ == body@,
    {
        HttpResponse { status, headers: crate::http::headers::headers_to_map(headers), body }
    }
}

} // verus!
