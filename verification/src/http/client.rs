//! A client over any backend.

use crate::http::backend::HttpBackend;
use crate::http::error::HttpError;
use crate::http::request::HttpRequest;
use crate::http::response::HttpResponse;
use vstd::prelude::*;

verus! {

/// A client: it hands every request to its backend.
pub struct Client<B: HttpBackend> {
    pub backend: B,
}

impl<B: HttpBackend> Client<B> {
    /// The client over `backend`.
    pub fn new(backend: B) -> (r: Client<B>)
        ensures
            r.backend == backend,
    {
        Client { backend }
    }

    /// Sends `req` through the backend and gives back what the backend
    /// gave: the request goes to the backend as it stands, and the answer
    /// comes back as the backend gave it.
    pub fn send(&self, req: &HttpRequest) -> (r: Result<HttpResponse, HttpError>)
        ensures
            self.backend.answers(req, r),
    {
        self.backend.send(req)
    }
}

} // verus!
