//! Requests, responses and the backend that exchanges them.

pub mod backend;
pub mod client;
pub mod error;
pub mod form;
pub mod headers;
pub mod method;
pub mod request;
pub mod response;
pub mod utils;

pub use backend::{HttpBackend, ReqwestBackend};
pub use client::Client;
pub use error::HttpError;
pub use headers::HeaderMap;
pub use method::Method;
pub use request::{HttpRequest, RequestBody, RequestBuilder};
pub use response::HttpResponse;
pub use utils::parse_method;
