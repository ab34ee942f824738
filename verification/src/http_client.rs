//! The HTTP items, gathered under one path.

pub use crate::http::{
    parse_method, Client, HeaderMap, HttpBackend, HttpError, HttpRequest, HttpResponse, Method,
    RequestBody, RequestBuilder, ReqwestBackend,
};
