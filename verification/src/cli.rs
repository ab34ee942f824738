//! The commands of the command line.

use crate::dispatch::{
    body_request, handle_delete, handle_get, handle_patch, handle_post, handle_put, plain_request,
};
use crate::error::{WaveError, WaveErrorView};
use crate::http::method::Method;
use crate::http::request::{HttpRequest, HttpRequestView};
use crate::params::texts_of;
use crate::url::{spinner_msg, spinner_text};
use vstd::prelude::*;

verus! {

/// One command: a request to a URL, or a request of a collection.
#[derive(Debug)]
pub enum Command {
    Get { url: String, params: Vec<String>, verbose: bool },
    Post { url: String, params: Vec<String>, form: bool, verbose: bool },
    Put { url: String, params: Vec<String>, form: bool, verbose: bool },
    Patch { url: String, params: Vec<String>, form: bool, verbose: bool },
    Delete { url: String, params: Vec<String>, verbose: bool },
    Collection { collection: String, request: String, verbose: bool, params: Vec<String> },
}

/// The command line, read.
#[derive(Debug)]
pub struct Cli {
    pub command: Command,
}

impl Command {
    /// The method of a command to a URL; a command of a collection has none
    /// of its own.
    pub open spec fn method(self) -> Option<Method> {
        match self {
            Command::Get { .. } => Some(Method::GET),
            Command::Post { .. } => Some(Method::POST),
            Command::Put { .. } => Some(Method::PUT),
            Command::Patch { .. } => Some(Method::PATCH),
            Command::Delete { .. } => Some(Method::DELETE),
            Command::Collection { .. } => None,
        }
    }

    /// The request that a command to a URL asks for.
    pub open spec fn spec_request(self) -> Option<Result<HttpRequestView, WaveErrorView>> {
        match self {
            Command::Get { url, params, .. } => Some(
                plain_request(Method::GET, url@, texts_of(params@)),
            ),
            Command::Delete { url, params, .. } => Some(
                plain_request(Method::DELETE, url@, texts_of(params@)),
            ),
            Command::Post { url, params, form, .. } => Some(
                body_request(Method::POST, url@, texts_of(params@), form),
            ),
            Command::Put { url, params, form, .. } => Some(
                body_request(Method::PUT, url@, texts_of(params@), form),
            ),
            Command::Patch { url, params, form, .. } => Some(
                body_request(Method::PATCH, url@, texts_of(params@), form),
            ),
            Command::Collection { .. } => None,
        }
    }

    /// Whether the full response is asked for.
    pub fn verbose(&self) -> (r: bool)
        ensures
            r == match *self {
                Command::Get { verbose, .. } => verbose,
                Command::Post { verbose, .. } => verbose,
                Command::Put { verbose, .. } => verbose,
                Command::Patch { verbose, .. } => verbose,
                Command::Delete { verbose, .. } => verbose,
                Command::Collection { verbose, .. } => verbose,
            },
    {
        match self {
            Command::Get { verbose, .. } => *verbose,
            Command::Post { verbose, .. } => *verbose,
            Command::Put { verbose, .. } => *verbose,
            Command::Patch { verbose, .. } => *verbose,
            Command::Delete { verbose, .. } => *verbose,
            Command::Collection { verbose, .. } => *verbose,
        }
    }

    /// The text shown while the request of a command to a URL is under way;
    /// `None` for a command of a collection.
    pub fn spinner(&self) -> (r: Option<String>)
        ensures
            r.is_some() == self.method().is_some(),
            r matches Some(s) ==> match *self {
                Command::Get { url, params, .. } => s@ == spinner_text(
                    "GET"@,
                    url@,
                    params@.len() > 0,
                ),
                Command::Post { url, params, .. } => s@ == spinner_text(
                    "POST"@,
                    url@,
                    params@.len() > 0,
                ),
                Command::Put { url, params, .. } => s@ == spinner_text(
                    "PUT"@,
                    url@,
                    params@.len() > 0,
                ),
                Command::Patch { url, params, .. } => s@ == spinner_text(
                    "PATCH"@,
                    url@,
                    params@.len() > 0,
                ),
                Command::Delete { url, params, .. } => s@ == spinner_text(
                    "DELETE"@,
                    url@,
                    params@.len() > 0,
                ),
                Command::Collection { .. } => false,
            },
    {
        match self {
            Command::Get { url, params, .. } => Some(
                spinner_msg("GET", url.as_str(), params.as_slice()),
            ),
            Command::Post { url, params, .. } => Some(
                spinner_msg("POST", url.as_str(), params.as_slice()),
            ),
            Command::Put { url, params, .. } => Some(
                spinner_msg("PUT", url.as_str(), params.as_slice()),
            ),
            Command::Patch { url, params, .. } => Some(
                spinner_msg("PATCH", url.as_str(), params.as_slice()),
            ),
            Command::Delete { url, params, .. } => Some(
                spinner_msg("DELETE", url.as_str(), params.as_slice()),
            ),
            Command::Collection { .. } => None,
        }
    }

    /// The request that a command to a URL asks for, or the error of its
    /// URL or parameters; `None` for a command of a collection, whose
    /// request depends on the collection.
    pub fn request(&self) -> (r: Option<Result<HttpRequest, WaveError>>)
        ensures
            match self.spec_request() {
                None => r.is_none(),
                Some(Ok(q)) => r matches Some(Ok(req)) && req@ == q,
                Some(Err(e)) => r matches Some(Err(w)) && w@ == e,
            },
    {
        match self {
            Command::Get { url, params, .. } => Some(
                handle_get(url.as_str(), params.as_slice()),
            ),
            Command::Delete { url, params, .. } => Some(
                handle_delete(url.as_str(), params.as_slice()),
            ),
            Command::Post { url, params, form, .. } => Some(
                handle_post(url.as_str(), params.as_slice(), *form),
            ),
            Command::Put { url, params, form, .. } => Some(
                handle_put(url.as_str(), params.as_slice(), *form),
            ),
            Command::Patch { url, params, form, .. } => Some(
                handle_patch(url.as_str(), params.as_slice(), *form),
            ),
            Command::Collection { .. } => None,
        }
    }
}

} // verus!
