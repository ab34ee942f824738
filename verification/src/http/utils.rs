//! Reading a method from text.

use crate::http::error::{HttpError, HttpErrorView};
use crate::http::method::Method;
use crate::text::{owned, str_eq};
use vstd::prelude::*;

verus! {

/// What `str::to_uppercase` of std returns for the text `s`.
pub uninterp spec fn uppercased(s: Seq<char>) -> Seq<char>;

/// `str::to_uppercase` of std: the upper-case equivalent of `s`, by the
/// Unicode case mapping.
#[verifier::external_body]
fn to_upper(s: &str) -> (r: String)
    ensures
        r@ == uppercased(s@),
{
    s.to_uppercase()
}

/// The method whose upper-case name is `upper`, if there is one.
pub open spec fn method_of(upper: Seq<char>) -> Option<Method> {
    if upper == "GET"@ {
        Some(Method::GET)
    } else if upper == "POST"@ {
        Some(Method::POST)
    } else if upper == "PUT"@ {
        Some(Method::PUT)
    } else if upper == "DELETE"@ {
        Some(Method::DELETE)
    } else if upper == "PATCH"@ {
        Some(Method::PATCH)
    } else if upper == "HEAD"@ {
        Some(Method::HEAD)
    } else if upper == "OPTIONS"@ {
        Some(Method::OPTIONS)
    } else {
        None
    }
}

/// The method whose upper-case name is `upper`, if there is one.
pub fn method_named(upper: &str) -> (r: Option<Method>)
    ensures
        r == method_of(upper@),
{
    if str_eq(upper, "GET") {
        Some(Method::GET)
    } else if str_eq(upper, "POST") {
        Some(Method::POST)
    } else if str_eq(upper, "PUT") {
        Some(Method::PUT)
    } else if str_eq(upper, "DELETE") {
        Some(Method::DELETE)
    } else if str_eq(upper, "PATCH") {
        Some(Method::PATCH)
    } else if str_eq(upper, "HEAD") {
        Some(Method::HEAD)
    } else if str_eq(upper, "OPTIONS") {
        Some(Method::OPTIONS)
    } else {
        None
    }
}

/// What `parse_method` returns on `s`, given the upper-case form of `s`.
pub open spec fn parsed_method(s: Seq<char>, upper: Seq<char>) -> Result<Method, HttpErrorView> {
    match method_of(upper) {
        Some(m) => Ok(m),
        None => Err(HttpErrorView::UnsupportedMethod(s)),
    }
}

/// Reads an HTTP method, whatever the case of its letters. A name outside the
/// seven known methods is refused with `UnsupportedMethod`, which carries
/// the text as given.
pub fn parse_method(s: &str) -> (r: Result<Method, HttpError>)
    ensures
        match parsed_method(s@, uppercased(s@)) {
            Ok(m) => r == Ok::<Method, HttpError>(m),
            Err(e) => r matches Err(given) && given@ == e,
        },
{
    let upper = to_upper(s);
    match method_named(upper.as_str()) {
        Some(m) => Ok(m),
        None => Err(HttpError::UnsupportedMethod(owned(s))),
    }
}

} // verus!
