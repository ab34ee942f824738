//! Checks on the URL given on the command line.

use crate::error::{CliError, CliErrorView, WaveError, WaveErrorView};
use crate::text::{chars_of, has_char, has_prefix, owned, starts_with, trim_range, trimmed};
use vstd::prelude::*;
use vstd::string::StringExecFns;

verus! {

/// Whether `url` names its scheme, `http://` or `https://`.
pub open spec fn has_scheme(url: Seq<char>) -> bool {
    starts_with(url, "http://"@) || starts_with(url, "https://"@)
}

/// `url` as it stands if it names its scheme, with `http://` before it if not.
pub open spec fn with_scheme(url: Seq<char>) -> Seq<char> {
    if has_scheme(url) {
        url
    } else {
        "http://"@ + url
    }
}

/// What `validate_url` returns on `url`.
pub open spec fn validated_url(url: Seq<char>) -> Result<Seq<char>, WaveErrorView> {
    if trimmed(url).len() == 0 {
        Err(WaveErrorView::Cli(CliErrorView::InvalidUrl("URL cannot be empty"@)))
    } else if !with_scheme(url).contains('.') {
        Err(WaveErrorView::Cli(CliErrorView::InvalidUrl(url)))
    } else {
        Ok(with_scheme(url))
    }
}

/// `url` as it stands if it begins with `http://` or `https://`, with
/// `http://` before it if not.
pub fn ensure_url_scheme(url: &str) -> (r: String)
    ensures
        r@ == with_scheme(url@),
{
    let cs = chars_of(url);
    if has_prefix(&cs, "http://") || has_prefix(&cs, "https://") {
        owned(url)
    } else {
        String::from_str("http://").concat(url)
    }
}

/// Checks a URL of the command line and gives it its scheme. A URL that is
/// empty, or white space only, is refused; so is one that, with its scheme,
/// holds no dot. Any other comes back with `http://` before it unless it
/// names `http://` or `https://` itself.
pub fn validate_url(url: &str) -> (r: Result<String, WaveError>)
    ensures
        match validated_url(url@) {
            Ok(text) => r matches Ok(s) && s@ == text,
            Err(e) => r matches Err(w) && w@ == e,
        },
{
    let cs = chars_of(url);
    let bare = trim_range(&cs, 0, cs.len());
    assert(cs@.subrange(0, cs.len() as int) == cs@);
    if bare.as_str().unicode_len() == 0 {
        return Err(WaveError::Cli(CliError::InvalidUrl(owned("URL cannot be empty"))));
    }
    let full = ensure_url_scheme(url);
    let fs = chars_of(full.as_str());
    if !has_char(&fs, '.') {
        return Err(WaveError::Cli(CliError::InvalidUrl(owned(url))));
    }
    Ok(full)
}

/// The text shown while a request is under way: the method, the URL, and a
/// trailing blank when parameters go with it.
pub open spec fn spinner_text(method: Seq<char>, url: Seq<char>, with_params: bool) -> Seq<char> {
    method + " "@ + url + (if with_params {
        " "@
    } else {
        ""@
    })
}

/// The text shown while a request is under way.
pub fn spinner_msg(method: &str, url: &str, params: &[String]) -> (r: String)
    ensures
        r@ == spinner_text(method@, url@, params@.len() > 0),
{
    let tail = if params.len() == 0 {
        ""
    } else {
        " "
    };
    String::from_str(method).concat(" ").concat(url).concat(tail)
}

} // verus!
