//! What of a response is shown: the decisions, without the colours.

use crate::http::headers::{is_visible_ascii, visible_ascii};
use crate::http::request::{content_type_name, lemma_content_type_name};
use crate::http::response::HttpResponse;
use crate::pairs::{lookup, pairs_of, PairSeq};
use crate::text::owned;
use vstd::prelude::*;
use vstd::string::StringExecFns;

verus! {

/// The colour in which a status is shown.
#[derive(Debug, Clone, Copy, PartialEq, Eq, Structural)]
pub enum StatusColor {
    /// A success, 200 to 299.
    Green,
    /// A redirection, 300 to 399.
    Yellow,
    /// An error, 400 to 599.
    Red,
    /// Anything else.
    White,
}

/// The colour in which `status` is shown.
pub open spec fn color_of(status: u16) -> StatusColor {
    if 200 <= status <= 299 {
        StatusColor::Green
    } else if 300 <= status <= 399 {
        StatusColor::Yellow
    } else if 400 <= status <= 599 {
        StatusColor::Red
    } else {
        StatusColor::White
    }
}

/// The colour in which `status` is shown.
pub fn get_status_style(status: u16) -> (r: StatusColor)
    ensures
        r == color_of(status),
{
    if 200 <= status && status <= 299 {
        StatusColor::Green
    } else if 300 <= status && status <= 399 {
        StatusColor::Yellow
    } else if 400 <= status && status <= 599 {
        StatusColor::Red
    } else {
        StatusColor::White
    }
}

/// The text before the colour codes are put round it: `Status: ` and the
/// status in decimal.
pub fn format_status_line(status: u16) -> (r: String)
    ensures
        r@ == "Status: "@ + crate::number::decimal(status as int),
{
    let number = crate::number::integer_text(status as i64);
    String::from_str("Status: ").concat(number.as_str())
}

/// Whether all headers of a response are shown: when asked for, and for
/// every error status, 400 to 599.
pub open spec fn shows_headers(status: u16, verbose: bool) -> bool {
    verbose || (400 <= status <= 599)
}

/// The value of a header as it is shown: itself if it is made of visible
/// ASCII characters, a placeholder if not.
pub open spec fn shown_value(value: Seq<char>) -> Seq<char> {
    if is_visible_ascii(value) {
        value
    } else {
        "<invalid header value>"@
    }
}

/// The first `n` headers of `h` as they are shown.
pub open spec fn shown_headers_upto(h: PairSeq, n: int) -> PairSeq
    decreases n,
{
    if n <= 0 || n > h.len() {
        Seq::empty()
    } else {
        shown_headers_upto(h, n - 1).push((h[n - 1].0, shown_value(h[n - 1].1)))
    }
}

/// The value of a header as it is shown.
pub fn format_header_value(value: &str) -> (r: String)
    ensures
        r@ == shown_value(value@),
{
    if visible_ascii(value) {
        owned(value)
    } else {
        owned("<invalid header value>")
    }
}

/// The headers of `resp` that are shown, in order, and whether any were
/// asked to be shown: all of them when `verbose` is set or the status is an
/// error, none otherwise.
pub fn format_headers_section(resp: &HttpResponse, verbose: bool) -> (r: (
    Vec<(String, String)>,
    bool,
))
    ensures
        r.1 == shows_headers(resp.status, verbose),
        pairs_of(r.0@) == if r.1 {
            shown_headers_upto(resp.headers@, resp.headers@.len() as int)
        } else {
            Seq::empty()
        },
{
    let mut out: Vec<(String, String)> = Vec::new();
    assert(pairs_of(out@) =~= Seq::<(Seq<char>, Seq<char>)>::empty());
    let show = verbose || (resp.status >= 400 && resp.status <= 599);
    if show {
        let mut i: usize = 0;
        let n = resp.headers.len();
        while i < n
            invariant
                i <= n,
                n == resp.headers@.len(),
                pairs_of(out@) == shown_headers_upto(resp.headers@, i as int),
            decreases n - i,
        {
            let ghost before = out@;
            let pair = (
                resp.headers.name_at(i).clone(),
                format_header_value(resp.headers.value_at(i).as_str()),
            );
            out.push(pair);
            proof {
                crate::pairs::lemma_pairs_push(before, pair);
            }
            i += 1;
        }
    }
    (out, show)
}

/// The content type that is shown on its own: that of the response, as it
/// is shown, where the body is no JSON and the headers were not shown.
pub fn format_content_type_if_needed(resp: &HttpResponse, is_json: bool, showed_headers: bool)
    -> (r: Option<String>)
    ensures
        match lookup(resp.headers@, content_type_name()) {
            Some(v) if !is_json && !showed_headers => r matches Some(s) && s@ == shown_value(v),
            _ => r.is_none(),
        },
{
    proof {
        lemma_content_type_name();
    }
    if !is_json && !showed_headers {
        match resp.headers.get("content-type") {
            Some(value) => Some(format_header_value(value.as_str())),
            None => None,
        }
    } else {
        None
    }
}

} // verus!
