//! The response that a backend gives.

use crate::http::headers::{is_visible_ascii, visible_ascii, HeaderMap};
use crate::http::request::{content_type_name, lemma_content_type_name};
use crate::pairs::lookup;
use crate::text::chars_of;
use vstd::prelude::*;

verus! {

/// A response: status, headers and body.
#[derive(Debug, Clone)]
pub struct HttpResponse {
    pub status: u16,
    pub headers: HeaderMap,
    pub body: String,
}

/// Whether `needle` stands in `s` at index `at`.
pub open spec fn occurs_at(s: Seq<char>, needle: Seq<char>, at: int) -> bool {
    0 <= at && at + needle.len() <= s.len() && s.subrange(at, at + needle.len()) == needle
}

/// Whether `needle` stands somewhere in `s`.
pub open spec fn has_text(s: Seq<char>, needle: Seq<char>) -> bool {
    exists|at: int| occurs_at(s, needle, at)
}

/// Whether `needle` stands somewhere in `s`.
pub fn contains_text(s: &str, needle: &str) -> (r: bool)
    ensures
        r == has_text(s@, needle@),
{
    let cs = chars_of(s);
    let ns = chars_of(needle);
    if ns.len() > cs.len() {
        assert forall|at: int| !occurs_at(s@, needle@, at) by {}
        return false;
    }
    let last = cs.len() - ns.len();
    let mut at: usize = 0;
    while at <= last
        invariant
            at <= last + 1,
            last == cs.len() - ns.len(),
            cs@ == s@,
            ns@ == needle@,
            forall|k: int| 0 <= k < at ==> !occurs_at(s@, needle@, k),
        decreases last + 1 - at,
    {
        let mut j: usize = 0;
        while j < ns.len() && cs[at + j] == ns[j]
            invariant
                j <= ns.len(),
                at + ns.len() <= cs.len(),
                forall|k: int| 0 <= k < j ==> cs@[at + k] == ns@[k],
            decreases ns.len() - j,
        {
            j += 1;
        }
        if j == ns.len() {
            assert(cs@.subrange(at as int, at + ns.len()) =~= ns@);
            assert(occurs_at(s@, needle@, at as int));
            return true;
        }
        assert(cs@.subrange(at as int, at + ns.len())[j as int] != ns@[j as int]);
        at += 1;
    }
    assert forall|k: int| !occurs_at(s@, needle@, k) by {}
    false
}

impl HttpResponse {
    /// The value of the `content-type` header, if the response has one and
    /// the value is made of visible ASCII characters.
    pub open spec fn spec_content_type(self) -> Option<Seq<char>> {
        match lookup(self.headers@, content_type_name()) {
            Some(v) => if is_visible_ascii(v) {
                Some(v)
            } else {
                None
            },
            None => None,
        }
    }

    /// Whether the status is a success, 200 to 299.
    pub fn is_success(&self) -> (r: bool)
        ensures
            r == (200 <= self.status < 300),
    {
        self.status >= 200 && self.status < 300
    }

    /// Whether the status is a client error, 400 to 499.
    pub fn is_client_error(&self) -> (r: bool)
        ensures
            r == (400 <= self.status < 500),
    {
        self.status >= 400 && self.status < 500
    }

    /// Whether the status is a server error, 500 to 599.
    pub fn is_server_error(&self) -> (r: bool)
        ensures
            r == (500 <= self.status < 600),
    {
        self.status >= 500 && self.status < 600
    }

    /// Whether the status is an error, 400 or more.
    pub fn is_error(&self) -> (r: bool)
        ensures
            r == (self.status >= 400),
    {
        self.status >= 400
    }

    /// The value of the `content-type` header, if the response has one and
    /// the value is made of visible ASCII characters.
    pub fn content_type(&self) -> (r: Option<&str>)
        ensures
            r.is_some() == self.spec_content_type().is_some(),
            r matches Some(s) ==> Some(s@) == self.spec_content_type(),
    {
        proof {
            lemma_content_type_name();
        }
        match self.headers.get("content-type") {
            Some(v) => if visible_ascii(v.as_str()) {
                Some(v.as_str())
            } else {
                None
            },
            None => None,
        }
    }

    /// The body.
    pub fn text(&self) -> (r: &str)
        ensures
            r@ == self.body@,
    {
        self.body.as_str()
    }

    /// Whether the content type says that the body is JSON: it holds
    /// `application/json` or `text/json`.
    pub fn is_json(&self) -> (r: bool)
        ensures
            r == match self.spec_content_type() {
                Some(ct) => has_text(ct, "application/json"@) || has_text(ct, "text/json"@),
                None => false,
            },
    {
        match self.content_type() {
            Some(ct) => contains_text(ct, "application/json") || contains_text(ct, "text/json"),
            None => false,
        }
    }
}

} // verus!
