//! A request's or a response's headers: a map from lower-case names to
//! values, which keeps the order in which names first came.

use crate::pairs::{clone_pairs, distinct_keys, find_value, has_key, lemma_key_index_from, lookup, pairs_of, put, upsert, PairSeq};
use crate::text::{chars_of, push_char};
use vstd::std_specs::cmp::PartialEqSpecImpl;
use vstd::prelude::*;

verus! {

/// The longest header name, in characters.
pub const MAX_HEADER_NAME_LEN: usize = 65535;

/// Whether `c` may stand in a header name: a letter, a digit, or one of
/// ``! # $ % & ' * + - . ^ _ ` | ~``.
pub open spec fn is_name_char(c: char) -> bool {
    ('a' <= c <= 'z') || ('A' <= c <= 'Z') || ('0' <= c <= '9') || c == '!' || c == '#' || c
        == '$' || c == '%' || c == '&' || c == '\'' || c == '*' || c == '+' || c == '-' || c
        == '.' || c == '^' || c == '_' || c == '`' || c == '|' || c == '~'
}

/// `c` with an upper-case ASCII letter turned into its lower-case form.
pub open spec fn ascii_lower(c: char) -> char {
    if 'A' <= c <= 'Z' {
        ((c as u8) + 32) as char
    } else {
        c
    }
}

/// `s` with each upper-case ASCII letter turned into its lower-case form.
pub open spec fn ascii_lowered(s: Seq<char>) -> Seq<char> {
    Seq::new(s.len(), |i: int| ascii_lower(s[i]))
}

/// Whether `s` can name a header: not empty, not too long, made of name
/// characters.
pub open spec fn is_header_name(s: Seq<char>) -> bool {
    0 < s.len() <= MAX_HEADER_NAME_LEN && forall|i: int| 0 <= i < s.len() ==> is_name_char(s[i])
}

/// The name under which a header given as `s` is kept, if `s` can name one.
pub open spec fn header_name_of(s: Seq<char>) -> Option<Seq<char>> {
    if is_header_name(s) {
        Some(ascii_lowered(s))
    } else {
        None
    }
}

/// Whether `c` may stand in a header value: a tab, or any character but the
/// control characters.
pub open spec fn is_value_char(c: char) -> bool {
    let n = c as u32;
    c == '\t' || (n >= 32 && n != 127)
}

/// Whether `s` can be a header value.
pub open spec fn is_header_value(s: Seq<char>) -> bool {
    forall|i: int| 0 <= i < s.len() ==> is_value_char(s[i])
}

/// Whether `c` is a tab or a visible ASCII character.
pub open spec fn is_visible_char(c: char) -> bool {
    let n = c as u32;
    c == '\t' || (32 <= n && n < 127)
}

/// Whether `s` is made of tabs and visible ASCII characters only.
pub open spec fn is_visible_ascii(s: Seq<char>) -> bool {
    forall|i: int| 0 <= i < s.len() ==> is_visible_char(s[i])
}

/// The lower-case form of a name character is a name character, and is its
/// own lower-case form.
pub proof fn lemma_lower_name_char(c: char)
    requires
        is_name_char(c),
    ensures
        is_name_char(ascii_lower(c)),
        ascii_lower(ascii_lower(c)) == ascii_lower(c),
{
}

/// Whether `c` may stand in a header name.
pub fn name_char(c: char) -> (r: bool)
    ensures
        r == is_name_char(c),
{
    ('a' <= c && c <= 'z') || ('A' <= c && c <= 'Z') || ('0' <= c && c <= '9') || c == '!' || c
        == '#' || c == '$' || c == '%' || c == '&' || c == '\'' || c == '*' || c == '+' || c
        == '-' || c == '.' || c == '^' || c == '_' || c == '`' || c == '|' || c == '~'
}

/// `c` with an upper-case ASCII letter turned into its lower-case form.
pub fn lower_char(c: char) -> (r: char)
    ensures
        r == ascii_lower(c),
{
    if 'A' <= c && c <= 'Z' {
        let b: u8 = c as u8;
        (b + 32) as char
    } else {
        c
    }
}

/// The name under which a header given as `s` is kept, if `s` can name one.
pub fn header_name(s: &str) -> (r: Option<String>)
    ensures
        r.is_some() == header_name_of(s@).is_some(),
        r matches Some(n) ==> Some(n@) == header_name_of(s@),
{
    let cs = chars_of(s);
    if cs.len() == 0 || cs.len() > MAX_HEADER_NAME_LEN {
        return None;
    }
    let mut out = String::new();
    let mut i: usize = 0;
    while i < cs.len()
        invariant
            i <= cs.len(),
            cs@ == s@,
            forall|j: int| 0 <= j < i ==> is_name_char(cs@[j]),
            out@ == ascii_lowered(cs@).take(i as int),
        decreases cs.len() - i,
    {
        if !name_char(cs[i]) {
            return None;
        }
        push_char(&mut out, lower_char(cs[i]));
        assert(ascii_lowered(cs@).take(i + 1) == ascii_lowered(cs@).take(i as int).push(
            ascii_lowered(cs@)[i as int],
        ));
        i += 1;
    }
    assert(ascii_lowered(cs@).take(cs.len() as int) == ascii_lowered(cs@));
    Some(out)
}

/// Whether `s` can be a header value.
pub fn header_value_ok(s: &str) -> (r: bool)
    ensures
        r == is_header_value(s@),
{
    let cs = chars_of(s);
    let mut i: usize = 0;
    while i < cs.len()
        invariant
            i <= cs.len(),
            cs@ == s@,
            forall|j: int| 0 <= j < i ==> is_value_char(cs@[j]),
        decreases cs.len() - i,
    {
        let c = cs[i];
        let n: u32 = c as u32;
        if !(c == '\t' || (n >= 32 && n != 127)) {
            return false;
        }
        i += 1;
    }
    true
}

/// Whether `s` is made of tabs and visible ASCII characters only.
pub fn visible_ascii(s: &str) -> (r: bool)
    ensures
        r == is_visible_ascii(s@),
{
    let cs = chars_of(s);
    let mut i: usize = 0;
    while i < cs.len()
        invariant
            i <= cs.len(),
            cs@ == s@,
            forall|j: int| 0 <= j < i ==> is_visible_char(cs@[j]),
        decreases cs.len() - i,
    {
        let c = cs[i];
        let n: u32 = c as u32;
        if !(c == '\t' || (32 <= n && n < 127)) {
            return false;
        }
        i += 1;
    }
    true
}

/// Whether every pair of `p` has a header name, in its kept form, for key
/// and a header value for value, and no two pairs have the same name.
pub open spec fn is_header_list(p: PairSeq) -> bool {
    &&& distinct_keys(p)
    &&& forall|i: int| 0 <= i < p.len() ==> header_name_of(#[trigger] p[i].0) == Some(p[i].0)
    &&& forall|i: int| 0 <= i < p.len() ==> is_header_value(#[trigger] p[i].1)
}

/// The headers of a request or of a response. Names are kept in lower case,
/// each name once, in the order in which the names first came.
#[derive(Debug)]
pub struct HeaderMap {
    entries: Vec<(String, String)>,
}

impl View for HeaderMap {
    type V = PairSeq;

    closed spec fn view(&self) -> PairSeq {
        pairs_of(self.entries@)
    }
}

impl HeaderMap {
    #[verifier::type_invariant]
    spec fn well_formed(self) -> bool {
        is_header_list(pairs_of(self.entries@))
    }

    /// A map without headers.
    pub fn new() -> (r: HeaderMap)
        ensures
            r@ == Seq::<(Seq<char>, Seq<char>)>::empty(),
    {
        let r = HeaderMap { entries: Vec::new() };
        assert(pairs_of(r.entries@) =~= Seq::<(Seq<char>, Seq<char>)>::empty());
        r
    }

    /// The number of headers. Every map is a header list: the contract
    /// says so for this one.
    pub fn len(&self) -> (r: usize)
        ensures
            r == self@.len(),
            is_header_list(self@),
    {
        proof {
            use_type_invariant(self);
        }
        self.entries.len()
    }

    /// Whether the map holds no header.
    pub fn is_empty(&self) -> (r: bool)
        ensures
            r == (self@.len() == 0),
    {
        self.entries.len() == 0
    }

    /// Sets the header `name` to `value`. A name already present keeps its
    /// place and takes the new value; a new name goes to the end. Where
    /// `name` cannot name a header or `value` cannot be a header value, the
    /// map is left as it was and the answer is `false`.
    pub fn insert(&mut self, name: &str, value: &str) -> (r: bool)
        ensures
            r == (header_name_of(name@).is_some() && is_header_value(value@)),
            r ==> final(self)@ == upsert(old(self)@, header_name_of(name@).unwrap(), value@),
            !r ==> final(self)@ == old(self)@,
    {
        proof {
            use_type_invariant(&*self);
        }
        match header_name(name) {
            Some(kept) => {
                if header_value_ok(value) {
                    let ghost before = pairs_of(self.entries@);
                    let text = crate::text::owned(value);
                    proof {
                        crate::pairs::lemma_upsert_distinct(before, kept@, text@);
                        lemma_kept_name(name@);
                        lemma_key_index_from(before, kept@, 0);
                    }
                    let mut taken = HeaderMap { entries: Vec::new() };
                    std::mem::swap(self, &mut taken);
                    let mut entries = taken.entries;
                    put(&mut entries, kept, text);
                    *self = HeaderMap { entries };
                    true
                } else {
                    false
                }
            },
            None => false,
        }
    }

    /// The value of the header `name`, whatever the case of its letters.
    pub fn get(&self, name: &str) -> (r: Option<&String>)
        ensures
            match header_name_of(name@) {
                Some(kept) => r.is_some() == has_key(self@, kept) && (r matches Some(v) ==> Some(
                    v@,
                ) == lookup(self@, kept)),
                None => r.is_none(),
            },
    {
        match header_name(name) {
            Some(kept) => find_value(&self.entries, &kept),
            None => None,
        }
    }

    /// Whether the map holds the header `name`, whatever the case of its
    /// letters.
    pub fn contains_key(&self, name: &str) -> (r: bool)
        ensures
            r == match header_name_of(name@) {
                Some(kept) => has_key(self@, kept),
                None => false,
            },
    {
        self.get(name).is_some()
    }

    /// The name of the header at place `i`.
    pub fn name_at(&self, i: usize) -> (r: &String)
        requires
            i < self@.len(),
        ensures
            r@ == self@[i as int].0,
    {
        &self.entries[i].0
    }

    /// The value of the header at place `i`.
    pub fn value_at(&self, i: usize) -> (r: &String)
        requires
            i < self@.len(),
        ensures
            r@ == self@[i as int].1,
    {
        &self.entries[i].1
    }

    /// The headers as pairs, in order.
    pub fn to_pairs(&self) -> (r: Vec<(String, String)>)
        ensures
            pairs_of(r@) == self@,
    {
        clone_pairs(&self.entries)
    }

    /// A copy of the map.
    pub fn duplicate(&self) -> (r: HeaderMap)
        ensures
            r@ == self@,
    {
        proof {
            use_type_invariant(self);
        }
        HeaderMap { entries: clone_pairs(&self.entries) }
    }
}

impl PartialEq for HeaderMap {
    fn eq(&self, other: &HeaderMap) -> (r: bool) {
        crate::pairs::same_pairs(&self.entries, &other.entries)
    }
}

impl PartialEqSpecImpl for HeaderMap {
    open spec fn obeys_eq_spec() -> bool {
        true
    }

    open spec fn eq_spec(&self, other: &HeaderMap) -> bool {
        self@ == other@
    }
}

impl Clone for HeaderMap {
    fn clone(&self) -> (r: HeaderMap)
        ensures
            r@ == self@,
    {
        self.duplicate()
    }
}

/// `h` with the header `name` set to `value`; `h` itself where `name` cannot
/// name a header or `value` cannot be a header value.
pub open spec fn set_header(h: PairSeq, name: Seq<char>, value: Seq<char>) -> PairSeq {
    if header_name_of(name).is_some() && is_header_value(value) {
        upsert(h, header_name_of(name).unwrap(), value)
    } else {
        h
    }
}

/// `h` with the first `n` of `pairs` set as headers, one after the other.
pub open spec fn set_headers_upto(h: PairSeq, pairs: PairSeq, n: int) -> PairSeq
    decreases n,
{
    if n <= 0 || n > pairs.len() {
        h
    } else {
        set_header(set_headers_upto(h, pairs, n - 1), pairs[n - 1].0, pairs[n - 1].1)
    }
}

/// `h` with all of `pairs` set as headers, one after the other.
pub open spec fn set_headers(h: PairSeq, pairs: PairSeq) -> PairSeq {
    set_headers_upto(h, pairs, pairs.len() as int)
}

impl HeaderMap {
    /// Sets every pair of `pairs` as a header, in order; a pair whose name
    /// or value cannot stand in a header is passed over.
    pub fn insert_all(&mut self, pairs: &[(String, String)])
        ensures
            final(self)@ == set_headers(old(self)@, pairs_of(pairs@)),
    {
        let ghost start = self@;
        let mut i: usize = 0;
        while i < pairs.len()
            invariant
                i <= pairs.len(),
                self@ == set_headers_upto(start, pairs_of(pairs@), i as int),
            decreases pairs.len() - i,
        {
            self.insert(pairs[i].0.as_str(), pairs[i].1.as_str());
            i += 1;
        }
    }

    /// Sets every header of `other` in this map, in the order of `other`.
    pub fn extend(&mut self, other: &HeaderMap)
        ensures
            final(self)@ == set_headers(old(self)@, other@),
    {
        self.insert_all(other.entries.as_slice());
    }
}

/// The header map of a list of pairs: each pair is set in turn; a pair whose
/// name or value cannot stand in a header is passed over.
pub fn headers_to_map(headers: Vec<(String, String)>) -> (r: HeaderMap)
    ensures
        r@ == set_headers(Seq::empty(), pairs_of(headers@)),
{
    let mut map = HeaderMap::new();
    map.insert_all(headers.as_slice());
    map
}

/// The kept form of a header name is a header name, and its own kept form.
pub proof fn lemma_kept_name(s: Seq<char>)
    requires
        is_header_name(s),
    ensures
        header_name_of(ascii_lowered(s)) == Some(ascii_lowered(s)),
{
    let t = ascii_lowered(s);
    assert forall|i: int| 0 <= i < t.len() implies is_name_char(t[i]) && ascii_lower(t[i])
        == t[i] by {
        lemma_lower_name_char(s[i]);
    }
    assert(ascii_lowered(t) =~= t);
}

} // verus!
