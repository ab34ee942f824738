//! Putting the parameters of the command line over what a collection gives.
//!
//! A key that both sides have keeps its place among the collection's pairs
//! and takes the value of the command line; a key that only the command line
//! has goes to the end, in the order of the command line.

use crate::pairs::{key_index, key_index_from, lemma_key_index_from, lemma_pairs_push, lookup, pairs_of, put, upsert, PairSeq};
use vstd::prelude::*;

verus! {

/// `base` with the first `n` pairs of `over` put over it, one after the other.
pub open spec fn merged_upto(base: PairSeq, over: PairSeq, n: int) -> PairSeq
    decreases n,
{
    if n <= 0 || n > over.len() {
        base
    } else {
        upsert(merged_upto(base, over, n - 1), over[n - 1].0, over[n - 1].1)
    }
}

/// `base` with the pairs of `over` put over it, one after the other.
pub open spec fn merged(base: PairSeq, over: PairSeq) -> PairSeq {
    merged_upto(base, over, over.len() as int)
}

/// The value of the last pair among the first `n` of `p` whose key is `key`.
pub open spec fn last_value_upto(p: PairSeq, key: Seq<char>, n: int) -> Option<Seq<char>>
    decreases n,
{
    if n <= 0 || n > p.len() {
        None
    } else if p[n - 1].0 == key {
        Some(p[n - 1].1)
    } else {
        last_value_upto(p, key, n - 1)
    }
}

/// The value of the last pair of `p` whose key is `key`.
pub open spec fn last_value(p: PairSeq, key: Seq<char>) -> Option<Seq<char>> {
    last_value_upto(p, key, p.len() as int)
}

/// Two lists with the same keys in the same places give a search the same
/// answer.
pub proof fn lemma_key_index_same<V>(
    p: Seq<(Seq<char>, V)>,
    q: Seq<(Seq<char>, V)>,
    key: Seq<char>,
    from: int,
    to: int,
)
    requires
        0 <= from <= to <= p.len(),
        to <= q.len(),
        forall|j: int| from <= j < to ==> p[j].0 == q[j].0,
        key_index_from(p, key, from) < to,
    ensures
        key_index_from(q, key, from) == key_index_from(p, key, from),
    decreases to - from,
{
    lemma_key_index_from(p, key, from);
    assert(q[from].0 == p[from].0);
    if p[from].0 != key {
        lemma_key_index_same(p, q, key, from + 1, to);
    }
}

/// A search that finds nothing in `p` finds in `p.push(x)` what `x` gives.
pub proof fn lemma_key_index_push<V>(
    p: Seq<(Seq<char>, V)>,
    x: (Seq<char>, V),
    key: Seq<char>,
    from: int,
)
    requires
        0 <= from <= p.len(),
        key_index_from(p, key, from) == p.len(),
    ensures
        key_index_from(p.push(x), key, from) == if x.0 == key {
            p.len() as int
        } else {
            p.len() as int + 1
        },
    decreases p.len() - from,
{
    let q = p.push(x);
    if from < p.len() {
        assert(q[from] == p[from]);
        assert(p[from].0 != key);
        lemma_key_index_push(p, x, key, from + 1);
    } else {
        assert(q[from] == x);
        assert(key_index_from(q, key, from + 1) == q.len());
    }
}

/// After `value` is put under `key`, a lookup of `key` gives `value`, and
/// every other lookup gives what it gave before.
pub proof fn lemma_lookup_upsert<V>(
    p: Seq<(Seq<char>, V)>,
    key: Seq<char>,
    value: V,
    other: Seq<char>,
)
    ensures
        lookup(upsert(p, key, value), other) == if other == key {
            Some(value)
        } else {
            lookup(p, other)
        },
{
    let q = upsert(p, key, value);
    let i = key_index(p, key);
    lemma_key_index_from(p, key, 0);
    lemma_key_index_from(p, other, 0);
    lemma_key_index_from(q, other, 0);
    let a = key_index(p, other);
    if i < p.len() {
        // `q` has the keys of `p`, in the same places.
        assert forall|j: int| 0 <= j < p.len() implies p[j].0 == q[j].0 by {}
        if a < p.len() {
            lemma_key_index_same(p, q, other, 0, p.len() as int);
        } else {
            let b = key_index(q, other);
            if b < q.len() {
                assert(q[b].0 == other);
                assert(p[b].0 == other);
            }
        }
    } else {
        if a < p.len() {
            assert forall|j: int| 0 <= j < p.len() implies p[j].0 == q[j].0 by {}
            lemma_key_index_same(p, q, other, 0, p.len() as int);
        } else {
            lemma_key_index_push(p, (key, value), other, 0);
        }
    }
}

/// Putting a value under a key moves no pair: every pair that was there
/// keeps its place and its key.
pub proof fn lemma_upsert_keeps_places<V>(p: Seq<(Seq<char>, V)>, key: Seq<char>, value: V)
    ensures
        upsert(p, key, value).len() >= p.len(),
        forall|j: int| 0 <= j < p.len() ==> upsert(p, key, value)[j].0 == p[j].0,
{
    lemma_key_index_from(p, key, 0);
}

/// Merging nothing changes nothing.
pub proof fn law_merge_nothing(base: PairSeq)
    ensures
        merged(base, Seq::empty()) == base,
{
}

/// Merging moves no pair of the collection: each keeps its place and its
/// key, and what the command line adds comes after them.
pub proof fn law_merge_keeps_places(base: PairSeq, over: PairSeq)
    ensures
        merged(base, over).len() >= base.len(),
        forall|j: int| 0 <= j < base.len() ==> merged(base, over)[j].0 == base[j].0,
{
    lemma_merge_keeps_places_upto(base, over, over.len() as int);
}

proof fn lemma_merge_keeps_places_upto(base: PairSeq, over: PairSeq, n: int)
    requires
        0 <= n <= over.len(),
    ensures
        merged_upto(base, over, n).len() >= base.len(),
        forall|j: int| 0 <= j < base.len() ==> merged_upto(base, over, n)[j].0 == base[j].0,
    decreases n,
{
    if n > 0 {
        lemma_merge_keeps_places_upto(base, over, n - 1);
        lemma_upsert_keeps_places(merged_upto(base, over, n - 1), over[n - 1].0, over[n - 1].1);
    }
}

/// The command line wins: after a merge, a key that the command line gives
/// has the value that the command line gave it last, and any other key has
/// the value that the collection gives it.
pub proof fn law_merge_precedence(base: PairSeq, over: PairSeq, key: Seq<char>)
    ensures
        lookup(merged(base, over), key) == match last_value(over, key) {
            Some(v) => Some(v),
            None => lookup(base, key),
        },
{
    lemma_merge_precedence_upto(base, over, key, over.len() as int);
}

proof fn lemma_merge_precedence_upto(base: PairSeq, over: PairSeq, key: Seq<char>, n: int)
    requires
        0 <= n <= over.len(),
    ensures
        lookup(merged_upto(base, over, n), key) == match last_value_upto(over, key, n) {
            Some(v) => Some(v),
            None => lookup(base, key),
        },
    decreases n,
{
    if n > 0 {
        lemma_merge_precedence_upto(base, over, key, n - 1);
        lemma_lookup_upsert(merged_upto(base, over, n - 1), over[n - 1].0, over[n - 1].1, key);
    }
}

/// `base` with the pairs of `over` put over it, one after the other.
pub fn merge_pairs(base: &[(String, String)], over: &[(String, String)]) -> (r: Vec<
    (String, String),
>)
    ensures
        pairs_of(r@) == merged(pairs_of(base@), pairs_of(over@)),
{
    let mut out: Vec<(String, String)> = Vec::new();
    let mut i: usize = 0;
    assert(pairs_of(out@) =~= pairs_of(base@).take(0));
    while i < base.len()
        invariant
            i <= base.len(),
            pairs_of(out@) == pairs_of(base@).take(i as int),
        decreases base.len() - i,
    {
        let ghost before = out@;
        let pair = (base[i].0.clone(), base[i].1.clone());
        out.push(pair);
        proof {
            lemma_pairs_push(before, pair);
            assert(pairs_of(base@).take(i + 1) == pairs_of(base@).take(i as int).push(
                pairs_of(base@)[i as int],
            ));
        }
        i += 1;
    }
    assert(pairs_of(base@).take(base@.len() as int) == pairs_of(base@));
    let mut j: usize = 0;
    while j < over.len()
        invariant
            j <= over.len(),
            pairs_of(out@) == merged_upto(pairs_of(base@), pairs_of(over@), j as int),
        decreases over.len() - j,
    {
        put(&mut out, over[j].0.clone(), over[j].1.clone());
        j += 1;
    }
    out
}

/// Puts the headers and the body fields of the command line over those of
/// the collection. For a key that both sides have, the value of the command
/// line takes the place of the collection's; a key that only the command
/// line has goes to the end.
pub fn merge_headers_and_body(
    collection_headers: &[(String, String)],
    collection_body: &[(String, String)],
    cli_headers: &[(String, String)],
    cli_body: &[(String, String)],
) -> (r: (Vec<(String, String)>, Vec<(String, String)>))
    ensures
        pairs_of(r.0@) == merged(pairs_of(collection_headers@), pairs_of(cli_headers@)),
        pairs_of(r.1@) == merged(pairs_of(collection_body@), pairs_of(cli_body@)),
{
    let headers = merge_pairs(collection_headers, cli_headers);
    let body = merge_pairs(collection_body, cli_body);
    (headers, body)
}

} // verus!
