//! Ordered lists of key/value strings: variables, headers, form fields.

use vstd::prelude::*;

verus! {

/// An ordered list of key/value pairs.
pub type KeyValuePairs = Vec<(String, String)>;

/// Header pairs, as given on the command line or in a collection.
pub type Headers = KeyValuePairs;

/// Body fields, as given on the command line or in a collection.
pub type FormData = KeyValuePairs;

/// What `parse_params` and `validate_params` return: headers, then body fields.
pub type HeaderDataTuple = (Headers, FormData);

/// The mathematical content of a list of pairs.
pub type PairSeq = Seq<(Seq<char>, Seq<char>)>;

/// The pairs of `v`, each string taken by its characters.
pub open spec fn pairs_of(v: Seq<(String, String)>) -> PairSeq {
    Seq::new(v.len(), |i: int| (v[i].0@, v[i].1@))
}

/// The first index at or after `from` whose key is `key`, or `p.len()`.
pub open spec fn key_index_from<V>(p: Seq<(Seq<char>, V)>, key: Seq<char>, from: int) -> int
    decreases p.len() - from,
{
    if from < 0 || from >= p.len() {
        p.len() as int
    } else if p[from].0 == key {
        from
    } else {
        key_index_from(p, key, from + 1)
    }
}

/// The first index whose key is `key`, or `p.len()` if no pair has it.
pub open spec fn key_index<V>(p: Seq<(Seq<char>, V)>, key: Seq<char>) -> int {
    key_index_from(p, key, 0)
}

/// Whether some pair of `p` has the key `key`.
pub open spec fn has_key<V>(p: Seq<(Seq<char>, V)>, key: Seq<char>) -> bool {
    key_index(p, key) < p.len()
}

/// The value of the first pair of `p` whose key is `key`.
pub open spec fn lookup<V>(p: Seq<(Seq<char>, V)>, key: Seq<char>) -> Option<V> {
    if has_key(p, key) {
        Some(p[key_index(p, key)].1)
    } else {
        None
    }
}

/// `key_index_from` stays within bounds, lands on `key` when inside, and
/// passes over no pair with that key.
pub proof fn lemma_key_index_from<V>(p: Seq<(Seq<char>, V)>, key: Seq<char>, from: int)
    requires
        0 <= from <= p.len(),
    ensures
        from <= key_index_from(p, key, from) <= p.len(),
        key_index_from(p, key, from) < p.len() ==> p[key_index_from(p, key, from)].0 == key,
        forall|j: int| from <= j < key_index_from(p, key, from) ==> p[j].0 != key,
    decreases p.len() - from,
{
    if from < p.len() && p[from].0 != key {
        lemma_key_index_from(p, key, from + 1);
    }
}

/// Pushing a pair onto a list pushes its content onto the list's content.
pub proof fn lemma_pairs_push(v: Seq<(String, String)>, x: (String, String))
    ensures
        pairs_of(v.push(x)) == pairs_of(v).push((x.0@, x.1@)),
{
    assert(pairs_of(v.push(x)) =~= pairs_of(v).push((x.0@, x.1@)));
}

/// Whether no two pairs of `p` have the same key.
pub open spec fn distinct_keys<V>(p: Seq<(Seq<char>, V)>) -> bool {
    forall|i: int, j: int| 0 <= i < j < p.len() ==> p[i].0 != p[j].0
}

/// `p` with `value` under `key`: in the place of the first pair that has the
/// key, or at the end if no pair has it.
pub open spec fn upsert<V>(p: Seq<(Seq<char>, V)>, key: Seq<char>, value: V) -> Seq<(Seq<char>, V)> {
    let i = key_index(p, key);
    if i < p.len() {
        p.update(i, (key, value))
    } else {
        p.push((key, value))
    }
}

/// Putting a value under a key keeps the keys distinct.
pub proof fn lemma_upsert_distinct<V>(p: Seq<(Seq<char>, V)>, key: Seq<char>, value: V)
    requires
        distinct_keys(p),
    ensures
        distinct_keys(upsert(p, key, value)),
{
    lemma_key_index_from(p, key, 0);
}

/// Sets `key` to `value` in `v`: in the place of the first pair that has the
/// key, or at the end if no pair has it.
pub fn put(v: &mut Vec<(String, String)>, key: String, value: String)
    ensures
        pairs_of(final(v)@) == upsert(pairs_of(old(v)@), key@, value@),
{
    let i = position(v, &key);
    let ghost before = v@;
    if i < v.len() {
        v.set(i, (key, value));
        assert(pairs_of(v@) =~= pairs_of(before).update(i as int, (key@, value@)));
    } else {
        v.push((key, value));
        proof {
            lemma_pairs_push(before, (key, value));
        }
    }
}

/// The index of the first pair of `v` whose key is `key`, or `v.len()`.
pub fn position(v: &Vec<(String, String)>, key: &String) -> (r: usize)
    ensures
        r == key_index(pairs_of(v@), key@),
        r <= v.len(),
{
    let mut i: usize = 0;
    while i < v.len()
        invariant
            i <= v.len(),
            key_index(pairs_of(v@), key@) == key_index_from(pairs_of(v@), key@, i as int),
        decreases v.len() - i,
    {
        if v[i].0 == *key {
            return i;
        }
        i += 1;
    }
    i
}

/// The value of the first pair of `v` whose key is `key`.
pub fn find_value<'a>(v: &'a Vec<(String, String)>, key: &String) -> (r: Option<&'a String>)
    ensures
        r.is_some() == has_key(pairs_of(v@), key@),
        r matches Some(s) ==> Some(s@) == lookup(pairs_of(v@), key@),
{
    let i = position(v, key);
    if i < v.len() {
        Some(&v[i].1)
    } else {
        None
    }
}

/// Whether `a` and `b` hold the same pairs in the same order.
pub fn same_pairs(a: &Vec<(String, String)>, b: &Vec<(String, String)>) -> (r: bool)
    ensures
        r == (pairs_of(a@) == pairs_of(b@)),
{
    if a.len() != b.len() {
        assert(pairs_of(a@).len() != pairs_of(b@).len());
        return false;
    }
    let mut i: usize = 0;
    while i < a.len()
        invariant
            i <= a.len(),
            a.len() == b.len(),
            forall|k: int| 0 <= k < i ==> pairs_of(a@)[k] == pairs_of(b@)[k],
        decreases a.len() - i,
    {
        if !(a[i].0 == b[i].0 && a[i].1 == b[i].1) {
            assert(pairs_of(a@)[i as int] != pairs_of(b@)[i as int]);
            return false;
        }
        i += 1;
    }
    assert(pairs_of(a@) =~= pairs_of(b@));
    true
}

/// A copy of `v`.
pub fn clone_pairs(v: &Vec<(String, String)>) -> (r: Vec<(String, String)>)
    ensures
        pairs_of(r@) == pairs_of(v@),
{
    let mut r: Vec<(String, String)> = Vec::new();
    let mut i: usize = 0;
    while i < v.len()
        invariant
            i <= v.len(),
            pairs_of(r@) == pairs_of(v@).take(i as int),
        decreases v.len() - i,
    {
        let ghost before = r@;
        let pair = (v[i].0.clone(), v[i].1.clone());
        r.push(pair);
        proof {
            lemma_pairs_push(before, pair);
            assert(pairs_of(v@).take(i + 1) == pairs_of(v@).take(i as int).push(pairs_of(v@)[i as int]));
        }
        i += 1;
    }
    assert(pairs_of(v@).take(v.len() as int) == pairs_of(v@));
    r
}

} // verus!
