//! Character-level helpers on strings.
//!
//! Every function here works on the sequence of characters of a string
//! (its view), so that contracts elsewhere can be stated over `Seq<char>`.

use vstd::prelude::*;

verus! {

/// Whether `c` has the Unicode `White_Space` property, the class that
/// trimming removes.
pub open spec fn is_white_space(c: char) -> bool {
    let n = c as u32;
    (0x09 <= n <= 0x0D) || n == 0x20 || n == 0x85 || n == 0xA0 || n == 0x1680 || (0x2000 <= n
        <= 0x200A) || n == 0x2028 || n == 0x2029 || n == 0x202F || n == 0x205F || n == 0x3000
}

/// The first index at or after `from` at which `s` holds `c`, or `s.len()`
/// if there is none.
pub open spec fn find_from(s: Seq<char>, c: char, from: int) -> int
    decreases s.len() - from,
{
    if from < 0 || from >= s.len() {
        s.len() as int
    } else if s[from] == c {
        from
    } else {
        find_from(s, c, from + 1)
    }
}

/// The first index at which `s` holds `c`, or `s.len()` if there is none.
pub open spec fn index_of(s: Seq<char>, c: char) -> int {
    find_from(s, c, 0)
}

/// The two sides of the first `c` in `s`, if `s` holds one.
pub open spec fn split_once(s: Seq<char>, c: char) -> Option<(Seq<char>, Seq<char>)> {
    let i = index_of(s, c);
    if i < s.len() {
        Some((s.take(i), s.skip(i + 1)))
    } else {
        None
    }
}

/// The first index at or after `from` at which `s` holds no white space, or
/// `s.len()` if there is none.
pub open spec fn skip_white(s: Seq<char>, from: int) -> int
    decreases s.len() - from,
{
    if from < 0 || from >= s.len() {
        s.len() as int
    } else if !is_white_space(s[from]) {
        from
    } else {
        skip_white(s, from + 1)
    }
}

/// The end of `s.take(to)` once its trailing white space is dropped.
pub open spec fn drop_white(s: Seq<char>, to: int) -> int
    decreases to,
{
    if to <= 0 || to > s.len() {
        0
    } else if !is_white_space(s[to - 1]) {
        to
    } else {
        drop_white(s, to - 1)
    }
}

/// `s` without its leading and trailing white space.
pub open spec fn trimmed(s: Seq<char>) -> Seq<char> {
    let a = skip_white(s, 0);
    let b = drop_white(s, s.len() as int);
    if a < b {
        s.subrange(a, b)
    } else {
        Seq::empty()
    }
}

/// Whether `s` begins with `prefix`.
pub open spec fn starts_with(s: Seq<char>, prefix: Seq<char>) -> bool {
    prefix.len() <= s.len() && s.take(prefix.len() as int) == prefix
}

/// `find_from` stays within bounds, lands on `c` when inside, and passes
/// over no `c` on the way.
pub proof fn lemma_find_from(s: Seq<char>, c: char, from: int)
    requires
        0 <= from <= s.len(),
    ensures
        from <= find_from(s, c, from) <= s.len(),
        find_from(s, c, from) < s.len() ==> s[find_from(s, c, from)] == c,
        forall|j: int| from <= j < find_from(s, c, from) ==> s[j] != c,
    decreases s.len() - from,
{
    if from < s.len() && s[from] != c {
        lemma_find_from(s, c, from + 1);
    }
}

/// A search that starts behind a prefix is the search in what follows it.
pub proof fn lemma_find_from_shift(a: Seq<char>, b: Seq<char>, c: char, j: int)
    requires
        0 <= j <= b.len(),
    ensures
        find_from(a + b, c, a.len() + j) == a.len() + find_from(b, c, j),
    decreases b.len() - j,
{
    if j < b.len() {
        assert((a + b)[a.len() + j] == b[j]);
        if b[j] != c {
            lemma_find_from_shift(a, b, c, j + 1);
        }
    }
}

/// A search in a text that goes on: where it finds `c` in `a`, it finds it
/// there in `a + b` too; where it does not, it goes on into `b`.
pub proof fn lemma_find_from_append(a: Seq<char>, b: Seq<char>, c: char, from: int)
    requires
        0 <= from <= a.len(),
    ensures
        find_from(a, c, from) < a.len() ==> find_from(a + b, c, from) == find_from(a, c, from),
        find_from(a, c, from) >= a.len() ==> find_from(a + b, c, from) == a.len() + find_from(
            b,
            c,
            0,
        ),
    decreases a.len() - from,
{
    if from < a.len() {
        assert((a + b)[from] == a[from]);
        if a[from] != c {
            lemma_find_from_append(a, b, c, from + 1);
        }
    } else {
        lemma_find_from_shift(a, b, c, 0);
    }
}

/// `String::push` of std: appends one character to the string.
#[verifier::external_body]
pub(crate) fn push_char(s: &mut String, c: char)
    ensures
        final(s)@ == old(s)@.push(c),
{
    s.push(c)
}

/// The characters of `s`, in order.
pub fn chars_of(s: &str) -> (v: Vec<char>)
    ensures
        v@ == s@,
{
    let mut v: Vec<char> = Vec::new();
    let it0 = s.chars();
    for c in it: it0
        invariant
            v@ == it.seq().take(it.index()),
            it.seq() == s@,
    {
        v.push(c);
    }
    v
}

/// The string made of `v[from..to]`.
pub fn substring(v: &Vec<char>, from: usize, to: usize) -> (s: String)
    requires
        from <= to <= v.len(),
    ensures
        s@ == v@.subrange(from as int, to as int),
{
    let mut s = String::new();
    let mut i: usize = from;
    while i < to
        invariant
            from <= i <= to <= v.len(),
            s@ == v@.subrange(from as int, i as int),
        decreases to - i,
    {
        push_char(&mut s, v[i]);
        i += 1;
    }
    s
}

/// The string made of the characters of `v`, in order.
pub fn string_of(v: &Vec<char>) -> (s: String)
    ensures
        s@ == v@,
{
    let s = substring(v, 0, v.len());
    assert(v@.subrange(0, v.len() as int) == v@);
    s
}

/// An owned copy of `s`.
pub fn owned(s: &str) -> (r: String)
    ensures
        r@ == s@,
{
    let v = chars_of(s);
    string_of(&v)
}

/// Whether `a` and `b` hold the same characters.
pub fn same_chars(a: &Vec<char>, b: &Vec<char>) -> (r: bool)
    ensures
        r == (a@ == b@),
{
    if a.len() != b.len() {
        return false;
    }
    let mut i: usize = 0;
    while i < a.len()
        invariant
            i <= a.len(),
            a.len() == b.len(),
            a@.take(i as int) == b@.take(i as int),
        decreases a.len() - i,
    {
        if a[i] != b[i] {
            return false;
        }
        assert(a@.take(i + 1) == a@.take(i as int).push(a@[i as int]));
        assert(b@.take(i + 1) == b@.take(i as int).push(b@[i as int]));
        i += 1;
    }
    assert(a@.take(a.len() as int) == a@);
    assert(b@.take(b.len() as int) == b@);
    true
}

/// Whether `a` and `b` are the same text.
pub fn str_eq(a: &str, b: &str) -> (r: bool)
    ensures
        r == (a@ == b@),
{
    let x = chars_of(a);
    let y = chars_of(b);
    same_chars(&x, &y)
}

/// The first index at or after `from` at which `v` holds `c`, or `v.len()`.
pub fn find_char(v: &Vec<char>, c: char, from: usize) -> (r: usize)
    requires
        from <= v.len(),
    ensures
        r == find_from(v@, c, from as int),
        from <= r <= v.len(),
{
    let mut i: usize = from;
    while i < v.len()
        invariant
            from <= i <= v.len(),
            find_from(v@, c, from as int) == find_from(v@, c, i as int),
        decreases v.len() - i,
    {
        if v[i] == c {
            return i;
        }
        i += 1;
    }
    i
}

/// Whether `v` holds `c`.
pub fn has_char(v: &Vec<char>, c: char) -> (r: bool)
    ensures
        r == v@.contains(c),
{
    let i = find_char(v, c, 0);
    proof {
        lemma_find_from(v@, c, 0);
    }
    i < v.len()
}

/// Whether `c` is white space.
pub fn white_space(c: char) -> (r: bool)
    ensures
        r == is_white_space(c),
{
    let n: u32 = c as u32;
    (0x09 <= n && n <= 0x0D) || n == 0x20 || n == 0x85 || n == 0xA0 || n == 0x1680 || (0x2000
        <= n && n <= 0x200A) || n == 0x2028 || n == 0x2029 || n == 0x202F || n == 0x205F || n
        == 0x3000
}

/// `v[from..to]` without its leading and trailing white space.
pub fn trim_range(v: &Vec<char>, from: usize, to: usize) -> (s: String)
    requires
        from <= to <= v.len(),
    ensures
        s@ == trimmed(v@.subrange(from as int, to as int)),
{
    let ghost part = v@.subrange(from as int, to as int);
    let mut a: usize = from;
    while a < to && white_space(v[a])
        invariant
            from <= a <= to <= v.len(),
            part == v@.subrange(from as int, to as int),
            skip_white(part, 0) == skip_white(part, a - from),
        decreases to - a,
    {
        a += 1;
    }
    let mut b: usize = to;
    while b > from && white_space(v[b - 1])
        invariant
            from <= b <= to <= v.len(),
            part == v@.subrange(from as int, to as int),
            drop_white(part, part.len() as int) == drop_white(part, b - from),
        decreases b,
    {
        b -= 1;
    }
    if a < b {
        let s = substring(v, a, b);
        assert(part.subrange(a - from, b - from) == v@.subrange(a as int, b as int));
        s
    } else {
        String::new()
    }
}

/// Whether `v` begins with the characters of `prefix`.
pub fn has_prefix(v: &Vec<char>, prefix: &str) -> (r: bool)
    ensures
        r == starts_with(v@, prefix@),
{
    let p = chars_of(prefix);
    if p.len() > v.len() {
        return false;
    }
    let mut i: usize = 0;
    while i < p.len()
        invariant
            i <= p.len() <= v.len(),
            p@ == prefix@,
            v@.take(i as int) == p@.take(i as int),
        decreases p.len() - i,
    {
        if v[i] != p[i] {
            assert(v@.take(p.len() as int)[i as int] == v@[i as int]);
            return false;
        }
        assert(v@.take(i + 1) == v@.take(i as int).push(v@[i as int]));
        assert(p@.take(i + 1) == p@.take(i as int).push(p@[i as int]));
        i += 1;
    }
    assert(p@.take(p.len() as int) == p@);
    true
}

} // verus!
