//! Form bodies: `key=value` pairs, percent-encoded and joined by `&`.

use crate::pairs::{lemma_pairs_push, pairs_of, PairSeq};
use crate::text::{
    chars_of, find_char, find_from, index_of, lemma_find_from, lemma_find_from_append,
    lemma_find_from_shift, push_char, split_once, substring,
};
use vstd::prelude::*;
use vstd::string::StringExecFns;
use vstd::utf8::encode_utf8;

verus! {

/// Whether the byte `b` is written as it stands: a letter, a digit, or one
/// of `-`, `.`, `_`, `~`.
pub open spec fn is_unreserved(b: u8) -> bool {
    (0x30 <= b <= 0x39) || (0x41 <= b <= 0x5A) || (0x61 <= b <= 0x7A) || b == 0x2D || b == 0x2E
        || b == 0x5F || b == 0x7E
}

/// The upper-case hexadecimal digit for `n`.
pub open spec fn hex_digit(n: int) -> char {
    if n < 10 {
        (n + 0x30) as char
    } else {
        (n - 10 + 0x41) as char
    }
}

/// The byte `b`, percent-encoded: itself if unreserved, else `%` and its two
/// upper-case hexadecimal digits.
pub open spec fn encoded_byte(b: u8) -> Seq<char> {
    if is_unreserved(b) {
        seq![b as char]
    } else {
        seq!['%', hex_digit(b as int / 16), hex_digit(b as int % 16)]
    }
}

/// The first `n` of `bytes`, percent-encoded.
pub open spec fn encoded_bytes(bytes: Seq<u8>, n: int) -> Seq<char>
    decreases n,
{
    if n <= 0 || n > bytes.len() {
        Seq::empty()
    } else {
        encoded_bytes(bytes, n - 1) + encoded_byte(bytes[n - 1])
    }
}

/// The text `s`, percent-encoded: each byte of its UTF-8 form in turn.
pub open spec fn percent_encoded(s: Seq<char>) -> Seq<char> {
    encoded_bytes(encode_utf8(s), encode_utf8(s).len() as int)
}

/// `urlencoding::encode`: percent-encodes every byte of the UTF-8 form of
/// `s` except the letters, the digits and `-`, `.`, `_`, `~`; a space
/// becomes `%20`.
#[verifier::external_body]
pub(crate) fn percent_encode(s: &str) -> (r: String)
    ensures
        r@ == percent_encoded(s@),
{
    urlencoding::encode(s).into_owned()
}

/// One pair on the wire: the key and the value, percent-encoded, with `=`
/// between them.
pub open spec fn pair_text(pair: (Seq<char>, Seq<char>)) -> Seq<char> {
    percent_encoded(pair.0) + seq!['='] + percent_encoded(pair.1)
}

/// The first `n` of `pairs` on the wire, joined by `&`.
pub open spec fn form_text_upto(pairs: PairSeq, n: int) -> Seq<char>
    decreases n,
{
    if n <= 0 || n > pairs.len() {
        Seq::empty()
    } else if n == 1 {
        pair_text(pairs[0])
    } else {
        form_text_upto(pairs, n - 1) + seq!['&'] + pair_text(pairs[n - 1])
    }
}

/// The form body of `pairs`, as it goes on the wire.
pub open spec fn form_text(pairs: PairSeq) -> Seq<char> {
    form_text_upto(pairs, pairs.len() as int)
}

/// The form body of `pairs`, as it goes on the wire.
pub fn encode_form(pairs: &[(String, String)]) -> (r: String)
    ensures
        r@ == form_text(pairs_of(pairs@)),
{
    let mut out = String::new();
    let mut i: usize = 0;
    while i < pairs.len()
        invariant
            i <= pairs.len(),
            out@ == form_text_upto(pairs_of(pairs@), i as int),
        decreases pairs.len() - i,
    {
        if i > 0 {
            push_char(&mut out, '&');
        }
        let key = percent_encode(pairs[i].0.as_str());
        let value = percent_encode(pairs[i].1.as_str());
        out.append(key.as_str());
        push_char(&mut out, '=');
        out.append(value.as_str());
        i += 1;
    }
    out
}

/// The pair that one piece of a form body stands for: what is before its
/// first `=` and what is after it; a piece without `=` is a key with an
/// empty value.
pub open spec fn piece_pair(piece: Seq<char>) -> (Seq<char>, Seq<char>) {
    match split_once(piece, '=') {
        Some((k, v)) => (k, v),
        None => (piece, Seq::empty()),
    }
}

/// The pairs of the pieces of `s` from index `from` on, where `&` parts the
/// pieces.
pub open spec fn form_pairs_from(s: Seq<char>, from: int) -> PairSeq
    decreases s.len() - from,
{
    if from < 0 || from > s.len() {
        Seq::empty()
    } else {
        let end = find_from(s, '&', from);
        let pair = piece_pair(s.subrange(from, end));
        if from <= end < s.len() {
            seq![pair] + form_pairs_from(s, end + 1)
        } else {
            seq![pair]
        }
    }
}

/// Whether `s` holds neither `&` nor `=`.
pub open spec fn is_plain(s: Seq<char>) -> bool {
    forall|i: int| 0 <= i < s.len() ==> s[i] != '&' && s[i] != '='
}

/// Percent-encoded bytes hold neither `&` nor `=`.
pub proof fn lemma_encoded_is_plain(bytes: Seq<u8>, n: int)
    requires
        0 <= n <= bytes.len(),
    ensures
        is_plain(encoded_bytes(bytes, n)),
    decreases n,
{
    if n > 0 {
        lemma_encoded_is_plain(bytes, n - 1);
        let b = bytes[n - 1];
        let e = encoded_byte(b);
        assert(is_plain(e)) by {
            if is_unreserved(b) {
                assert(e[0] == b as char);
            } else {
                assert(e[1] == hex_digit(b as int / 16));
                assert(e[2] == hex_digit(b as int % 16));
            }
        }
    }
}

/// A key and a value that hold no `=` are read back from `key=value`.
pub proof fn lemma_piece_read_back(k: Seq<char>, v: Seq<char>)
    requires
        is_plain(k),
    ensures
        piece_pair(k + seq!['='] + v) == (k, v),
{
    let t = k + seq!['='] + v;
    let sep = seq!['='] + v;
    assert(t =~= k + sep);
    lemma_find_from(k, '=', 0);
    lemma_find_from_append(k, sep, '=', 0);
    assert(sep[0] == '=');
    assert(index_of(t, '=') == k.len());
    assert(t.take(k.len() as int) =~= k);
    assert(t.skip(k.len() as int + 1) =~= v);
}

/// The pairs read behind a prefix are the pairs read from what follows it.
pub proof fn lemma_form_pairs_shift(a: Seq<char>, b: Seq<char>, j: int)
    requires
        0 <= j <= b.len(),
    ensures
        form_pairs_from(a + b, a.len() + j) == form_pairs_from(b, j),
    decreases b.len() - j,
{
    let ab = a + b;
    let k = a.len() + j;
    lemma_find_from(b, '&', j);
    lemma_find_from_shift(a, b, '&', j);
    let end = find_from(b, '&', j);
    assert(ab.subrange(k, a.len() + end) =~= b.subrange(j, end));
    if end < b.len() {
        lemma_form_pairs_shift(a, b, end + 1);
    }
}

/// A piece without `&` put behind a text, with `&` between them, adds its
/// pair to the pairs of the text.
pub proof fn lemma_form_pairs_append(a: Seq<char>, t: Seq<char>, from: int)
    requires
        0 <= from <= a.len(),
        !t.contains('&'),
    ensures
        form_pairs_from(a + seq!['&'] + t, from) == form_pairs_from(a, from).push(piece_pair(t)),
    decreases a.len() - from,
{
    let tail = seq!['&'] + t;
    let whole = a + tail;
    assert(a + seq!['&'] + t =~= whole);
    lemma_find_from(a, '&', from);
    lemma_find_from_append(a, tail, '&', from);
    let end = find_from(a, '&', from);
    assert(tail[0] == '&');
    assert(find_from(whole, '&', from) == end);
    assert(whole.subrange(from, end) =~= a.subrange(from, end));
    let pair = piece_pair(a.subrange(from, end));
    if end < a.len() {
        lemma_form_pairs_append(a, t, end + 1);
        assert(seq![pair] + form_pairs_from(a, end + 1).push(piece_pair(t)) =~= (seq![pair]
            + form_pairs_from(a, end + 1)).push(piece_pair(t)));
    } else {
        // What follows the `&` that was put in is `t` alone.
        let head = a + seq!['&'];
        assert(whole =~= head + t);
        lemma_form_pairs_shift(head, t, 0);
        lemma_find_from(t, '&', 0);
        assert(find_from(t, '&', 0) == t.len()) by {
            if find_from(t, '&', 0) < t.len() {
                assert(t.contains(t[find_from(t, '&', 0)]));
            }
        }
        assert(t.subrange(0, t.len() as int) =~= t);
        assert(form_pairs_from(t, 0) == seq![piece_pair(t)]);
        assert(seq![pair] + seq![piece_pair(t)] =~= seq![pair].push(piece_pair(t)));
    }
}

/// The text of one pair holds no `&`, and reads back as the encoded pair.
pub proof fn lemma_pair_text(pair: (Seq<char>, Seq<char>))
    ensures
        !pair_text(pair).contains('&'),
        piece_pair(pair_text(pair)) == (percent_encoded(pair.0), percent_encoded(pair.1)),
{
    let k = percent_encoded(pair.0);
    let v = percent_encoded(pair.1);
    lemma_encoded_is_plain(encode_utf8(pair.0), encode_utf8(pair.0).len() as int);
    lemma_encoded_is_plain(encode_utf8(pair.1), encode_utf8(pair.1).len() as int);
    lemma_piece_read_back(k, v);
    let t = pair_text(pair);
    assert forall|i: int| 0 <= i < t.len() implies t[i] != '&' by {
        if i < k.len() {
            assert(t[i] == k[i]);
        } else if i == k.len() {
            assert(t[i] == '=');
        } else {
            assert(t[i] == v[i - k.len() - 1]);
        }
    }
}

/// The pairs of `pairs`, each key and each value percent-encoded.
pub open spec fn encoded_pairs(pairs: PairSeq) -> PairSeq {
    Seq::new(pairs.len(), |i: int| (percent_encoded(pairs[i].0), percent_encoded(pairs[i].1)))
}

/// A form body reads back: the text of one pair or more, read into pairs as
/// they stand, gives the encoded pairs again, in order.
pub proof fn law_form_text_reads_back(pairs: PairSeq, n: int)
    requires
        1 <= n <= pairs.len(),
    ensures
        form_pairs_from(form_text_upto(pairs, n), 0) == encoded_pairs(pairs).take(n),
    decreases n,
{
    let last = pair_text(pairs[n - 1]);
    lemma_pair_text(pairs[n - 1]);
    if n == 1 {
        lemma_find_from(last, '&', 0);
        assert(find_from(last, '&', 0) == last.len()) by {
            if find_from(last, '&', 0) < last.len() {
                assert(last.contains(last[find_from(last, '&', 0)]));
            }
        }
        assert(last.subrange(0, last.len() as int) =~= last);
        assert(encoded_pairs(pairs).take(1) =~= seq![piece_pair(last)]);
    } else {
        law_form_text_reads_back(pairs, n - 1);
        lemma_form_pairs_append(form_text_upto(pairs, n - 1), last, 0);
        assert(encoded_pairs(pairs).take(n) =~= encoded_pairs(pairs).take(n - 1).push(
            piece_pair(last),
        ));
    }
}

/// Reads a form body into pairs, as they stand: nothing is decoded. The
/// pieces are parted by `&`; the empty text is one empty piece.
pub fn parse_form_to_key_value_pairs(form_str: &str) -> (r: Vec<(String, String)>)
    ensures
        pairs_of(r@) == form_pairs_from(form_str@, 0),
{
    let cs = chars_of(form_str);
    let mut out: Vec<(String, String)> = Vec::new();
    assert(pairs_of(out@) =~= Seq::<(Seq<char>, Seq<char>)>::empty());
    let mut from: usize = 0;
    loop
        invariant
            from <= cs.len(),
            cs@ == form_str@,
            form_pairs_from(cs@, 0) == pairs_of(out@) + form_pairs_from(cs@, from as int),
        decreases cs.len() - from,
    {
        proof {
            lemma_find_from(cs@, '&', from as int);
        }
        let end = find_char(&cs, '&', from);
        let ghost piece = cs@.subrange(from as int, end as int);
        let ghost before = out@;
        let ghost rest = form_pairs_from(cs@, from as int);
        // The piece, as a list of its own, to look for `=` in.
        let text = substring(&cs, from, end);
        let ps = chars_of(text.as_str());
        let eq = find_char(&ps, '=', 0);
        let pair = if eq < ps.len() {
            proof {
                assert(ps@.subrange(0, eq as int) == ps@.take(eq as int));
                assert(ps@.subrange(eq + 1, ps.len() as int) == ps@.skip(eq + 1));
            }
            (substring(&ps, 0, eq), substring(&ps, eq + 1, ps.len()))
        } else {
            (text, String::new())
        };
        assert((pair.0@, pair.1@) == piece_pair(piece));
        out.push(pair);
        proof {
            lemma_pairs_push(before, pair);
        }
        if end < cs.len() {
            proof {
                let tail = form_pairs_from(cs@, end + 1);
                assert(rest == seq![piece_pair(piece)] + tail);
                assert(pairs_of(before) + (seq![piece_pair(piece)] + tail) =~= pairs_of(
                    before,
                ).push(piece_pair(piece)) + tail);
            }
            from = end + 1;
        } else {
            proof {
                assert(rest == seq![piece_pair(piece)]);
                assert(pairs_of(before) + seq![piece_pair(piece)] =~= pairs_of(before).push(
                    piece_pair(piece),
                ));
            }
            return out;
        }
    }
}

} // verus!
