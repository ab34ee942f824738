//! The trailing parameters of the command line: `key:value` is a header,
//! `key=value` a body field, and `--form`, before all of them, asks for a
//! form body.

use crate::error::{concat3, CliError, CliErrorView, WaveError, WaveErrorView};
use crate::pairs::{lemma_pairs_push, pairs_of, PairSeq};
use crate::text::{chars_of, find_char, has_char, owned, split_once, str_eq, trim_range, trimmed};
use vstd::prelude::*;

verus! {

/// What one parameter is.
pub ghost enum Token {
    /// The flag `--form`.
    FormFlag,
    /// A header: key and value, trimmed.
    Header(Seq<char>, Seq<char>),
    /// A body field: key and value, trimmed.
    Field(Seq<char>, Seq<char>),
    /// Neither: it holds no `:` and no `=`.
    Malformed,
}

/// What the parameter `param` is. The first `:` makes it a header, whatever
/// follows; without a `:`, the first `=` makes it a body field.
pub open spec fn token_of(param: Seq<char>) -> Token {
    if param == "--form"@ {
        Token::FormFlag
    } else {
        match split_once(param, ':') {
            Some((k, v)) => Token::Header(trimmed(k), trimmed(v)),
            None => match split_once(param, '=') {
                Some((k, v)) => Token::Field(trimmed(k), trimmed(v)),
                None => Token::Malformed,
            },
        }
    }
}

/// The texts of `params`.
pub open spec fn texts_of(params: Seq<String>) -> Seq<Seq<char>> {
    Seq::new(params.len(), |i: int| params[i]@)
}

/// The headers among the first `n` of `params`, in order.
pub open spec fn headers_upto(params: Seq<Seq<char>>, n: int) -> PairSeq
    decreases n,
{
    if n <= 0 || n > params.len() {
        Seq::empty()
    } else {
        match token_of(params[n - 1]) {
            Token::Header(k, v) => headers_upto(params, n - 1).push((k, v)),
            _ => headers_upto(params, n - 1),
        }
    }
}

/// The body fields among the first `n` of `params`, in order.
pub open spec fn fields_upto(params: Seq<Seq<char>>, n: int) -> PairSeq
    decreases n,
{
    if n <= 0 || n > params.len() {
        Seq::empty()
    } else {
        match token_of(params[n - 1]) {
            Token::Field(k, v) => fields_upto(params, n - 1).push((k, v)),
            _ => fields_upto(params, n - 1),
        }
    }
}

/// The message for a parameter that holds no `:` and no `=`.
pub open spec fn malformed_message(param: Seq<char>) -> Seq<char> {
    "Parameter '"@ + param + "' must be in 'key:value' (header) or 'key=value' (body) format"@
}

/// The message for a `--form` that comes after a header or a body field.
pub open spec fn late_form_message() -> Seq<char> {
    "Parameter '--form' must come before every 'key:value' and 'key=value' parameter"@
}

/// What is wrong with the parameter `param`, if anything, where `seen` says
/// whether a header or a body field came before it.
pub open spec fn token_fault(param: Seq<char>, seen: bool) -> Option<CliErrorView> {
    match token_of(param) {
        Token::FormFlag => if seen {
            Some(CliErrorView::InvalidHeaderFormat(late_form_message()))
        } else {
            None
        },
        Token::Header(k, _) => if k.len() == 0 || k.contains(' ') {
            Some(CliErrorView::InvalidHeaderFormat(param))
        } else {
            None
        },
        Token::Field(k, _) => if k.len() == 0 {
            Some(CliErrorView::InvalidBodyFormat(param))
        } else {
            None
        },
        Token::Malformed => Some(CliErrorView::InvalidHeaderFormat(malformed_message(param))),
    }
}

/// Whether a header or a body field stands among the first `n` of `params`.
pub open spec fn seen_upto(params: Seq<Seq<char>>, n: int) -> bool {
    headers_upto(params, n).len() + fields_upto(params, n).len() > 0
}

/// The first fault among the first `n` of `params`, in order, if there is one.
pub open spec fn fault_upto(params: Seq<Seq<char>>, n: int) -> Option<CliErrorView>
    decreases n,
{
    if n <= 0 || n > params.len() {
        None
    } else {
        match fault_upto(params, n - 1) {
            Some(e) => Some(e),
            None => token_fault(params[n - 1], seen_upto(params, n - 1)),
        }
    }
}

/// What `validate_params` returns on `params`: the first fault, in order, or
/// the headers and the body fields.
pub open spec fn validated_params(params: Seq<Seq<char>>) -> Result<(PairSeq, PairSeq), WaveErrorView> {
    match fault_upto(params, params.len() as int) {
        Some(e) => Err(WaveErrorView::Cli(e)),
        None => Ok(
            (headers_upto(params, params.len() as int), fields_upto(params, params.len() as int)),
        ),
    }
}

/// Once a parameter is at fault, the fault stays whatever follows.
pub proof fn lemma_fault_stays(params: Seq<Seq<char>>, k: int, n: int)
    requires
        0 <= k <= n <= params.len(),
        fault_upto(params, k) is Some,
    ensures
        fault_upto(params, n) == fault_upto(params, k),
    decreases n - k,
{
    if k < n {
        lemma_fault_stays(params, k, n - 1);
    }
}

/// A `--form` that comes after a header or a body field is an error of the
/// command line: it is never passed over in silence.
pub proof fn law_late_form_flag_refused(params: Seq<Seq<char>>, k: int)
    requires
        0 <= k < params.len(),
        params[k] == "--form"@,
        seen_upto(params, k),
    ensures
        validated_params(params) is Err,
{
    if fault_upto(params, k) is None {
        assert(fault_upto(params, k + 1) is Some);
    } else {
        lemma_fault_stays(params, k, k + 1);
    }
    lemma_fault_stays(params, k + 1, params.len() as int);
}

/// One parameter, read.
enum Parsed {
    FormFlag,
    Header(String, String),
    Field(String, String),
    Malformed,
}

impl Parsed {
    spec fn token(self) -> Token {
        match self {
            Parsed::FormFlag => Token::FormFlag,
            Parsed::Header(k, v) => Token::Header(k@, v@),
            Parsed::Field(k, v) => Token::Field(k@, v@),
            Parsed::Malformed => Token::Malformed,
        }
    }
}

/// Reads one parameter.
fn read_token(param: &str) -> (r: Parsed)
    ensures
        r.token() == token_of(param@),
{
    if str_eq(param, "--form") {
        return Parsed::FormFlag;
    }
    let cs = chars_of(param);
    let i = find_char(&cs, ':', 0);
    if i < cs.len() {
        let k = trim_range(&cs, 0, i);
        let v = trim_range(&cs, i + 1, cs.len());
        proof {
            assert(cs@.subrange(0, i as int) == cs@.take(i as int));
            assert(cs@.subrange(i + 1, cs.len() as int) == cs@.skip(i + 1));
        }
        return Parsed::Header(k, v);
    }
    let j = find_char(&cs, '=', 0);
    if j < cs.len() {
        let k = trim_range(&cs, 0, j);
        let v = trim_range(&cs, j + 1, cs.len());
        proof {
            assert(cs@.subrange(0, j as int) == cs@.take(j as int));
            assert(cs@.subrange(j + 1, cs.len() as int) == cs@.skip(j + 1));
        }
        return Parsed::Field(k, v);
    }
    Parsed::Malformed
}

/// Reads the parameters leniently: each `key:value` gives a header, each
/// `key=value` a body field, both with key and value trimmed; `--form` and
/// whatever is neither are passed over.
pub fn parse_params(params: &[String]) -> (r: (Vec<(String, String)>, Vec<(String, String)>))
    ensures
        pairs_of(r.0@) == headers_upto(texts_of(params@), params@.len() as int),
        pairs_of(r.1@) == fields_upto(texts_of(params@), params@.len() as int),
{
    let ghost texts = texts_of(params@);
    let mut headers: Vec<(String, String)> = Vec::new();
    let mut data: Vec<(String, String)> = Vec::new();
    let mut i: usize = 0;
    assert(pairs_of(headers@) =~= Seq::<(Seq<char>, Seq<char>)>::empty());
    assert(pairs_of(data@) =~= Seq::<(Seq<char>, Seq<char>)>::empty());
    while i < params.len()
        invariant
            i <= params.len(),
            texts == texts_of(params@),
            pairs_of(headers@) == headers_upto(texts, i as int),
            pairs_of(data@) == fields_upto(texts, i as int),
        decreases params.len() - i,
    {
        let ghost h0 = headers@;
        let ghost d0 = data@;
        match read_token(params[i].as_str()) {
            Parsed::Header(k, v) => {
                let pair = (k, v);
                headers.push(pair);
                proof {
                    lemma_pairs_push(h0, pair);
                }
            },
            Parsed::Field(k, v) => {
                let pair = (k, v);
                data.push(pair);
                proof {
                    lemma_pairs_push(d0, pair);
                }
            },
            _ => {},
        }
        i += 1;
    }
    (headers, data)
}

/// Reads the parameters strictly. The first parameter, in order, that is at
/// fault gives the error: a header whose key is empty or holds a blank, a
/// body field whose key is empty, a parameter that is neither header nor
/// body field, or a `--form` that comes after a header or a body field.
/// Without a fault the headers and the body fields come back, each in order,
/// keys and values trimmed.
pub fn validate_params(params: &[String]) -> (r: Result<
    (Vec<(String, String)>, Vec<(String, String)>),
    WaveError,
>)
    ensures
        match validated_params(texts_of(params@)) {
            Ok((headers, fields)) => r matches Ok(out) && pairs_of(out.0@) == headers && pairs_of(
                out.1@,
            ) == fields,
            Err(e) => r matches Err(w) && w@ == e,
        },
{
    let ghost texts = texts_of(params@);
    let mut headers: Vec<(String, String)> = Vec::new();
    let mut data: Vec<(String, String)> = Vec::new();
    let mut i: usize = 0;
    assert(pairs_of(headers@) =~= Seq::<(Seq<char>, Seq<char>)>::empty());
    assert(pairs_of(data@) =~= Seq::<(Seq<char>, Seq<char>)>::empty());
    while i < params.len()
        invariant
            i <= params.len(),
            texts == texts_of(params@),
            fault_upto(texts, i as int) is None,
            pairs_of(headers@) == headers_upto(texts, i as int),
            pairs_of(data@) == fields_upto(texts, i as int),
        decreases params.len() - i,
    {
        let ghost h0 = headers@;
        let ghost d0 = data@;
        let param = params[i].as_str();
        let mut fault: Option<CliError> = None;
        match read_token(param) {
            Parsed::FormFlag => {
                if headers.len() > 0 || data.len() > 0 {
                    fault = Some(
                        CliError::InvalidHeaderFormat(
                            owned(
                                "Parameter '--form' must come before every 'key:value' and 'key=value' parameter",
                            ),
                        ),
                    );
                }
            },
            Parsed::Header(k, v) => {
                let kc = chars_of(k.as_str());
                if kc.len() == 0 || has_char(&kc, ' ') {
                    fault = Some(CliError::InvalidHeaderFormat(owned(param)));
                } else {
                    let pair = (k, v);
                    headers.push(pair);
                    proof {
                        lemma_pairs_push(h0, pair);
                    }
                }
            },
            Parsed::Field(k, v) => {
                if k.as_str().unicode_len() == 0 {
                    fault = Some(CliError::InvalidBodyFormat(owned(param)));
                } else {
                    let pair = (k, v);
                    data.push(pair);
                    proof {
                        lemma_pairs_push(d0, pair);
                    }
                }
            },
            Parsed::Malformed => {
                fault = Some(
                    CliError::InvalidHeaderFormat(
                        concat3(
                            "Parameter '",
                            param,
                            "' must be in 'key:value' (header) or 'key=value' (body) format",
                        ),
                    ),
                );
            },
        }
        match fault {
            Some(e) => {
                proof {
                    assert(fault_upto(texts, i + 1) == Some(e@));
                    lemma_fault_stays(texts, i + 1, texts.len() as int);
                }
                return Err(WaveError::Cli(e));
            },
            None => {},
        }
        i += 1;
    }
    Ok((headers, data))
}

/// Whether `--form` stands among the first `n` of `params`.
pub open spec fn form_flag_upto(params: Seq<Seq<char>>, n: int) -> bool
    decreases n,
{
    if n <= 0 || n > params.len() {
        false
    } else {
        form_flag_upto(params, n - 1) || params[n - 1] == "--form"@
    }
}

/// Whether `--form` stands among `params`. Where `validate_params` accepts
/// the parameters, a `--form` among them stands before every header and
/// every body field.
pub fn has_form_flag(params: &[String]) -> (r: bool)
    ensures
        r == form_flag_upto(texts_of(params@), params@.len() as int),
{
    let mut i: usize = 0;
    while i < params.len()
        invariant
            i <= params.len(),
            !form_flag_upto(texts_of(params@), i as int),
        decreases params.len() - i,
    {
        if str_eq(params[i].as_str(), "--form") {
            assert(form_flag_upto(texts_of(params@), i + 1));
            proof {
                lemma_form_flag_stays(texts_of(params@), i + 1, params@.len() as int);
            }
            return true;
        }
        i += 1;
    }
    false
}

/// A `--form` that was seen stays seen.
pub proof fn lemma_form_flag_stays(params: Seq<Seq<char>>, k: int, n: int)
    requires
        0 <= k <= n <= params.len(),
        form_flag_upto(params, k),
    ensures
        form_flag_upto(params, n),
    decreases n - k,
{
    if k < n {
        lemma_form_flag_stays(params, k, n - 1);
    }
}

} // verus!
