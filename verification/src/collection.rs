//! Collections of named request templates, and the placeholders in them.
//!
//! A template string may hold placeholders: `${name}` stands for a variable
//! of the collection file, `${env:NAME}` for a variable of the environment.

use crate::http::method::Method;
use crate::pairs::{find_value, lemma_pairs_push, lookup, pairs_of, PairSeq};
use crate::text::str_eq;
use crate::value::{lemma_yaml_fields_push, yaml_fields_of, YamlValue, YamlView};
use crate::text::{
    chars_of, find_char, find_from, lemma_find_from, lemma_find_from_shift, push_char,
    starts_with, substring,
};
use vstd::prelude::*;
use vstd::string::StringExecFns;

verus! {

/// Where a variable is looked up.
#[derive(Debug, Clone, Copy, PartialEq, Eq, Structural)]
pub enum VariableKind {
    /// Among the variables of the collection file.
    File,
    /// Among the variables of the environment.
    Environment,
}

/// A placeholder names a variable that is not defined.
#[derive(Debug, PartialEq)]
pub struct MissingVariable {
    pub kind: VariableKind,
    pub name: String,
}

impl View for MissingVariable {
    type V = (VariableKind, Seq<char>);

    open spec fn view(&self) -> (VariableKind, Seq<char>) {
        (self.kind, self.name@)
    }
}

/// The message for a variable of kind `kind` and name `name` that is missing.
pub open spec fn missing_message(kind: VariableKind, name: Seq<char>) -> Seq<char> {
    match kind {
        VariableKind::File => "Missing variable: "@ + name,
        VariableKind::Environment => "Missing environment variable: "@ + name,
    }
}

impl MissingVariable {
    /// The message shown for this error.
    pub fn to_string(&self) -> (r: String)
        ensures
            r@ == missing_message(self.kind, self.name@),
    {
        match self.kind {
            VariableKind::File => String::from_str("Missing variable: ").concat(
                self.name.as_str(),
            ),
            VariableKind::Environment => String::from_str("Missing environment variable: ").concat(
                self.name.as_str(),
            ),
        }
    }
}

/// The prefix that marks a variable of the environment.
pub open spec fn env_prefix() -> Seq<char> {
    seq!['e', 'n', 'v', ':']
}

/// What stands between `${` and `}`, resolved: a name that begins with
/// `env:` is looked up, without the prefix, in `env`; any other name is
/// looked up, as it stands, in `file`.
pub open spec fn variable_value(name: Seq<char>, file: PairSeq, env: PairSeq) -> Result<
    Seq<char>,
    (VariableKind, Seq<char>),
> {
    if starts_with(name, env_prefix()) {
        match lookup(env, name.skip(4)) {
            Some(v) => Ok(v),
            None => Err((VariableKind::Environment, name.skip(4))),
        }
    } else {
        match lookup(file, name) {
            Some(v) => Ok(v),
            None => Err((VariableKind::File, name)),
        }
    }
}

/// Whether a placeholder opens at index `i` of `input`.
pub open spec fn opens_at(input: Seq<char>, i: int) -> bool {
    0 <= i && i + 1 < input.len() && input[i] == '$' && input[i + 1] == '{'
}

/// The end of the name of the placeholder that opens at `i`: the index of
/// the first `}` after the opening, or the end of `input` if no `}` follows.
pub open spec fn name_end(input: Seq<char>, i: int) -> int {
    find_from(input, '}', i + 2)
}

/// The index at which the scan goes on after the placeholder that opens at `i`.
pub open spec fn after_placeholder(input: Seq<char>, i: int) -> int {
    if name_end(input, i) < input.len() {
        name_end(input, i) + 1
    } else {
        input.len() as int
    }
}

/// `r` with `prefix` put before its text, if it is one.
pub open spec fn prepend(prefix: Seq<char>, r: Result<Seq<char>, (VariableKind, Seq<char>)>)
    -> Result<Seq<char>, (VariableKind, Seq<char>)> {
    match r {
        Ok(rest) => Ok(prefix + rest),
        Err(e) => Err(e),
    }
}

/// The resolution of `input` from index `from` on. The scan goes from left to
/// right. A placeholder is replaced by the value of its variable; the value
/// is not scanned again. Any other character is copied. The first variable
/// that is missing ends the scan with its error. A `${` that no `}` closes
/// takes the rest of the input for its name.
pub open spec fn resolved_from(input: Seq<char>, from: int, file: PairSeq, env: PairSeq)
    -> Result<Seq<char>, (VariableKind, Seq<char>)>
    decreases input.len() - from,
{
    if from < 0 || from >= input.len() {
        Ok(Seq::empty())
    } else if opens_at(input, from) {
        proof {
            lemma_after_placeholder(input, from);
        }
        match variable_value(input.subrange(from + 2, name_end(input, from)), file, env) {
            Ok(value) => prepend(
                value,
                resolved_from(input, after_placeholder(input, from), file, env),
            ),
            Err(e) => Err(e),
        }
    } else {
        prepend(seq![input[from]], resolved_from(input, from + 1, file, env))
    }
}

/// The resolution of `input` with the variables `file` and `env`.
pub open spec fn resolved(input: Seq<char>, file: PairSeq, env: PairSeq) -> Result<
    Seq<char>,
    (VariableKind, Seq<char>),
> {
    resolved_from(input, 0, file, env)
}

/// The scan moves on after a placeholder, and stays within the input.
pub proof fn lemma_after_placeholder(input: Seq<char>, i: int)
    requires
        opens_at(input, i),
    ensures
        i + 2 <= name_end(input, i) <= input.len(),
        i + 2 <= after_placeholder(input, i) <= input.len(),
{
    lemma_find_from(input, '}', i + 2);
}

/// Whether no placeholder opens anywhere in `s`.
pub open spec fn placeholder_free(s: Seq<char>) -> bool {
    forall|i: int| !opens_at(s, i)
}

/// The text of the placeholder for the variable `name`.
pub open spec fn placeholder(name: Seq<char>) -> Seq<char> {
    seq!['$', '{'] + name + seq!['}']
}

/// A resolution that starts behind a prefix is the resolution of what
/// follows it.
pub proof fn lemma_resolved_shift(a: Seq<char>, b: Seq<char>, j: int, file: PairSeq, env: PairSeq)
    requires
        0 <= j <= b.len(),
    ensures
        resolved_from(a + b, a.len() + j, file, env) == resolved_from(b, j, file, env),
    decreases b.len() - j,
{
    let ab = a + b;
    let k = a.len() + j;
    if j < b.len() {
        assert(ab[k] == b[j]);
        if j + 1 < b.len() {
            assert(ab[k + 1] == b[j + 1]);
        }
        if opens_at(b, j) {
            assert(opens_at(ab, k));
            lemma_after_placeholder(b, j);
            lemma_find_from_shift(a, b, '}', j + 2);
            assert(name_end(ab, k) == a.len() + name_end(b, j));
            assert(ab.subrange(k + 2, name_end(ab, k)) =~= b.subrange(j + 2, name_end(b, j)));
            lemma_resolved_shift(a, b, after_placeholder(b, j), file, env);
        } else {
            assert(!opens_at(ab, k));
            lemma_resolved_shift(a, b, j + 1, file, env);
        }
    }
}

/// Text in which no placeholder opens is copied as it stands.
pub proof fn lemma_copy_prefix(pre: Seq<char>, rest: Seq<char>, j: int, file: PairSeq, env: PairSeq)
    requires
        0 <= j <= pre.len(),
        forall|i: int| j <= i < pre.len() ==> !opens_at(pre + rest, i),
    ensures
        resolved_from(pre + rest, j, file, env) == prepend(
            pre.skip(j),
            resolved_from(pre + rest, pre.len() as int, file, env),
        ),
    decreases pre.len() - j,
{
    let input = pre + rest;
    let tail = resolved_from(input, pre.len() as int, file, env);
    if j < pre.len() {
        lemma_copy_prefix(pre, rest, j + 1, file, env);
        assert(input[j] == pre[j]);
        match tail {
            Ok(t) => {
                assert(seq![pre[j]] + (pre.skip(j + 1) + t) =~= pre.skip(j) + t);
            },
            Err(_) => {},
        }
    } else {
        match tail {
            Ok(t) => {
                assert(pre.skip(j) + t =~= t);
            },
            Err(_) => {},
        }
    }
}

/// One well-formed placeholder: where no placeholder opens in `pre` and
/// `name` holds no `}`, the resolution of `pre`, the placeholder for `name`
/// and `suf` is `pre`, the value of the variable and the resolution of `suf`,
/// or the error of the variable if it is missing.
pub proof fn lemma_resolve_placeholder(
    pre: Seq<char>,
    name: Seq<char>,
    suf: Seq<char>,
    file: PairSeq,
    env: PairSeq,
)
    requires
        placeholder_free(pre),
        !name.contains('}'),
    ensures
        resolved(pre + placeholder(name) + suf, file, env) == (match variable_value(
            name,
            file,
            env,
        ) {
            Ok(value) => prepend(pre + value, resolved(suf, file, env)),
            Err(e) => Err(e),
        }),
{
    let mark = placeholder(name);
    let rest = mark + suf;
    let input = pre + rest;
    assert(pre + mark + suf =~= input);
    assert(rest[0] == '$' && rest[1] == '{');
    assert forall|i: int| 0 <= i < pre.len() implies !opens_at(input, i) by {
        assert(!opens_at(pre, i));
        assert(input[i] == pre[i]);
        if i + 1 < pre.len() {
            assert(input[i + 1] == pre[i + 1]);
        } else {
            assert(input[i + 1] == rest[0]);
        }
    }
    lemma_copy_prefix(pre, rest, 0, file, env);
    assert(pre.skip(0) =~= pre);
    lemma_resolved_shift(pre, rest, 0, file, env);
    // The scan of `rest`: the placeholder, then `suf`.
    assert(opens_at(rest, 0));
    lemma_find_from(rest, '}', 2);
    let end = name_end(rest, 0);
    let n = name.len() as int;
    assert(rest[2 + n] == '}');
    assert forall|j: int| 2 <= j < 2 + n implies rest[j] != '}' by {
        assert(rest[j] == name[j - 2]);
        assert(name.contains(name[j - 2]));
    }
    assert(end == 2 + n);
    assert(rest.subrange(2, end) =~= name);
    assert(after_placeholder(rest, 0) == mark.len());
    lemma_resolved_shift(mark, suf, 0, file, env);
    match variable_value(name, file, env) {
        Ok(value) => {
            match resolved(suf, file, env) {
                Ok(t) => {
                    assert(pre + (value + t) =~= (pre + value) + t);
                },
                Err(_) => {},
            }
        },
        Err(_) => {},
    }
}

/// A placeholder for a variable of the file that is present is replaced by
/// exactly the variable's value: the text before it stays, the marker
/// itself leaves no trace, and what follows is resolved in turn.
pub proof fn law_file_placeholder_replaced(
    pre: Seq<char>,
    name: Seq<char>,
    suf: Seq<char>,
    value: Seq<char>,
    file: PairSeq,
    env: PairSeq,
)
    requires
        placeholder_free(pre),
        !name.contains('}'),
        !starts_with(name, env_prefix()),
        lookup(file, name) == Some(value),
    ensures
        resolved(pre + placeholder(name) + suf, file, env) == prepend(
            pre + value,
            resolved(suf, file, env),
        ),
{
    lemma_resolve_placeholder(pre, name, suf, file, env);
}

/// A placeholder `${env:NAME}` stands for the value that the environment
/// has for `NAME`, and where the environment has none the resolution fails
/// with that name: nothing, not even the empty text, is put in its place.
pub proof fn law_env_placeholder(
    pre: Seq<char>,
    name: Seq<char>,
    suf: Seq<char>,
    file: PairSeq,
    env: PairSeq,
)
    requires
        placeholder_free(pre),
        !name.contains('}'),
    ensures
        resolved(pre + placeholder(env_prefix() + name) + suf, file, env) == (match lookup(
            env,
            name,
        ) {
            Some(value) => prepend(pre + value, resolved(suf, file, env)),
            None => Err((VariableKind::Environment, name)),
        }),
{
    let full = env_prefix() + name;
    assert(full.take(4) =~= env_prefix());
    assert(full.skip(4) =~= name);
    assert forall|c: char| full.contains(c) implies c != '}' by {
        let i = choose|i: int| 0 <= i < full.len() && full[i] == c;
        if i >= 4 {
            assert(name[i - 4] == c);
            assert(name.contains(c));
        }
    }
    lemma_resolve_placeholder(pre, full, suf, file, env);
}

/// Resolving is idempotent on resolved text: a text in which no placeholder
/// opens comes back unchanged, whatever the variables.
pub proof fn law_placeholder_free_unchanged(s: Seq<char>, file: PairSeq, env: PairSeq)
    requires
        placeholder_free(s),
    ensures
        resolved(s, file, env) == Ok::<Seq<char>, (VariableKind, Seq<char>)>(s),
{
    let none = Seq::<char>::empty();
    assert(s + none =~= s);
    lemma_copy_prefix(s, none, 0, file, env);
    assert(s.skip(0) + none =~= s);
}

/// The value of the variable that `name` stands for.
fn variable<'a>(
    name_chars: &Vec<char>,
    from: usize,
    to: usize,
    file_vars: &'a Vec<(String, String)>,
    env_vars: &'a Vec<(String, String)>,
) -> (r: Result<&'a String, MissingVariable>)
    requires
        from <= to <= name_chars.len(),
    ensures
        match variable_value(
            name_chars@.subrange(from as int, to as int),
            pairs_of(file_vars@),
            pairs_of(env_vars@),
        ) {
            Ok(v) => r matches Ok(s) && s@ == v,
            Err(e) => r matches Err(m) && m@ == e,
        },
{
    let ghost name = name_chars@.subrange(from as int, to as int);
    let is_env = to - from >= 4 && name_chars[from] == 'e' && name_chars[from + 1] == 'n'
        && name_chars[from + 2] == 'v' && name_chars[from + 3] == ':';
    proof {
        if is_env {
            assert(name.take(4) =~= env_prefix());
        } else if name.len() >= 4 {
            assert(name.take(4)[0] == name[0]);
            assert(name.take(4)[1] == name[1]);
            assert(name.take(4)[2] == name[2]);
            assert(name.take(4)[3] == name[3]);
            assert(env_prefix()[0] == 'e');
            assert(env_prefix()[1] == 'n');
            assert(env_prefix()[2] == 'v');
            assert(env_prefix()[3] == ':');
        }
    }
    if is_env {
        let short = substring(name_chars, from + 4, to);
        assert(short@ == name.skip(4));
        match find_value(env_vars, &short) {
            Some(v) => Ok(v),
            None => Err(MissingVariable { kind: VariableKind::Environment, name: short }),
        }
    } else {
        let full = substring(name_chars, from, to);
        match find_value(file_vars, &full) {
            Some(v) => Ok(v),
            None => Err(MissingVariable { kind: VariableKind::File, name: full }),
        }
    }
}

/// Replaces the placeholders of `input` by the values of their variables:
/// `${name}` by the variable `name` of `file_vars`, `${env:NAME}` by the
/// variable `NAME` of `env_vars`. The first placeholder, from the left,
/// whose variable is missing makes the whole resolution fail: no text with
/// only some placeholders replaced is ever returned.
pub fn resolve_vars(
    input: &str,
    file_vars: &Vec<(String, String)>,
    env_vars: &Vec<(String, String)>,
) -> (r: Result<String, MissingVariable>)
    ensures
        match resolved(input@, pairs_of(file_vars@), pairs_of(env_vars@)) {
            Ok(text) => r matches Ok(s) && s@ == text,
            Err(e) => r matches Err(m) && m@ == e,
        },
{
    let cs = chars_of(input);
    let ghost file = pairs_of(file_vars@);
    let ghost env = pairs_of(env_vars@);
    let mut out = String::new();
    let mut i: usize = 0;
    while i < cs.len()
        invariant
            i <= cs.len(),
            cs@ == input@,
            file == pairs_of(file_vars@),
            env == pairs_of(env_vars@),
            resolved(cs@, file, env) == prepend(out@, resolved_from(cs@, i as int, file, env)),
        decreases cs.len() - i,
    {
        let ghost rest_before = resolved_from(cs@, i as int, file, env);
        if cs[i] == '$' && i + 1 < cs.len() && cs[i + 1] == '{' {
            proof {
                lemma_after_placeholder(cs@, i as int);
            }
            let end = find_char(&cs, '}', i + 2);
            match variable(&cs, i + 2, end, file_vars, env_vars) {
                Ok(value) => {
                    let ghost before = out@;
                    out.append(value.as_str());
                    let next = if end < cs.len() { end + 1 } else { end };
                    proof {
                        let tail = resolved_from(cs@, next as int, file, env);
                        assert(rest_before == prepend(value@, tail));
                        match tail {
                            Ok(t) => {
                                assert(before + (value@ + t) =~= (before + value@) + t);
                            },
                            Err(_) => {},
                        }
                    }
                    i = next;
                },
                Err(missing) => {
                    return Err(missing);
                },
            }
        } else {
            let ghost before = out@;
            push_char(&mut out, cs[i]);
            proof {
                assert(!opens_at(cs@, i as int));
                let tail = resolved_from(cs@, i + 1, file, env);
                assert(rest_before == prepend(seq![cs@[i as int]], tail));
                match tail {
                    Ok(t) => {
                        assert(before + (seq![cs@[i as int]] + t) =~= before.push(cs@[i as int]) + t);
                    },
                    Err(_) => {},
                }
            }
            i += 1;
        }
    }
    assert(out@ + Seq::<char>::empty() =~= out@);
    Ok(out)
}

/// The error of a resolution: the kind and the name of the missing variable.
pub type Missing = (VariableKind, Seq<char>);

/// The first `n` pairs of `p` with their values resolved, or the error of the
/// first value, in order, that does not resolve.
pub open spec fn resolved_pairs_upto(p: PairSeq, n: int, file: PairSeq, env: PairSeq) -> Result<
    PairSeq,
    Missing,
>
    decreases n,
{
    if n <= 0 || n > p.len() {
        Ok(Seq::empty())
    } else {
        match resolved_pairs_upto(p, n - 1, file, env) {
            Err(e) => Err(e),
            Ok(done) => match resolved(p[n - 1].1, file, env) {
                Err(e) => Err(e),
                Ok(v) => Ok(done.push((p[n - 1].0, v))),
            },
        }
    }
}

/// The pairs of `p` with their values resolved, or the error of the first
/// value, in order, that does not resolve.
pub open spec fn resolved_pairs(p: PairSeq, file: PairSeq, env: PairSeq) -> Result<
    PairSeq,
    Missing,
> {
    resolved_pairs_upto(p, p.len() as int, file, env)
}

/// A YAML value of a JSON body, resolved: a string has its placeholders
/// replaced, any other value stays as it is.
pub open spec fn resolved_yaml(v: YamlView, file: PairSeq, env: PairSeq) -> Result<
    YamlView,
    Missing,
> {
    match v {
        YamlView::String(s) => match resolved(s, file, env) {
            Ok(t) => Ok(YamlView::String(t)),
            Err(e) => Err(e),
        },
        other => Ok(other),
    }
}

/// The first `n` fields of `p` with their values resolved, or the error of
/// the first value, in order, that does not resolve.
pub open spec fn resolved_fields_upto(
    p: Seq<(Seq<char>, YamlView)>,
    n: int,
    file: PairSeq,
    env: PairSeq,
) -> Result<Seq<(Seq<char>, YamlView)>, Missing>
    decreases n,
{
    if n <= 0 || n > p.len() {
        Ok(Seq::empty())
    } else {
        match resolved_fields_upto(p, n - 1, file, env) {
            Err(e) => Err(e),
            Ok(done) => match resolved_yaml(p[n - 1].1, file, env) {
                Err(e) => Err(e),
                Ok(v) => Ok(done.push((p[n - 1].0, v))),
            },
        }
    }
}

/// The fields of `p` with their values resolved, or the error of the first
/// value, in order, that does not resolve.
pub open spec fn resolved_fields(p: Seq<(Seq<char>, YamlView)>, file: PairSeq, env: PairSeq)
    -> Result<Seq<(Seq<char>, YamlView)>, Missing> {
    resolved_fields_upto(p, p.len() as int, file, env)
}

/// Once a value has failed, the error stays whatever follows.
pub proof fn lemma_pairs_error_stays(p: PairSeq, k: int, n: int, file: PairSeq, env: PairSeq)
    requires
        0 <= k <= n <= p.len(),
        resolved_pairs_upto(p, k, file, env) is Err,
    ensures
        resolved_pairs_upto(p, n, file, env) == resolved_pairs_upto(p, k, file, env),
    decreases n - k,
{
    if k < n {
        lemma_pairs_error_stays(p, k, n - 1, file, env);
    }
}

/// Once a value has failed, the error stays whatever follows.
pub proof fn lemma_fields_error_stays(
    p: Seq<(Seq<char>, YamlView)>,
    k: int,
    n: int,
    file: PairSeq,
    env: PairSeq,
)
    requires
        0 <= k <= n <= p.len(),
        resolved_fields_upto(p, k, file, env) is Err,
    ensures
        resolved_fields_upto(p, n, file, env) == resolved_fields_upto(p, k, file, env),
    decreases n - k,
{
    if k < n {
        lemma_fields_error_stays(p, k, n - 1, file, env);
    }
}

/// The body that a request template declares: a JSON object or form fields.
#[derive(Debug, PartialEq)]
pub enum Body {
    /// The fields of a JSON object, in file order.
    Json(Vec<(String, YamlValue)>),
    /// Form fields, in file order.
    Form(Vec<(String, String)>),
}

/// The mathematical content of a `Body`.
pub ghost enum BodyView {
    Json(Seq<(Seq<char>, YamlView)>),
    Form(PairSeq),
}

impl View for Body {
    type V = BodyView;

    open spec fn view(&self) -> BodyView {
        match self {
            Body::Json(fields) => BodyView::Json(yaml_fields_of(fields@)),
            Body::Form(fields) => BodyView::Form(pairs_of(fields@)),
        }
    }
}

/// One of the two keys that a body may have.
#[derive(Debug, Clone, Copy, PartialEq, Eq, Structural)]
pub enum BodyField {
    Json,
    Form,
}

/// What can be wrong with the body of a request template.
#[derive(Debug, PartialEq)]
pub enum BodyFault {
    /// A key comes twice.
    Duplicate(BodyField),
    /// A key is neither `json` nor `form`.
    Unknown(String),
    /// Both `json` and `form` are there.
    Both,
    /// Neither `json` nor `form` is there.
    Neither,
}

/// The mathematical content of a `BodyFault`.
pub ghost enum BodyFaultView {
    Duplicate(BodyField),
    Unknown(Seq<char>),
    Both,
    Neither,
}

impl View for BodyFault {
    type V = BodyFaultView;

    open spec fn view(&self) -> BodyFaultView {
        match self {
            BodyFault::Duplicate(f) => BodyFaultView::Duplicate(*f),
            BodyFault::Unknown(k) => BodyFaultView::Unknown(k@),
            BodyFault::Both => BodyFaultView::Both,
            BodyFault::Neither => BodyFaultView::Neither,
        }
    }
}

impl BodyFaultView {
    /// The message shown for the fault.
    pub open spec fn message(self) -> Seq<char> {
        match self {
            BodyFaultView::Duplicate(BodyField::Json) => "duplicate field `json`"@,
            BodyFaultView::Duplicate(BodyField::Form) => "duplicate field `form`"@,
            BodyFaultView::Unknown(k) => "unknown field `"@ + k + "`, expected `json` or `form`"@,
            BodyFaultView::Both => "Only one of 'json' or 'form' can be used in the body of a request. Please specify either 'json' or 'form', not both."@,
            BodyFaultView::Neither => "Body must contain either 'json' or 'form' key."@,
        }
    }
}

impl BodyFault {
    /// The message shown for this fault.
    pub fn to_string(&self) -> (r: String)
        ensures
            r@ == self@.message(),
    {
        match self {
            BodyFault::Duplicate(BodyField::Json) => crate::text::owned("duplicate field `json`"),
            BodyFault::Duplicate(BodyField::Form) => crate::text::owned("duplicate field `form`"),
            BodyFault::Unknown(k) => crate::error::concat3(
                "unknown field `",
                k.as_str(),
                "`, expected `json` or `form`",
            ),
            BodyFault::Both => crate::text::owned(
                "Only one of 'json' or 'form' can be used in the body of a request. Please specify either 'json' or 'form', not both.",
            ),
            BodyFault::Neither => crate::text::owned(
                "Body must contain either 'json' or 'form' key.",
            ),
        }
    }

    /// The error that a collection with this fault fails to load with.
    pub fn to_error(&self) -> (r: crate::error::CollectionError)
        ensures
            r@ == crate::error::CollectionErrorView::InvalidYaml(self@.message()),
    {
        crate::error::CollectionError::InvalidYaml(self.to_string())
    }
}

/// Which keys of a body were read so far.
#[derive(Debug, Clone, Copy, PartialEq, Eq, Structural)]
pub struct BodyKeys {
    pub json: bool,
    pub form: bool,
}

impl BodyKeys {
    /// No key read yet.
    pub fn new() -> (r: BodyKeys)
        ensures
            r == (BodyKeys { json: false, form: false }),
    {
        BodyKeys { json: false, form: false }
    }

    /// What reading the key `key` gives after the keys `self`: the field it
    /// names and the keys read then, or the fault.
    pub open spec fn read(self, key: Seq<char>) -> Result<(BodyField, BodyKeys), BodyFaultView> {
        if key == "json"@ {
            if self.json {
                Err(BodyFaultView::Duplicate(BodyField::Json))
            } else {
                Ok((BodyField::Json, BodyKeys { json: true, form: self.form }))
            }
        } else if key == "form"@ {
            if self.form {
                Err(BodyFaultView::Duplicate(BodyField::Form))
            } else {
                Ok((BodyField::Form, BodyKeys { json: self.json, form: true }))
            }
        } else {
            Err(BodyFaultView::Unknown(key))
        }
    }

    /// Reads one more key of a body: `json` and `form` are known, each may
    /// come once.
    pub fn accept(&mut self, key: &str) -> (r: Result<BodyField, BodyFault>)
        ensures
            match old(self).read(key@) {
                Ok((field, keys)) => r == Ok::<BodyField, BodyFault>(field) && *final(self) == keys,
                Err(e) => r matches Err(f) && f@ == e && *final(self) == *old(self),
            },
    {
        if str_eq(key, "json") {
            if self.json {
                Err(BodyFault::Duplicate(BodyField::Json))
            } else {
                self.json = true;
                Ok(BodyField::Json)
            }
        } else if str_eq(key, "form") {
            if self.form {
                Err(BodyFault::Duplicate(BodyField::Form))
            } else {
                self.form = true;
                Ok(BodyField::Form)
            }
        } else {
            Err(BodyFault::Unknown(crate::text::owned(key)))
        }
    }
}

impl Body {
    /// The body made of what was read under `json` and under `form`:
    /// exactly one of the two must be there. Both is a fault, and so is
    /// neither.
    pub fn from_parts(
        json: Option<Vec<(String, YamlValue)>>,
        form: Option<Vec<(String, String)>>,
    ) -> (r: Result<Body, BodyFault>)
        ensures
            json.is_some() && form.is_some() ==> r matches Err(BodyFault::Both),
            json.is_none() && form.is_none() ==> r matches Err(BodyFault::Neither),
            json.is_some() && form.is_none() ==> (r matches Ok(b) && b@ == BodyView::Json(
                yaml_fields_of(json.unwrap()@),
            )),
            json.is_none() && form.is_some() ==> (r matches Ok(b) && b@ == BodyView::Form(
                pairs_of(form.unwrap()@),
            )),
    {
        match (json, form) {
            (Some(_), Some(_)) => Err(BodyFault::Both),
            (Some(j), None) => Ok(Body::Json(j)),
            (None, Some(f)) => Ok(Body::Form(f)),
            (None, None) => Err(BodyFault::Neither),
        }
    }
}

/// A named request template of a collection. Its URL, the values of its
/// headers and the strings of its body may hold placeholders.
#[derive(Debug)]
pub struct Request {
    pub name: String,
    pub method: Method,
    pub url: String,
    pub headers: Option<Vec<(String, String)>>,
    pub body: Option<Body>,
}

/// The mathematical content of a `Request`.
pub ghost struct RequestView {
    pub name: Seq<char>,
    pub method: Method,
    pub url: Seq<char>,
    pub headers: Option<PairSeq>,
    pub body: Option<BodyView>,
}

impl View for Request {
    type V = RequestView;

    open spec fn view(&self) -> RequestView {
        RequestView {
            name: self.name@,
            method: self.method,
            url: self.url@,
            headers: match self.headers {
                Some(h) => Some(pairs_of(h@)),
                None => None,
            },
            body: match self.body {
                Some(b) => Some(b@),
                None => None,
            },
        }
    }
}

/// A collection: variables and request templates, in file order.
#[derive(Debug)]
pub struct Collection {
    pub variables: Option<Vec<(String, String)>>,
    pub requests: Vec<Request>,
}

/// The headers of a template, resolved.
pub open spec fn resolved_headers(h: Option<PairSeq>, file: PairSeq, env: PairSeq) -> Result<
    Option<PairSeq>,
    Missing,
> {
    match h {
        None => Ok(None),
        Some(p) => match resolved_pairs(p, file, env) {
            Ok(q) => Ok(Some(q)),
            Err(e) => Err(e),
        },
    }
}

/// The body of a template, resolved.
pub open spec fn resolved_body(b: Option<BodyView>, file: PairSeq, env: PairSeq) -> Result<
    Option<BodyView>,
    Missing,
> {
    match b {
        None => Ok(None),
        Some(BodyView::Json(fields)) => match resolved_fields(fields, file, env) {
            Ok(q) => Ok(Some(BodyView::Json(q))),
            Err(e) => Err(e),
        },
        Some(BodyView::Form(fields)) => match resolved_pairs(fields, file, env) {
            Ok(q) => Ok(Some(BodyView::Form(q))),
            Err(e) => Err(e),
        },
    }
}

/// The template `req`, resolved: the URL first, then the header values in
/// order, then the body. The first of these that does not resolve gives the
/// error of the whole.
pub open spec fn resolved_request(req: RequestView, file: PairSeq, env: PairSeq) -> Result<
    RequestView,
    Missing,
> {
    match resolved(req.url, file, env) {
        Err(e) => Err(e),
        Ok(url) => match resolved_headers(req.headers, file, env) {
            Err(e) => Err(e),
            Ok(headers) => match resolved_body(req.body, file, env) {
                Err(e) => Err(e),
                Ok(body) => Ok(
                    RequestView { name: req.name, method: req.method, url, headers, body },
                ),
            },
        },
    }
}

/// Resolves the value of every pair of `v`.
pub fn resolve_pairs(
    v: &Vec<(String, String)>,
    file_vars: &Vec<(String, String)>,
    env_vars: &Vec<(String, String)>,
) -> (r: Result<Vec<(String, String)>, MissingVariable>)
    ensures
        match resolved_pairs(pairs_of(v@), pairs_of(file_vars@), pairs_of(env_vars@)) {
            Ok(q) => r matches Ok(out) && pairs_of(out@) == q,
            Err(e) => r matches Err(m) && m@ == e,
        },
{
    let ghost p = pairs_of(v@);
    let ghost file = pairs_of(file_vars@);
    let ghost env = pairs_of(env_vars@);
    let mut out: Vec<(String, String)> = Vec::new();
    let mut i: usize = 0;
    assert(pairs_of(out@) =~= Seq::<(Seq<char>, Seq<char>)>::empty());
    while i < v.len()
        invariant
            i <= v.len(),
            p == pairs_of(v@),
            file == pairs_of(file_vars@),
            env == pairs_of(env_vars@),
            resolved_pairs_upto(p, i as int, file, env) == Ok::<PairSeq, Missing>(pairs_of(out@)),
        decreases v.len() - i,
    {
        match resolve_vars(v[i].1.as_str(), file_vars, env_vars) {
            Ok(value) => {
                let ghost before = out@;
                let pair = (v[i].0.clone(), value);
                out.push(pair);
                proof {
                    lemma_pairs_push(before, pair);
                }
            },
            Err(missing) => {
                proof {
                    assert(resolved_pairs_upto(p, i + 1, file, env) is Err);
                    lemma_pairs_error_stays(p, i + 1, p.len() as int, file, env);
                }
                return Err(missing);
            },
        }
        i += 1;
    }
    Ok(out)
}

/// Resolves the value of every field of a JSON body: the strings have their
/// placeholders replaced, the other values are copied.
pub fn resolve_fields(
    v: &Vec<(String, YamlValue)>,
    file_vars: &Vec<(String, String)>,
    env_vars: &Vec<(String, String)>,
) -> (r: Result<Vec<(String, YamlValue)>, MissingVariable>)
    ensures
        match resolved_fields(yaml_fields_of(v@), pairs_of(file_vars@), pairs_of(env_vars@)) {
            Ok(q) => r matches Ok(out) && yaml_fields_of(out@) == q,
            Err(e) => r matches Err(m) && m@ == e,
        },
{
    let ghost p = yaml_fields_of(v@);
    let ghost file = pairs_of(file_vars@);
    let ghost env = pairs_of(env_vars@);
    let mut out: Vec<(String, YamlValue)> = Vec::new();
    let mut i: usize = 0;
    assert(yaml_fields_of(out@) =~= Seq::<(Seq<char>, YamlView)>::empty());
    while i < v.len()
        invariant
            i <= v.len(),
            p == yaml_fields_of(v@),
            file == pairs_of(file_vars@),
            env == pairs_of(env_vars@),
            resolved_fields_upto(p, i as int, file, env) == Ok::<
                Seq<(Seq<char>, YamlView)>,
                Missing,
            >(yaml_fields_of(out@)),
        decreases v.len() - i,
    {
        let value = match &v[i].1 {
            YamlValue::String(s) => {
                match resolve_vars(s.as_str(), file_vars, env_vars) {
                    Ok(text) => YamlValue::String(text),
                    Err(missing) => {
                        proof {
                            assert(resolved_fields_upto(p, i + 1, file, env) is Err);
                            lemma_fields_error_stays(p, i + 1, p.len() as int, file, env);
                        }
                        return Err(missing);
                    },
                }
            },
            other => other.duplicate(),
        };
        let ghost before = out@;
        let field = (v[i].0.clone(), value);
        out.push(field);
        proof {
            lemma_yaml_fields_push(before, field);
        }
        i += 1;
    }
    Ok(out)
}

/// Resolves every placeholder of the template `req`: in its URL, in the
/// values of its headers, and in its body (every value of a form, the
/// strings among the fields of a JSON object). The result is a new request;
/// if any variable is missing the error is returned, and no request.
pub fn resolve_request_vars(
    req: &Request,
    file_vars: &Vec<(String, String)>,
    env_vars: &Vec<(String, String)>,
) -> (r: Result<Request, MissingVariable>)
    ensures
        match resolved_request(req@, pairs_of(file_vars@), pairs_of(env_vars@)) {
            Ok(q) => r matches Ok(out) && out@ == q,
            Err(e) => r matches Err(m) && m@ == e,
        },
{
    let url = match resolve_vars(req.url.as_str(), file_vars, env_vars) {
        Ok(url) => url,
        Err(e) => {
            return Err(e);
        },
    };
    let headers = match &req.headers {
        Some(hs) => match resolve_pairs(hs, file_vars, env_vars) {
            Ok(resolved) => Some(resolved),
            Err(e) => {
                return Err(e);
            },
        },
        None => None,
    };
    let body = match &req.body {
        Some(Body::Json(fields)) => match resolve_fields(fields, file_vars, env_vars) {
            Ok(resolved) => Some(Body::Json(resolved)),
            Err(e) => {
                return Err(e);
            },
        },
        Some(Body::Form(fields)) => match resolve_pairs(fields, file_vars, env_vars) {
            Ok(resolved) => Some(Body::Form(resolved)),
            Err(e) => {
                return Err(e);
            },
        },
        None => None,
    };
    Ok(Request { name: req.name.clone(), method: req.method, url, headers, body })
}

/// The index of the first request of `requests` whose name is `name`, or the
/// number of requests if none has it.
pub open spec fn request_index_from(requests: Seq<Request>, name: Seq<char>, from: int) -> int
    decreases requests.len() - from,
{
    if from < 0 || from >= requests.len() {
        requests.len() as int
    } else if requests[from].name@ == name {
        from
    } else {
        request_index_from(requests, name, from + 1)
    }
}

impl Collection {
    /// The index of the first request named `name`, or the number of
    /// requests if none has the name.
    pub open spec fn request_index(self, name: Seq<char>) -> int {
        request_index_from(self.requests@, name, 0)
    }

    /// The first request named `name`. Names need not be unique: the first
    /// request, in file order, with the name is the one found.
    pub fn find_request(&self, name: &str) -> (r: Option<&Request>)
        ensures
            self.request_index(name@) < self.requests.len() ==> r == Some(
                &self.requests[self.request_index(name@)],
            ),
            self.request_index(name@) >= self.requests.len() ==> r.is_none(),
    {
        let mut i: usize = 0;
        while i < self.requests.len()
            invariant
                i <= self.requests.len(),
                self.request_index(name@) == request_index_from(self.requests@, name@, i as int),
            decreases self.requests.len() - i,
        {
            if str_eq(self.requests[i].name.as_str(), name) {
                return Some(&self.requests[i]);
            }
            i += 1;
        }
        None
    }
}

} // verus!
