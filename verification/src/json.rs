//! JSON bodies: the value of a command-line parameter, the fields that the
//! command line puts over those of a collection, the JSON form of a YAML
//! value, and the text that goes on the wire.

use crate::number::{decimal, integer_of, integer_text, parse_integer};
use crate::pairs::{key_index, key_index_from, lookup, pairs_of, upsert, PairSeq};
use crate::text::{owned, push_char, str_eq};
use crate::value::{
    json_fields_of, json_items_of, lemma_json_array_view, lemma_json_fields_push,
    lemma_json_items_push, lemma_json_object_view, lemma_yaml_mapping_view,
    lemma_yaml_sequence_view, yaml_fields_of, yaml_items_of, FloatLiteral, JsonValue, JsonView,
    YamlNumber, YamlNumberView, YamlValue, YamlView,
};
use vstd::prelude::*;
use vstd::string::StringExecFns;

verus! {

broadcast use vstd::seq::group_seq_axioms;

/// What `serde_json::to_string` returns for the string `s`: the JSON string
/// literal of `s`, in double quotes, with the characters escaped that JSON
/// asks to escape.
pub uninterp spec fn json_quoted(s: Seq<char>) -> Seq<char>;

/// `serde_json::to_string` on a string: its JSON string literal.
#[verifier::external_body]
pub(crate) fn json_quote(s: &str) -> (r: String)
    ensures
        r@ == json_quoted(s@),
{
    serde_json::to_string(s).unwrap_or_default()
}

/// The JSON text of a value: `null`, `true`, `false`, the decimal text of a
/// whole number, the literal of a floating-point number, the quoted form of
/// a string, the items of an array between `[` and `]`, the fields of an
/// object between `{` and `}`; items and fields are parted by `,`, a key
/// from its value by `:`, and there is no white space.
pub open spec fn json_text(v: JsonView) -> Seq<char>
    decreases v, 0int,
{
    match v {
        JsonView::Null => "null"@,
        JsonView::Bool(b) => if b {
            "true"@
        } else {
            "false"@
        },
        JsonView::Int(i) => decimal(i),
        JsonView::Float(t) => t,
        JsonView::String(s) => json_quoted(s),
        JsonView::Array(items) => seq!['['] + items_text(items, items.len() as int) + seq![']'],
        JsonView::Object(fields) => seq!['{'] + fields_text(fields, fields.len() as int)
            + seq!['}'],
    }
}

/// The JSON text of the first `n` of `items`, parted by `,`.
pub open spec fn items_text(items: Seq<JsonView>, n: int) -> Seq<char>
    decreases items, n,
{
    if n <= 0 || n > items.len() {
        Seq::empty()
    } else if n == 1 {
        json_text(items[0])
    } else {
        items_text(items, n - 1) + seq![','] + json_text(items[n - 1])
    }
}

/// The JSON text of the first `n` of `fields`, parted by `,`.
pub open spec fn fields_text(fields: Seq<(Seq<char>, JsonView)>, n: int) -> Seq<char>
    decreases fields, n,
{
    if n <= 0 || n > fields.len() {
        Seq::empty()
    } else if n == 1 {
        json_quoted(fields[0].0) + seq![':'] + json_text(fields[0].1)
    } else {
        fields_text(fields, n - 1) + seq![','] + json_quoted(fields[n - 1].0) + seq![':']
            + json_text(fields[n - 1].1)
    }
}

impl JsonValue {
    /// The JSON text of the value.
    #[verifier::loop_isolation(false)]
    pub fn encode(&self) -> (r: String)
        ensures
            r@ == json_text(self@),
        decreases self,
    {
        match self {
            JsonValue::Null => owned("null"),
            JsonValue::Bool(b) => if *b {
                owned("true")
            } else {
                owned("false")
            },
            JsonValue::Int(i) => integer_text(*i),
            JsonValue::Float(f) => owned(f.as_str()),
            JsonValue::String(s) => json_quote(s.as_str()),
            JsonValue::Array(items) => {
                proof {
                    lemma_json_array_view(*items);
                }
                let ghost views = json_items_of(items@);
                let mut out = String::new();
                push_char(&mut out, '[');
                let mut i: usize = 0;
                while i < items.len()
                    invariant
                        i <= items.len(),
                        out@ == seq!['['] + items_text(views, i as int),
                    decreases items.len() - i,
                {
                    if i > 0 {
                        push_char(&mut out, ',');
                    }
                    let item = items[i].encode();
                    out.append(item.as_str());
                    i += 1;
                }
                push_char(&mut out, ']');
                out
            },
            JsonValue::Object(fields) => {
                proof {
                    lemma_json_object_view(*fields);
                }
                let ghost views = json_fields_of(fields@);
                let mut out = String::new();
                push_char(&mut out, '{');
                let mut i: usize = 0;
                while i < fields.len()
                    invariant
                        i <= fields.len(),
                        out@ == seq!['{'] + fields_text(views, i as int),
                    decreases fields.len() - i,
                {
                    if i > 0 {
                        push_char(&mut out, ',');
                    }
                    let key = json_quote(fields[i].0.as_str());
                    out.append(key.as_str());
                    push_char(&mut out, ':');
                    let value = fields[i].1.encode();
                    out.append(value.as_str());
                    i += 1;
                }
                push_char(&mut out, '}');
                out
            },
        }
    }
}

/// What `serde_json` prints for the finite floating-point number that Rust
/// reads from the text `source`; `None` where Rust reads no number from the
/// text, or reads an infinity or a not-a-number.
pub uninterp spec fn float_literal_of(source: Seq<char>) -> Option<Seq<char>>;

/// `serde_json::Number::from_f64` on what `str::parse` reads from `source`,
/// printed by the number's `to_string`: the JSON literal of the
/// floating-point number that `source` stands for, if it stands for a finite
/// one.
#[verifier::external_body]
pub(crate) fn float_json_text(source: &str) -> (r: Option<String>)
    ensures
        r.is_some() == float_literal_of(source@).is_some(),
        r matches Some(t) ==> Some(t@) == float_literal_of(source@),
{
    let number = source.parse().ok().and_then(serde_json::Number::from_f64);
    number.as_ref().map(ToString::to_string)
}

impl FloatLiteral {
    /// The literal of the finite floating-point number that `source` stands
    /// for, if it stands for one.
    pub fn parse(source: &str) -> (r: Option<FloatLiteral>)
        ensures
            r.is_some() == float_literal_of(source@).is_some(),
            r matches Some(f) ==> Some(f@) == float_literal_of(source@),
    {
        match float_json_text(source) {
            Some(text) => Some(FloatLiteral::from_text(text)),
            None => None,
        }
    }
}

/// The JSON value that a parameter with the text `value` stands for, where
/// `float` is the literal of the floating-point number that the text stands
/// for, if any. The kinds are tried in this order: a whole number; a
/// floating-point number; `true` or `false`; at last, a string.
pub open spec fn cli_value(value: Seq<char>, float: Option<Seq<char>>) -> JsonView {
    match integer_of(value) {
        Some(i) => JsonView::Int(i),
        None => match float {
            Some(t) => JsonView::Float(t),
            None => if value == "true"@ {
                JsonView::Bool(true)
            } else if value == "false"@ {
                JsonView::Bool(false)
            } else {
                JsonView::String(value)
            },
        },
    }
}

/// The JSON value of the parameter text `value`, given the literal of the
/// floating-point number that it stands for, if any.
pub fn classify_cli_value(value: &str, float: Option<FloatLiteral>) -> (r: JsonValue)
    ensures
        r@ == cli_value(
            value@,
            match float {
                Some(f) => Some(f@),
                None => None,
            },
        ),
{
    match parse_integer(value) {
        Some(i) => JsonValue::Int(i),
        None => match float {
            Some(f) => JsonValue::Float(f),
            None => if str_eq(value, "true") {
                JsonValue::Bool(true)
            } else if str_eq(value, "false") {
                JsonValue::Bool(false)
            } else {
                JsonValue::String(owned(value))
            },
        },
    }
}

/// The JSON value of the parameter text `value`: `42` is a number, `2.5`
/// too, `true` a boolean, `hello` a string.
pub fn parse_cli_value_to_json(value: &str) -> (r: JsonValue)
    ensures
        r@ == cli_value(value@, float_literal_of(value@)),
{
    let float = FloatLiteral::parse(value);
    classify_cli_value(value, float)
}

/// `fields` with the first `n` pairs of `cli` put over them, each value read
/// as a JSON value.
pub open spec fn merged_fields_upto(
    fields: Seq<(Seq<char>, JsonView)>,
    cli: PairSeq,
    n: int,
) -> Seq<(Seq<char>, JsonView)>
    decreases n,
{
    if n <= 0 || n > cli.len() {
        fields
    } else {
        upsert(
            merged_fields_upto(fields, cli, n - 1),
            cli[n - 1].0,
            cli_value(cli[n - 1].1, float_literal_of(cli[n - 1].1)),
        )
    }
}

/// `fields` with the pairs of `cli` put over them.
pub open spec fn merged_fields(fields: Seq<(Seq<char>, JsonView)>, cli: PairSeq) -> Seq<
    (Seq<char>, JsonView),
> {
    merged_fields_upto(fields, cli, cli.len() as int)
}

/// The JSON body of a collection, if any, with the body fields of the
/// command line put over it. No body counts as an empty object. A body that
/// is no object gives way to an object of the command line's fields, unless
/// the command line has none.
pub open spec fn merged_json(base: Option<JsonView>, cli: PairSeq) -> JsonView {
    match base {
        None => JsonView::Object(merged_fields(Seq::empty(), cli)),
        Some(JsonView::Object(fields)) => JsonView::Object(merged_fields(fields, cli)),
        Some(other) => if cli.len() > 0 {
            JsonView::Object(merged_fields(Seq::empty(), cli))
        } else {
            other
        },
    }
}

/// The value that the command line gave `key` last among the first `n` of
/// `cli`, read as a JSON value.
pub open spec fn last_cli_value_upto(cli: PairSeq, key: Seq<char>, n: int) -> Option<JsonView>
    decreases n,
{
    if n <= 0 || n > cli.len() {
        None
    } else if cli[n - 1].0 == key {
        Some(cli_value(cli[n - 1].1, float_literal_of(cli[n - 1].1)))
    } else {
        last_cli_value_upto(cli, key, n - 1)
    }
}

/// The command line wins in a JSON body too: after a merge, a field that
/// the command line gives has the value, read as a JSON value, that the
/// command line gave it last, whatever the collection had there; any other
/// field has the value that the collection gives it.
pub proof fn law_json_merge_precedence(
    fields: Seq<(Seq<char>, JsonView)>,
    cli: PairSeq,
    key: Seq<char>,
    n: int,
)
    requires
        0 <= n <= cli.len(),
    ensures
        lookup(merged_fields_upto(fields, cli, n), key) == match last_cli_value_upto(cli, key, n) {
            Some(v) => Some(v),
            None => lookup(fields, key),
        },
    decreases n,
{
    if n > 0 {
        law_json_merge_precedence(fields, cli, key, n - 1);
        crate::merge::lemma_lookup_upsert(
            merged_fields_upto(fields, cli, n - 1),
            cli[n - 1].0,
            cli_value(cli[n - 1].1, float_literal_of(cli[n - 1].1)),
            key,
        );
    }
}

/// The index of the first field of `v` whose key is `key`, or `v.len()`.
pub fn field_position(v: &Vec<(String, JsonValue)>, key: &String) -> (r: usize)
    ensures
        r == key_index(json_fields_of(v@), key@),
        r <= v.len(),
{
    let mut i: usize = 0;
    while i < v.len()
        invariant
            i <= v.len(),
            key_index(json_fields_of(v@), key@) == key_index_from(
                json_fields_of(v@),
                key@,
                i as int,
            ),
        decreases v.len() - i,
    {
        if v[i].0 == *key {
            return i;
        }
        i += 1;
    }
    i
}

/// Sets the field `key` to `value` in `v`: in the place of the first field
/// that has the key, or at the end if no field has it.
pub fn put_field(v: &mut Vec<(String, JsonValue)>, key: String, value: JsonValue)
    ensures
        json_fields_of(final(v)@) == upsert(json_fields_of(old(v)@), key@, value@),
{
    let i = field_position(v, &key);
    let ghost before = v@;
    if i < v.len() {
        v.set(i, (key, value));
        assert(json_fields_of(v@) =~= json_fields_of(before).update(i as int, (key@, value@)));
    } else {
        v.push((key, value));
        proof {
            lemma_json_fields_push(before, (key, value));
        }
    }
}

/// Puts the body fields of the command line into `fields`.
fn put_cli_fields(fields: &mut Vec<(String, JsonValue)>, cli_body: &[(String, String)])
    ensures
        json_fields_of(final(fields)@) == merged_fields(
            json_fields_of(old(fields)@),
            pairs_of(cli_body@),
        ),
{
    let ghost start = json_fields_of(fields@);
    let mut i: usize = 0;
    while i < cli_body.len()
        invariant
            i <= cli_body.len(),
            json_fields_of(fields@) == merged_fields_upto(start, pairs_of(cli_body@), i as int),
        decreases cli_body.len() - i,
    {
        let value = parse_cli_value_to_json(cli_body[i].1.as_str());
        put_field(fields, cli_body[i].0.clone(), value);
        i += 1;
    }
}

/// Puts the body fields of the command line over the JSON body of a
/// collection. Each field of the command line is read as a JSON value and
/// takes the place of the collection's field of the same key, whatever the
/// kind of value that field had; a new key goes to the end.
pub fn merge_json_with_cli_params(
    collection_json: Option<JsonValue>,
    cli_body: &[(String, String)],
) -> (r: JsonValue)
    ensures
        r@ == merged_json(
            match collection_json {
                Some(v) => Some(v@),
                None => None,
            },
            pairs_of(cli_body@),
        ),
{
    match collection_json {
        Some(JsonValue::Object(fields)) => {
            proof {
                lemma_json_object_view(fields);
            }
            let mut fields = fields;
            put_cli_fields(&mut fields, cli_body);
            proof {
                lemma_json_object_view(fields);
            }
            JsonValue::Object(fields)
        },
        Some(other) => {
            if cli_body.len() > 0 {
                let mut fields: Vec<(String, JsonValue)> = Vec::new();
                assert(json_fields_of(fields@) =~= Seq::<(Seq<char>, JsonView)>::empty());
                put_cli_fields(&mut fields, cli_body);
                proof {
                    lemma_json_object_view(fields);
                }
                JsonValue::Object(fields)
            } else {
                other
            }
        },
        None => {
            let mut fields: Vec<(String, JsonValue)> = Vec::new();
            assert(json_fields_of(fields@) =~= Seq::<(Seq<char>, JsonView)>::empty());
            put_cli_fields(&mut fields, cli_body);
            proof {
                lemma_json_object_view(fields);
            }
            JsonValue::Object(fields)
        },
    }
}

/// The JSON form of a YAML value. A whole number stays one; a floating-point
/// number stays one if it is finite and becomes `null` if not; a sequence
/// becomes an array; a mapping becomes an object, in which a key that comes
/// again takes the place of its first coming; a tagged value becomes `null`.
pub open spec fn json_of_yaml(v: YamlView) -> JsonView
    decreases v, 0int,
{
    match v {
        YamlView::Null => JsonView::Null,
        YamlView::Bool(b) => JsonView::Bool(b),
        YamlView::Number(YamlNumberView::Integer(i)) => JsonView::Int(i),
        YamlView::Number(YamlNumberView::Real(t)) => JsonView::Float(t),
        YamlView::Number(YamlNumberView::NonFinite) => JsonView::Null,
        YamlView::String(s) => JsonView::String(s),
        YamlView::Sequence(items) => JsonView::Array(json_of_items(items, items.len() as int)),
        YamlView::Mapping(entries) => JsonView::Object(
            json_of_entries(entries, entries.len() as int),
        ),
        YamlView::Tagged => JsonView::Null,
    }
}

/// The JSON forms of the first `n` of `items`.
pub open spec fn json_of_items(items: Seq<YamlView>, n: int) -> Seq<JsonView>
    decreases items, n,
{
    if n <= 0 || n > items.len() {
        Seq::empty()
    } else {
        json_of_items(items, n - 1).push(json_of_yaml(items[n - 1]))
    }
}

/// The JSON fields of the first `n` of `entries`.
pub open spec fn json_of_entries(entries: Seq<(Seq<char>, YamlView)>, n: int) -> Seq<
    (Seq<char>, JsonView),
>
    decreases entries, n,
{
    if n <= 0 || n > entries.len() {
        Seq::empty()
    } else {
        upsert(json_of_entries(entries, n - 1), entries[n - 1].0, json_of_yaml(entries[n - 1].1))
    }
}

/// The JSON fields of the entries of a YAML mapping.
#[verifier::loop_isolation(false)]
pub fn yaml_fields_to_json(entries: &Vec<(String, YamlValue)>) -> (r: Vec<(String, JsonValue)>)
    ensures
        json_fields_of(r@) == json_of_entries(
            yaml_fields_of(entries@),
            entries@.len() as int,
        ),
    decreases entries,
{
    let ghost views = yaml_fields_of(entries@);
    let mut out: Vec<(String, JsonValue)> = Vec::new();
    assert(json_fields_of(out@) =~= Seq::<(Seq<char>, JsonView)>::empty());
    let mut i: usize = 0;
    while i < entries.len()
        invariant
            i <= entries.len(),
            json_fields_of(out@) == json_of_entries(views, i as int),
        decreases entries.len() - i,
    {
        let value = yaml_to_json(&entries[i].1);
        put_field(&mut out, entries[i].0.clone(), value);
        i += 1;
    }
    out
}

/// The JSON form of a YAML value.
#[verifier::loop_isolation(false)]
pub fn yaml_to_json(val: &YamlValue) -> (r: JsonValue)
    ensures
        r@ == json_of_yaml(val@),
    decreases val,
{
    match val {
        YamlValue::Null => JsonValue::Null,
        YamlValue::Bool(b) => JsonValue::Bool(*b),
        YamlValue::Number(n) => match n {
            YamlNumber::Integer(i) => JsonValue::Int(*i),
            YamlNumber::Real(f) => JsonValue::Float(f.duplicate()),
            YamlNumber::NonFinite => JsonValue::Null,
        },
        YamlValue::String(s) => JsonValue::String(s.clone()),
        YamlValue::Sequence(items) => {
            proof {
                lemma_yaml_sequence_view(*items);
            }
            let ghost views = yaml_items_of(items@);
            let mut out: Vec<JsonValue> = Vec::new();
            assert(json_items_of(out@) =~= Seq::<JsonView>::empty());
            let mut i: usize = 0;
            while i < items.len()
                invariant
                    i <= items.len(),
                    json_items_of(out@) == json_of_items(views, i as int),
                decreases items.len() - i,
            {
                let ghost before = out@;
                let item = yaml_to_json(&items[i]);
                out.push(item);
                proof {
                    lemma_json_items_push(before, item);
                }
                i += 1;
            }
            proof {
                lemma_json_array_view(out);
            }
            JsonValue::Array(out)
        },
        YamlValue::Mapping(entries) => {
            proof {
                lemma_yaml_mapping_view(*entries);
            }
            let out = yaml_fields_to_json(entries);
            proof {
                lemma_json_object_view(out);
            }
            JsonValue::Object(out)
        },
        YamlValue::Tagged => JsonValue::Null,
    }
}

} // verus!
