//! Structured values: what a collection file holds (YAML) and what a request
//! body is made of (JSON).

use vstd::prelude::*;

verus! {

broadcast use vstd::std_specs::vec::group_vec_axioms;

/// A finite floating-point number, kept as the JSON literal that stands for it.
#[derive(Debug, PartialEq)]
pub struct FloatLiteral {
    text: String,
}

impl View for FloatLiteral {
    type V = Seq<char>;

    closed spec fn view(&self) -> Seq<char> {
        self.text@
    }
}

impl FloatLiteral {
    /// The literal with the text `text`.
    pub(crate) fn from_text(text: String) -> (r: FloatLiteral)
        ensures
            r@ == text@,
    {
        FloatLiteral { text }
    }

    /// The literal's text.
    pub fn as_str(&self) -> (r: &str)
        ensures
            r@ == self@,
    {
        self.text.as_str()
    }

    /// A copy of the literal.
    pub fn duplicate(&self) -> (r: FloatLiteral)
        ensures
            r@ == self@,
    {
        FloatLiteral { text: self.text.clone() }
    }
}

/// A number of a collection file.
#[derive(Debug, PartialEq)]
pub enum YamlNumber {
    /// A whole number within the signed 64-bit range.
    Integer(i64),
    /// Any other finite number.
    Real(FloatLiteral),
    /// An infinity or a not-a-number.
    NonFinite,
}

/// The mathematical content of a `YamlNumber`.
pub ghost enum YamlNumberView {
    Integer(int),
    Real(Seq<char>),
    NonFinite,
}

impl View for YamlNumber {
    type V = YamlNumberView;

    open spec fn view(&self) -> YamlNumberView {
        match self {
            YamlNumber::Integer(i) => YamlNumberView::Integer(*i as int),
            YamlNumber::Real(f) => YamlNumberView::Real(f@),
            YamlNumber::NonFinite => YamlNumberView::NonFinite,
        }
    }
}

impl YamlNumber {
    /// A copy of the number.
    pub fn duplicate(&self) -> (r: YamlNumber)
        ensures
            r@ == self@,
    {
        match self {
            YamlNumber::Integer(i) => YamlNumber::Integer(*i),
            YamlNumber::Real(f) => YamlNumber::Real(f.duplicate()),
            YamlNumber::NonFinite => YamlNumber::NonFinite,
        }
    }
}

/// A value of a collection file. A mapping keeps its entries in file order;
/// each key is held as text: a string key as itself, any other key as its
/// YAML rendering.
#[derive(Debug, PartialEq)]
pub enum YamlValue {
    Null,
    Bool(bool),
    Number(YamlNumber),
    String(String),
    Sequence(Vec<YamlValue>),
    Mapping(Vec<(String, YamlValue)>),
    /// A value under a YAML tag; what it holds is not read.
    Tagged,
}

/// The mathematical content of a `YamlValue`.
pub ghost enum YamlView {
    Null,
    Bool(bool),
    Number(YamlNumberView),
    String(Seq<char>),
    Sequence(Seq<YamlView>),
    Mapping(Seq<(Seq<char>, YamlView)>),
    Tagged,
}

impl View for YamlValue {
    type V = YamlView;

    open spec fn view(&self) -> YamlView
        decreases self,
    {
        match self {
            YamlValue::Null => YamlView::Null,
            YamlValue::Bool(b) => YamlView::Bool(*b),
            YamlValue::Number(n) => YamlView::Number(n@),
            YamlValue::String(s) => YamlView::String(s@),
            YamlValue::Sequence(items) => YamlView::Sequence(
                Seq::new(
                    items.len() as nat,
                    |i: int|
                        if 0 <= i < items.len() {
                            items[i]@
                        } else {
                            YamlView::Null
                        },
                ),
            ),
            YamlValue::Mapping(entries) => YamlView::Mapping(
                Seq::new(
                    entries.len() as nat,
                    |i: int|
                        (
                            entries[i].0@,
                            if 0 <= i < entries.len() {
                                entries[i].1@
                            } else {
                                YamlView::Null
                            },
                        ),
                ),
            ),
            YamlValue::Tagged => YamlView::Tagged,
        }
    }
}

/// The content of a list of named YAML values.
pub open spec fn yaml_fields_of(v: Seq<(String, YamlValue)>) -> Seq<(Seq<char>, YamlView)> {
    Seq::new(v.len(), |i: int| (v[i].0@, v[i].1@))
}

/// The content of a list of YAML values.
pub open spec fn yaml_items_of(v: Seq<YamlValue>) -> Seq<YamlView> {
    Seq::new(v.len(), |i: int| v[i]@)
}

/// The content of a list of named JSON values.
pub open spec fn json_fields_of(v: Seq<(String, JsonValue)>) -> Seq<(Seq<char>, JsonView)> {
    Seq::new(v.len(), |i: int| (v[i].0@, v[i].1@))
}

/// The content of a list of JSON values.
pub open spec fn json_items_of(v: Seq<JsonValue>) -> Seq<JsonView> {
    Seq::new(v.len(), |i: int| v[i]@)
}

/// Pushing a value onto a list pushes its content onto the list's content.
pub proof fn lemma_yaml_items_push(v: Seq<YamlValue>, x: YamlValue)
    ensures
        yaml_items_of(v.push(x)) == yaml_items_of(v).push(x@),
{
    assert(yaml_items_of(v.push(x)) =~= yaml_items_of(v).push(x@));
}

/// Pushing a named value onto a list pushes its content onto the list's content.
pub proof fn lemma_yaml_fields_push(v: Seq<(String, YamlValue)>, x: (String, YamlValue))
    ensures
        yaml_fields_of(v.push(x)) == yaml_fields_of(v).push((x.0@, x.1@)),
{
    assert(yaml_fields_of(v.push(x)) =~= yaml_fields_of(v).push((x.0@, x.1@)));
}

/// Pushing a value onto a list pushes its content onto the list's content.
pub proof fn lemma_json_items_push(v: Seq<JsonValue>, x: JsonValue)
    ensures
        json_items_of(v.push(x)) == json_items_of(v).push(x@),
{
    assert(json_items_of(v.push(x)) =~= json_items_of(v).push(x@));
}

/// Pushing a named value onto a list pushes its content onto the list's content.
pub proof fn lemma_json_fields_push(v: Seq<(String, JsonValue)>, x: (String, JsonValue))
    ensures
        json_fields_of(v.push(x)) == json_fields_of(v).push((x.0@, x.1@)),
{
    assert(json_fields_of(v.push(x)) =~= json_fields_of(v).push((x.0@, x.1@)));
}

/// The view of a sequence is the content of its items.
pub proof fn lemma_yaml_sequence_view(items: Vec<YamlValue>)
    ensures
        YamlValue::Sequence(items)@ == YamlView::Sequence(yaml_items_of(items@)),
{
    assert(YamlValue::Sequence(items)@->Sequence_0 =~= yaml_items_of(items@));
}

/// The view of a mapping is the content of its entries.
pub proof fn lemma_yaml_mapping_view(entries: Vec<(String, YamlValue)>)
    ensures
        YamlValue::Mapping(entries)@ == YamlView::Mapping(yaml_fields_of(entries@)),
{
    let a = YamlValue::Mapping(entries)@->Mapping_0;
    let b = yaml_fields_of(entries@);
    assert(a.len() == b.len());
    assert forall|i: int| 0 <= i < a.len() implies a[i] == b[i] by {
        assert(a[i].0 == entries[i].0@);
        assert(a[i].1 == entries[i].1@);
    }
    assert(a =~= b);
}

/// The view of an array is the content of its items.
pub proof fn lemma_json_array_view(items: Vec<JsonValue>)
    ensures
        JsonValue::Array(items)@ == JsonView::Array(json_items_of(items@)),
{
    assert(JsonValue::Array(items)@->Array_0 =~= json_items_of(items@));
}

/// The view of an object is the content of its fields.
pub proof fn lemma_json_object_view(fields: Vec<(String, JsonValue)>)
    ensures
        JsonValue::Object(fields)@ == JsonView::Object(json_fields_of(fields@)),
{
    let a = JsonValue::Object(fields)@->Object_0;
    let b = json_fields_of(fields@);
    assert(a.len() == b.len());
    assert forall|i: int| 0 <= i < a.len() implies a[i] == b[i] by {
        assert(a[i].0 == fields[i].0@);
        assert(a[i].1 == fields[i].1@);
    }
    assert(a =~= b);
}

impl YamlValue {
    /// A copy of the value.
    #[verifier::loop_isolation(false)]
    pub fn duplicate(&self) -> (r: YamlValue)
        ensures
            r@ == self@,
        decreases self,
    {
        match self {
            YamlValue::Null => YamlValue::Null,
            YamlValue::Bool(b) => YamlValue::Bool(*b),
            YamlValue::Number(n) => YamlValue::Number(n.duplicate()),
            YamlValue::String(s) => YamlValue::String(s.clone()),
            YamlValue::Sequence(items) => {
                let mut out: Vec<YamlValue> = Vec::new();
                let mut i: usize = 0;
                while i < items.len()
                    invariant
                        i <= items.len(),
                        yaml_items_of(out@) == yaml_items_of(items@).take(i as int),
                    decreases items.len() - i,
                {
                    let ghost before = out@;
                    let item = items[i].duplicate();
                    out.push(item);
                    proof {
                        lemma_yaml_items_push(before, item);
                        assert(yaml_items_of(items@).take(i + 1) == yaml_items_of(items@).take(
                            i as int,
                        ).push(yaml_items_of(items@)[i as int]));
                    }
                    i += 1;
                }
                proof {
                    assert(yaml_items_of(items@).take(items.len() as int) == yaml_items_of(items@));
                    lemma_yaml_sequence_view(out);
                    lemma_yaml_sequence_view(*items);
                }
                YamlValue::Sequence(out)
            },
            YamlValue::Mapping(entries) => {
                let mut out: Vec<(String, YamlValue)> = Vec::new();
                let mut i: usize = 0;
                while i < entries.len()
                    invariant
                        i <= entries.len(),
                        yaml_fields_of(out@) == yaml_fields_of(entries@).take(i as int),
                    decreases entries.len() - i,
                {
                    let ghost before = out@;
                    let entry = (entries[i].0.clone(), entries[i].1.duplicate());
                    out.push(entry);
                    proof {
                        lemma_yaml_fields_push(before, entry);
                        assert(yaml_fields_of(entries@).take(i + 1) == yaml_fields_of(
                            entries@,
                        ).take(i as int).push(yaml_fields_of(entries@)[i as int]));
                    }
                    i += 1;
                }
                proof {
                    assert(yaml_fields_of(entries@).take(entries.len() as int) == yaml_fields_of(
                        entries@,
                    ));
                    lemma_yaml_mapping_view(out);
                    lemma_yaml_mapping_view(*entries);
                }
                YamlValue::Mapping(out)
            },
            YamlValue::Tagged => YamlValue::Tagged,
        }
    }
}

/// A JSON value. An object keeps its fields in insertion order.
#[derive(Debug, PartialEq)]
pub enum JsonValue {
    Null,
    Bool(bool),
    Int(i64),
    Float(FloatLiteral),
    String(String),
    Array(Vec<JsonValue>),
    Object(Vec<(String, JsonValue)>),
}

/// The mathematical content of a `JsonValue`.
pub ghost enum JsonView {
    Null,
    Bool(bool),
    Int(int),
    Float(Seq<char>),
    String(Seq<char>),
    Array(Seq<JsonView>),
    Object(Seq<(Seq<char>, JsonView)>),
}

impl View for JsonValue {
    type V = JsonView;

    open spec fn view(&self) -> JsonView
        decreases self,
    {
        match self {
            JsonValue::Null => JsonView::Null,
            JsonValue::Bool(b) => JsonView::Bool(*b),
            JsonValue::Int(i) => JsonView::Int(*i as int),
            JsonValue::Float(f) => JsonView::Float(f@),
            JsonValue::String(s) => JsonView::String(s@),
            JsonValue::Array(items) => JsonView::Array(
                Seq::new(items.len() as nat, |i: int| if 0 <= i < items.len() { items[i]@ } else { JsonView::Null }),
            ),
            JsonValue::Object(fields) => JsonView::Object(
                Seq::new(
                    fields.len() as nat,
                    |i: int|
                        (
                            fields[i].0@,
                            if 0 <= i < fields.len() {
                                fields[i].1@
                            } else {
                                JsonView::Null
                            },
                        ),
                ),
            ),
        }
    }
}

} // verus!
