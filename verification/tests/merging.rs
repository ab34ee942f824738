use wave::json::{classify_cli_value, yaml_to_json};
use wave::value::{FloatLiteral, JsonValue, YamlNumber, YamlValue};
use wave::{merge_headers_and_body, merge_json_with_cli_params, parse_cli_value_to_json};

fn s(x: &str) -> String {
    x.to_string()
}

fn pairs(p: &[(&str, &str)]) -> Vec<(String, String)> {
    p.iter().map(|(k, v)| (s(k), s(v))).collect()
}

fn float(text: &str) -> JsonValue {
    JsonValue::Float(FloatLiteral::parse(text).unwrap())
}

#[test]
fn test_merge_headers_and_body() {
    let collection_headers =
        pairs(&[("Authorization", "Bearer123"), ("Content-Type", "application/json")]);
    let collection_body = pairs(&[("name", "collection"), ("type", "test")]);
    let cli_headers = pairs(&[("Authorization", "BearerCLI"), ("X-Custom", "header")]);
    let cli_body = pairs(&[("name", "override"), ("new_field", "value")]);
    let (merged_headers, merged_body) =
        merge_headers_and_body(&collection_headers, &collection_body, &cli_headers, &cli_body);
    assert!(merged_headers.contains(&(s("Authorization"), s("BearerCLI"))));
    assert!(merged_headers.contains(&(s("Content-Type"), s("application/json"))));
    assert!(merged_headers.contains(&(s("X-Custom"), s("header"))));
    assert!(merged_body.contains(&(s("name"), s("override"))));
    assert!(merged_body.contains(&(s("type"), s("test"))));
    assert!(merged_body.contains(&(s("new_field"), s("value"))));
    assert_eq!(
        merged_headers,
        pairs(&[
            ("Authorization", "BearerCLI"),
            ("Content-Type", "application/json"),
            ("X-Custom", "header"),
        ])
    );
    assert_eq!(
        merged_body,
        pairs(&[("name", "override"), ("type", "test"), ("new_field", "value")])
    );
}

#[test]
fn merging_nothing_changes_nothing() {
    let base = pairs(&[("a", "1"), ("b", "2"), ("a", "3")]);
    let (h, b) = merge_headers_and_body(&base, &base, &[], &[]);
    assert_eq!(h, base);
    assert_eq!(b, base);
}

#[test]
fn last_command_line_value_wins() {
    let (h, _) = merge_headers_and_body(
        &pairs(&[("k", "old"), ("z", "9")]),
        &[],
        &pairs(&[("k", "first"), ("n", "x"), ("k", "last")]),
        &[],
    );
    assert_eq!(h, pairs(&[("k", "last"), ("z", "9"), ("n", "x")]));
}

#[test]
fn test_parse_cli_value_to_json() {
    assert_eq!(parse_cli_value_to_json("42"), JsonValue::Int(42));
    assert_eq!(parse_cli_value_to_json("-123"), JsonValue::Int(-123));
    if let JsonValue::Float(n) = parse_cli_value_to_json("2.5") {
        assert_eq!(n.as_str().parse::<f64>().ok(), Some(2.5));
        assert_eq!(n.as_str(), "2.5");
    } else {
        panic!("Expected number value for float");
    }
    assert_eq!(parse_cli_value_to_json("true"), JsonValue::Bool(true));
    assert_eq!(parse_cli_value_to_json("false"), JsonValue::Bool(false));
    assert_eq!(parse_cli_value_to_json("hello"), JsonValue::String(s("hello")));
    assert_eq!(parse_cli_value_to_json("123abc"), JsonValue::String(s("123abc")));
    assert_eq!(parse_cli_value_to_json(""), JsonValue::String(s("")));
}

#[test]
fn cli_values_at_the_edges() {
    assert_eq!(parse_cli_value_to_json("+7"), JsonValue::Int(7));
    assert_eq!(parse_cli_value_to_json("007"), JsonValue::Int(7));
    assert_eq!(parse_cli_value_to_json("9223372036854775807"), JsonValue::Int(i64::MAX));
    assert_eq!(parse_cli_value_to_json("-9223372036854775808"), JsonValue::Int(i64::MIN));
    assert_eq!(parse_cli_value_to_json("9223372036854775808"), float("9223372036854775808"));
    assert_eq!(
        parse_cli_value_to_json("9223372036854775808").encode(),
        serde_json::to_string(&9223372036854775808.0_f64).unwrap()
    );
    assert_eq!(parse_cli_value_to_json("1e3").encode(), "1000.0");
    assert_eq!(parse_cli_value_to_json("-"), JsonValue::String(s("-")));
    assert_eq!(parse_cli_value_to_json("inf"), JsonValue::String(s("inf")));
    assert_eq!(parse_cli_value_to_json("NaN"), JsonValue::String(s("NaN")));
    assert_eq!(parse_cli_value_to_json("1e999"), JsonValue::String(s("1e999")));
    assert_eq!(parse_cli_value_to_json("True"), JsonValue::String(s("True")));
    assert_eq!(parse_cli_value_to_json(" 1"), JsonValue::String(s(" 1")));
    assert_eq!(classify_cli_value("x", None), JsonValue::String(s("x")));
    assert_eq!(classify_cli_value("12", FloatLiteral::parse("12")), JsonValue::Int(12));
    assert!(FloatLiteral::parse("abc").is_none());
}

#[test]
fn test_merge_json_with_cli_params_empty_collection() {
    let cli_params = pairs(&[("name", "alice"), ("age", "30"), ("active", "true")]);
    let result = merge_json_with_cli_params(None, &cli_params);
    let expected = JsonValue::Object(vec![
        (s("name"), JsonValue::String(s("alice"))),
        (s("age"), JsonValue::Int(30)),
        (s("active"), JsonValue::Bool(true)),
    ]);
    assert_eq!(result, expected);
}

#[test]
fn test_merge_json_with_cli_params_preserve_types() {
    let collection_json = JsonValue::Object(vec![
        (s("user_id"), JsonValue::Int(42)),
        (s("score"), float("98.5")),
        (s("active"), JsonValue::Bool(true)),
        (s("name"), JsonValue::String(s("original"))),
        (
            s("metadata"),
            JsonValue::Object(vec![(s("created"), JsonValue::String(s("2023-01-01")))]),
        ),
    ]);
    let cli_params = pairs(&[("name", "updated"), ("new_field", "123")]);
    let result = merge_json_with_cli_params(Some(collection_json), &cli_params);
    let expected = JsonValue::Object(vec![
        (s("user_id"), JsonValue::Int(42)),
        (s("score"), float("98.5")),
        (s("active"), JsonValue::Bool(true)),
        (s("name"), JsonValue::String(s("updated"))),
        (
            s("metadata"),
            JsonValue::Object(vec![(s("created"), JsonValue::String(s("2023-01-01")))]),
        ),
        (s("new_field"), JsonValue::Int(123)),
    ]);
    assert_eq!(result, expected);
}

#[test]
fn test_merge_json_with_cli_params_no_cli_params() {
    let make = || {
        JsonValue::Object(vec![
            (s("count"), JsonValue::Int(42)),
            (s("rate"), float("3.141592653589793")),
            (s("enabled"), JsonValue::Bool(false)),
        ])
    };
    let result = merge_json_with_cli_params(Some(make()), &[]);
    assert_eq!(result, make());
}

#[test]
fn test_merge_json_with_cli_params_type_inference() {
    let cli_params = pairs(&[
        ("integer", "42"),
        ("negative", "-10"),
        ("float", "2.5"),
        ("bool_true", "true"),
        ("bool_false", "false"),
        ("string", "hello world"),
        ("number_like_string", "123abc"),
    ]);
    let result = merge_json_with_cli_params(Some(JsonValue::Object(vec![])), &cli_params);
    let fields = match result {
        JsonValue::Object(f) => f,
        _ => panic!("expected an object"),
    };
    let get = |k: &str| &fields.iter().find(|(key, _)| key == k).unwrap().1;
    assert_eq!(*get("integer"), JsonValue::Int(42));
    assert_eq!(*get("negative"), JsonValue::Int(-10));
    if let JsonValue::Float(n) = get("float") {
        assert_eq!(n.as_str().parse::<f64>().ok(), Some(2.5));
    } else {
        panic!("Expected number value for float");
    }
    assert_eq!(*get("bool_true"), JsonValue::Bool(true));
    assert_eq!(*get("bool_false"), JsonValue::Bool(false));
    assert_eq!(*get("string"), JsonValue::String(s("hello world")));
    assert_eq!(*get("number_like_string"), JsonValue::String(s("123abc")));
}

#[test]
fn override_changes_the_kind_of_a_field() {
    let body = JsonValue::Object(vec![(s("x"), JsonValue::String(s("old")))]);
    let merged = merge_json_with_cli_params(Some(body), &pairs(&[("x", "5")]));
    assert_eq!(merged, JsonValue::Object(vec![(s("x"), JsonValue::Int(5))]));
    assert_eq!(merged.encode(), "{\"x\":5}");
    let body = JsonValue::Object(vec![(s("x"), JsonValue::String(s("old")))]);
    let merged = merge_json_with_cli_params(Some(body), &pairs(&[("x", "42")]));
    assert_eq!(merged.encode(), "{\"x\":42}");
}

#[test]
fn a_body_that_is_no_object_gives_way() {
    let merged = merge_json_with_cli_params(Some(JsonValue::String(s("raw"))), &pairs(&[("a", "1")]));
    assert_eq!(merged, JsonValue::Object(vec![(s("a"), JsonValue::Int(1))]));
    let kept = merge_json_with_cli_params(Some(JsonValue::String(s("raw"))), &[]);
    assert_eq!(kept, JsonValue::String(s("raw")));
    assert_eq!(merge_json_with_cli_params(None, &[]).encode(), "{}");
}

#[test]
fn test_yaml_to_json_conversion() {
    assert_eq!(yaml_to_json(&YamlValue::Null), JsonValue::Null);
    assert_eq!(yaml_to_json(&YamlValue::Bool(true)), JsonValue::Bool(true));
    assert_eq!(yaml_to_json(&YamlValue::String(s("test"))), JsonValue::String(s("test")));
    let yaml_num = YamlValue::Number(YamlNumber::Integer(42));
    assert_eq!(yaml_to_json(&yaml_num), JsonValue::Int(42));
    let yaml_array =
        YamlValue::Sequence(vec![YamlValue::String(s("item1")), YamlValue::String(s("item2"))]);
    assert_eq!(
        yaml_to_json(&yaml_array),
        JsonValue::Array(vec![JsonValue::String(s("item1")), JsonValue::String(s("item2"))])
    );
    let yaml_obj = YamlValue::Mapping(vec![(s("key"), YamlValue::String(s("value")))]);
    assert_eq!(
        yaml_to_json(&yaml_obj),
        JsonValue::Object(vec![(s("key"), JsonValue::String(s("value")))])
    );
}

#[test]
fn yaml_to_json_at_the_edges() {
    assert_eq!(yaml_to_json(&YamlValue::Tagged), JsonValue::Null);
    assert_eq!(yaml_to_json(&YamlValue::Number(YamlNumber::NonFinite)), JsonValue::Null);
    let real = YamlValue::Number(YamlNumber::Real(FloatLiteral::parse("1.5").unwrap()));
    assert_eq!(yaml_to_json(&real).encode(), "1.5");
    let twice = YamlValue::Mapping(vec![
        (s("a"), YamlValue::Bool(false)),
        (s("b"), YamlValue::Null),
        (s("a"), YamlValue::Bool(true)),
    ]);
    assert_eq!(yaml_to_json(&twice).encode(), "{\"a\":true,\"b\":null}");
    assert_eq!(twice.duplicate(), twice);
}

fn to_serde(v: &JsonValue) -> serde_json::Value {
    match v {
        JsonValue::Null => serde_json::Value::Null,
        JsonValue::Bool(b) => serde_json::Value::Bool(*b),
        JsonValue::Int(i) => serde_json::Value::Number((*i).into()),
        JsonValue::Float(f) => serde_json::Value::Number(
            serde_json::Number::from_f64(f.as_str().parse::<f64>().unwrap()).unwrap(),
        ),
        JsonValue::String(t) => serde_json::Value::String(t.clone()),
        JsonValue::Array(items) => serde_json::Value::Array(items.iter().map(to_serde).collect()),
        JsonValue::Object(fields) => serde_json::Value::Object(
            fields.iter().map(|(k, v)| (k.clone(), to_serde(v))).collect(),
        ),
    }
}

#[test]
fn encoding_agrees_with_serde_json() {
    let value = JsonValue::Object(vec![
        (s("zeta"), JsonValue::Null),
        (s("quote\"d\\ key\n"), JsonValue::String(s("tab\t \u{1} caf\u{e9} \u{1F600} /"))),
        (s("min"), JsonValue::Int(i64::MIN)),
        (s("max"), JsonValue::Int(i64::MAX)),
        (s("zero"), JsonValue::Int(0)),
        (s("ten"), JsonValue::Int(-10)),
        (s("f"), float("0.1")),
        (s("big"), float("1e300")),
        (s("t"), JsonValue::Bool(true)),
        (s("f2"), JsonValue::Bool(false)),
        (
            s("nested"),
            JsonValue::Array(vec![
                JsonValue::Array(vec![]),
                JsonValue::Object(vec![]),
                JsonValue::Array(vec![JsonValue::Int(1), JsonValue::Int(2)]),
            ]),
        ),
    ]);
    assert_eq!(value.encode(), serde_json::to_string(&to_serde(&value)).unwrap());
    assert_eq!(JsonValue::Array(vec![]).encode(), "[]");
    assert_eq!(JsonValue::String(s("a\"b")).encode(), "\"a\\\"b\"");
}
