use wave::collection::{
    resolve_request_vars, resolve_vars, Body, BodyFault, BodyField, BodyKeys, Collection,
    MissingVariable, Request, VariableKind,
};
use wave::http::Method;
use wave::value::{YamlNumber, YamlValue};

fn s(x: &str) -> String {
    x.to_string()
}

fn vars(pairs: &[(&str, &str)]) -> Vec<(String, String)> {
    pairs.iter().map(|(k, v)| (s(k), s(v))).collect()
}

#[test]
fn test_missing_env_var_error() {
    let file_vars = vars(&[]);
    let err = resolve_vars("${env:DOES_NOT_EXIST}", &file_vars, &vars(&[])).unwrap_err();
    assert!(err.to_string().contains("Missing environment variable"));
    assert_eq!(err, MissingVariable { kind: VariableKind::Environment, name: s("DOES_NOT_EXIST") });
    assert_eq!(err.to_string(), "Missing environment variable: DOES_NOT_EXIST");
}

#[test]
fn test_missing_file_var_error() {
    let file_vars = vars(&[]);
    let err = resolve_vars("${not_defined}", &file_vars, &vars(&[])).unwrap_err();
    assert!(err.to_string().contains("Missing variable"));
    assert_eq!(err.to_string(), "Missing variable: not_defined");
}

#[test]
fn file_placeholder_is_replaced_exactly() {
    let file = vars(&[("api_host", "api.example.com"), ("v", "2")]);
    let out = resolve_vars("https://${api_host}/v${v}/users", &file, &vars(&[])).unwrap();
    assert_eq!(out, "https://api.example.com/v2/users");
    assert!(!out.contains("${"));
}

#[test]
fn env_placeholder_takes_the_environment_value() {
    let env = vars(&[("TOKEN", "secret123")]);
    let file = vars(&[("TOKEN", "from-file")]);
    assert_eq!(resolve_vars("Bearer ${env:TOKEN}", &file, &env).unwrap(), "Bearer secret123");
    let unset = resolve_vars("Bearer ${env:OTHER}", &file, &env).unwrap_err();
    assert_eq!(unset.kind, VariableKind::Environment);
    assert_eq!(unset.name, "OTHER");
}

#[test]
fn text_without_placeholders_comes_back_unchanged() {
    let file = vars(&[("a", "b")]);
    for text in ["", "plain", "$", "a$b", "{x}", "$ {x}", "cost: 5$", "}${"] {
        if text.contains("${") {
            continue;
        }
        assert_eq!(resolve_vars(text, &file, &vars(&[])).unwrap(), text);
    }
}

#[test]
fn values_are_not_resolved_again() {
    let file = vars(&[("a", "${b}"), ("b", "deep")]);
    assert_eq!(resolve_vars("${a}", &file, &vars(&[])).unwrap(), "${b}");
}

#[test]
fn unterminated_placeholder_takes_the_rest_as_name() {
    let file = vars(&[("rest", "value"), ("x", "1")]);
    assert_eq!(resolve_vars("a${rest", &file, &vars(&[])).unwrap(), "avalue");
    let err = resolve_vars("a${x b", &file, &vars(&[])).unwrap_err();
    assert_eq!(err.name, "x b");
    assert_eq!(err.kind, VariableKind::File);
    let err = resolve_vars("${", &file, &vars(&[])).unwrap_err();
    assert_eq!(err.name, "");
}

#[test]
fn first_missing_variable_is_reported() {
    let file = vars(&[("ok", "1")]);
    let err = resolve_vars("${ok}${first}${second}", &file, &vars(&[])).unwrap_err();
    assert_eq!(err.name, "first");
}

#[test]
fn first_of_equal_names_is_looked_up() {
    let file = vars(&[("a", "one"), ("a", "two")]);
    assert_eq!(resolve_vars("${a}", &file, &vars(&[])).unwrap(), "one");
}

fn template() -> Request {
    Request {
        name: s("Get User"),
        method: Method::POST,
        url: s("${base_url}/users/${user_id}"),
        headers: Some(vars(&[
            ("Authorization", "Bearer ${env:TEST_TOKEN}"),
            ("Accept", "application/json"),
        ])),
        body: Some(Body::Json(vec![
            (s("name"), YamlValue::String(s("${who}"))),
            (s("age"), YamlValue::Number(YamlNumber::Integer(30))),
            (s("tags"), YamlValue::Sequence(vec![YamlValue::String(s("${who}"))])),
        ])),
    }
}

#[test]
fn request_is_resolved_in_every_field() {
    let file = vars(&[("base_url", "https://api.example.com"), ("user_id", "42"), ("who", "Al")]);
    let env = vars(&[("TEST_TOKEN", "secret123")]);
    let resolved = resolve_request_vars(&template(), &file, &env).unwrap();
    assert_eq!(resolved.url, "https://api.example.com/users/42");
    assert_eq!(resolved.name, "Get User");
    assert_eq!(resolved.method, Method::POST);
    assert_eq!(
        resolved.headers,
        Some(vars(&[("Authorization", "Bearer secret123"), ("Accept", "application/json")]))
    );
    assert_eq!(
        resolved.body,
        Some(Body::Json(vec![
            (s("name"), YamlValue::String(s("Al"))),
            (s("age"), YamlValue::Number(YamlNumber::Integer(30))),
            (s("tags"), YamlValue::Sequence(vec![YamlValue::String(s("${who}"))])),
        ]))
    );
}

#[test]
fn request_resolution_fails_as_a_whole() {
    let file = vars(&[("base_url", "https://api.example.com"), ("user_id", "42")]);
    let env = vars(&[("TEST_TOKEN", "secret123")]);
    let err = resolve_request_vars(&template(), &file, &env).unwrap_err();
    assert_eq!(err.name, "who");
    let err = resolve_request_vars(&template(), &file, &vars(&[])).unwrap_err();
    assert_eq!(err.kind, VariableKind::Environment);
    let err = resolve_request_vars(&template(), &vars(&[]), &env).unwrap_err();
    assert_eq!(err.name, "base_url");
}

#[test]
fn form_values_are_all_resolved() {
    let req = Request {
        name: s("f"),
        method: Method::PUT,
        url: s("http://h.example"),
        headers: None,
        body: Some(Body::Form(vars(&[("a", "${x}"), ("${x}", "b")]))),
    };
    let resolved = resolve_request_vars(&req, &vars(&[("x", "1")]), &vars(&[])).unwrap();
    assert_eq!(resolved.body, Some(Body::Form(vars(&[("a", "1"), ("${x}", "b")]))));
    assert_eq!(resolved.headers, None);
}

#[test]
fn find_request_gives_the_first_of_a_name() {
    let mut second = template();
    second.url = s("second");
    let coll = Collection { variables: None, requests: vec![template(), second] };
    assert_eq!(coll.find_request("Get User").unwrap().url, "${base_url}/users/${user_id}");
    assert!(coll.find_request("get user").is_none());
}

#[test]
fn body_with_both_json_and_form_is_a_fault() {
    let both = Body::from_parts(Some(vec![]), Some(vec![]));
    assert_eq!(both, Err(BodyFault::Both));
    assert_eq!(
        both.unwrap_err().to_error().to_string(),
        "Invalid YAML in collection file: Only one of 'json' or 'form' can be used in the body of a request. Please specify either 'json' or 'form', not both."
    );
    assert_eq!(Body::from_parts(None, None), Err(BodyFault::Neither));
    assert_eq!(
        BodyFault::Neither.to_string(),
        "Body must contain either 'json' or 'form' key."
    );
    assert_eq!(Body::from_parts(Some(vec![]), None), Ok(Body::Json(vec![])));
    assert_eq!(
        Body::from_parts(None, Some(vars(&[("k", "v")]))),
        Ok(Body::Form(vars(&[("k", "v")])))
    );
}

#[test]
fn body_keys_are_read_once_each() {
    let mut keys = BodyKeys::new();
    assert_eq!(keys.accept("json"), Ok(BodyField::Json));
    assert_eq!(keys.accept("json"), Err(BodyFault::Duplicate(BodyField::Json)));
    assert_eq!(keys.accept("form"), Ok(BodyField::Form));
    assert_eq!(keys.accept("form"), Err(BodyFault::Duplicate(BodyField::Form)));
    assert_eq!(keys.accept("xml"), Err(BodyFault::Unknown(s("xml"))));
    assert_eq!(
        BodyFault::Unknown(s("xml")).to_string(),
        "unknown field `xml`, expected `json` or `form`"
    );
    assert_eq!(BodyFault::Duplicate(BodyField::Form).to_string(), "duplicate field `form`");
    assert!(keys.json && keys.form);
}
