use wave::{parse_params, validate_params, validate_url};

fn s(x: &str) -> String {
    x.to_string()
}

#[test]
fn test_parse_params_json_body() {
    let params = vec![s("name=joe"), s("age=42"), s("Authorization:Bearer123")];
    let (headers, data) = parse_params(&params);
    assert_eq!(headers, vec![(s("Authorization"), s("Bearer123"))]);
    assert_eq!(data, vec![(s("name"), s("joe")), (s("age"), s("42"))]);
}

#[test]
fn test_parse_params_form_flag_ignored() {
    let params = vec![s("--form"), s("foo=bar"), s("baz=qux"), s("X-Test:1")];
    let (headers, data) = parse_params(&params);
    assert_eq!(headers, vec![(s("X-Test"), s("1"))]);
    assert_eq!(data, vec![(s("foo"), s("bar")), (s("baz"), s("qux"))]);
}

#[test]
fn test_validate_url_with_scheme() {
    assert_eq!(validate_url("https://example.com").unwrap(), "https://example.com");
    assert_eq!(validate_url("http://example.com").unwrap(), "http://example.com");
}

#[test]
fn test_validate_url_adds_scheme() {
    assert_eq!(validate_url("example.com").unwrap(), "http://example.com");
    assert_eq!(validate_url("api.example.com").unwrap(), "http://api.example.com");
}

#[test]
fn test_validate_url_rejects_empty() {
    assert!(validate_url("").is_err());
    assert!(validate_url("   ").is_err());
}

#[test]
fn test_validate_url_rejects_invalid() {
    assert!(validate_url("localhost").is_err());
    assert!(validate_url("not-a-url").is_err());
}

#[test]
fn test_validate_params_valid() {
    let params = vec![s("Authorization:Bearer123"), s("name=joe"), s("age=42")];
    let result = validate_params(&params).unwrap();
    assert_eq!(result.0, vec![(s("Authorization"), s("Bearer123"))]);
    assert_eq!(result.1, vec![(s("name"), s("joe")), (s("age"), s("42"))]);
}

#[test]
fn test_validate_params_empty_header_key() {
    let params = vec![s(":Bearer123")];
    assert!(validate_params(&params).is_err());
}

#[test]
fn test_validate_params_header_with_space() {
    let params = vec![s("Auth orization:Bearer123")];
    assert!(validate_params(&params).is_err());
}

#[test]
fn test_validate_params_empty_body_key() {
    let params = vec![s("=value")];
    assert!(validate_params(&params).is_err());
}

#[test]
fn test_validate_params_invalid_format() {
    let params = vec![s("invalid-param")];
    assert!(validate_params(&params).is_err());
}

#[test]
fn test_validate_url_edge_cases() {
    assert!(validate_url("https://").is_err());
    assert!(validate_url("http://").is_err());
    assert!(validate_url("ftp://example.com").is_ok());
    assert!(validate_url("localhost:8080").is_err());
    assert!(validate_url("192.168.1.1").is_ok());
}

#[test]
fn test_validate_params_edge_cases() {
    assert!(validate_params(&[s("key:")]).is_ok());
    assert!(validate_params(&[s("key=")]).is_ok());
    assert!(validate_params(&[s("Authorization:Bearer token=with=equals")]).is_ok());
    assert!(validate_params(&[s("data=value:with:colons")]).is_ok());
    let result = validate_params(&[s("key=value=more")]).unwrap();
    assert_eq!(result.1[0].1, "value=more");
    let result = validate_params(&[s("key:value:more")]).unwrap();
    assert_eq!(result.0[0].1, "value:more");
}
