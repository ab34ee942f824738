use wave::http::{
    parse_method, HeaderMap, HttpError, HttpRequest, HttpResponse, Method, RequestBody,
};
use wave::value::JsonValue;

fn response(status: u16, body: &str) -> HttpResponse {
    HttpResponse { status, headers: HeaderMap::new(), body: body.to_string() }
}

fn with_content_type(value: &str, body: &str) -> HttpResponse {
    let mut headers = HeaderMap::new();
    assert!(headers.insert("content-type", value));
    HttpResponse { status: 200, headers, body: body.to_string() }
}

fn check_request_construction() {
    let mut headers = HeaderMap::new();
    headers.insert("x-test", "1");
    let req = HttpRequest::new(
        "http://example.com",
        Method::POST,
        Some("body".to_string()),
        headers.clone(),
    );
    assert_eq!(req.url, "http://example.com");
    assert_eq!(req.method, Method::POST);
    assert_eq!(req.body, Some("body".to_string()));
    assert_eq!(req.headers, headers);
}

#[test]
fn request_test_http_request_construction() {
    check_request_construction();
}

#[test]
fn http_client_test_http_request_construction() {
    check_request_construction();
}

fn check_parse_method() {
    assert_eq!(parse_method("GET").expect("Test: Valid GET"), Method::GET);
    assert_eq!(parse_method("get").expect("Test: Valid get"), Method::GET);
    assert_eq!(parse_method("POST").expect("Test: Valid POST"), Method::POST);
    assert_eq!(parse_method("put").expect("Test: Valid put"), Method::PUT);
    assert_eq!(parse_method("DELETE").expect("Test: Valid DELETE"), Method::DELETE);
    assert_eq!(parse_method("patch").expect("Test: Valid patch"), Method::PATCH);
    assert_eq!(parse_method("HEAD").expect("Test: Valid HEAD"), Method::HEAD);
    assert_eq!(parse_method("options").expect("Test: Valid options"), Method::OPTIONS);
    assert!(matches!(parse_method("INVALID"), Err(HttpError::UnsupportedMethod(_))));
}

#[test]
fn utils_test_parse_method() {
    check_parse_method();
}

#[test]
fn http_client_test_parse_method() {
    check_parse_method();
}

#[test]
fn parse_method_keeps_the_given_text_in_its_error() {
    match parse_method("Fetch") {
        Err(HttpError::UnsupportedMethod(given)) => assert_eq!(given, "Fetch"),
        _ => panic!("expected an unsupported method"),
    }
    assert!(parse_method("").is_err());
}

#[test]
fn response_test_response_status_methods() {
    let resp_200 = response(200, "OK");
    let resp_201 = response(201, "Created");
    assert!(resp_200.is_success());
    assert!(resp_201.is_success());
    let resp_404 = response(404, "Not Found");
    assert!(resp_404.is_client_error());
    assert!(resp_404.is_error());
    assert!(!resp_404.is_success());
    let resp_500 = response(500, "Internal Server Error");
    assert!(resp_500.is_server_error());
    assert!(resp_500.is_error());
    assert!(!resp_500.is_success());
}

#[test]
fn http_client_test_response_status_methods() {
    let resp_200 = response(200, "OK");
    let resp_201 = response(201, "Created");
    let resp_299 = response(299, "Custom success");
    let resp_300 = response(300, "Redirect");
    assert!(resp_200.is_success());
    assert!(resp_201.is_success());
    assert!(resp_299.is_success());
    assert!(!resp_300.is_success());
    let resp_399 = response(399, "Custom redirect");
    let resp_400 = response(400, "Bad request");
    let resp_404 = response(404, "Not found");
    let resp_499 = response(499, "Custom client error");
    let resp_500 = response(500, "Server error");
    assert!(!resp_200.is_client_error());
    assert!(!resp_399.is_client_error());
    assert!(resp_400.is_client_error());
    assert!(resp_404.is_client_error());
    assert!(resp_499.is_client_error());
    assert!(!resp_500.is_client_error());
    let resp_502 = response(502, "Bad gateway");
    let resp_599 = response(599, "Custom server error");
    let resp_600 = response(600, "Custom status");
    assert!(!resp_404.is_server_error());
    assert!(!resp_499.is_server_error());
    assert!(resp_500.is_server_error());
    assert!(resp_502.is_server_error());
    assert!(resp_599.is_server_error());
    assert!(!resp_600.is_server_error());
    assert!(!resp_200.is_error());
    assert!(!resp_399.is_error());
    assert!(resp_400.is_error());
    assert!(resp_500.is_error());
}

fn check_content_type(no_header_body: &str) {
    let resp_json = with_content_type("application/json; charset=utf-8", "{}");
    let resp_html = with_content_type("text/html", "<html></html>");
    let resp_none = response(200, no_header_body);
    assert_eq!(resp_json.content_type(), Some("application/json; charset=utf-8"));
    assert_eq!(resp_html.content_type(), Some("text/html"));
    assert_eq!(resp_none.content_type(), None);
}

#[test]
fn response_test_response_content_type() {
    check_content_type("data");
}

#[test]
fn http_client_test_response_content_type() {
    check_content_type("plain text");
}

fn check_is_json() {
    assert!(with_content_type("application/json", "{}").is_json());
    assert!(with_content_type("application/json; charset=utf-8", "{}").is_json());
    assert!(with_content_type("text/json", "{}").is_json());
    assert!(!with_content_type("text/html", "<html></html>").is_json());
    assert!(!response(200, "{}").is_json());
}

#[test]
fn response_test_response_is_json() {
    check_is_json();
}

#[test]
fn http_client_test_response_is_json() {
    check_is_json();
}

fn check_text() {
    let resp = response(200, "Hello, World!");
    assert_eq!(resp.text(), "Hello, World!");
    assert_eq!(resp.text(), &resp.body);
}

#[test]
fn response_test_response_text() {
    check_text();
}

#[test]
fn http_client_test_response_text() {
    check_text();
}

fn check_form_encoding() {
    let mut headers = HeaderMap::new();
    let data = vec![
        ("foo".to_string(), "bar baz".to_string()),
        ("qux".to_string(), "1&2".to_string()),
    ];
    let body = RequestBody::form(data);
    let encoded = body.serialize(&mut headers);
    assert_eq!(encoded, "foo=bar%20baz&qux=1%262");
    assert!(headers.contains_key("content-type"));
    assert_eq!(headers.get("content-type").unwrap(), "application/x-www-form-urlencoded");
}

#[test]
fn request_test_request_body_form_encoding() {
    check_form_encoding();
}

#[test]
fn http_client_test_request_body_form_encoding() {
    check_form_encoding();
}

fn check_json_encoding() {
    let mut headers = HeaderMap::new();
    let data = JsonValue::Object(vec![
        ("foo".to_string(), JsonValue::String("bar".to_string())),
        ("baz".to_string(), JsonValue::String("qux".to_string())),
    ]);
    let body = RequestBody::json(data).unwrap();
    let encoded = body.serialize(&mut headers);
    let encoded_json: serde_json::Value = serde_json::from_str(&encoded).unwrap();
    let mut expected = serde_json::Map::new();
    expected.insert("foo".to_string(), serde_json::Value::String("bar".to_string()));
    expected.insert("baz".to_string(), serde_json::Value::String("qux".to_string()));
    assert_eq!(encoded_json, serde_json::Value::Object(expected));
    assert!(headers.contains_key("content-type"));
    assert_eq!(headers.get("content-type").unwrap(), "application/json");
}

#[test]
fn request_test_request_body_json_encoding() {
    check_json_encoding();
}

#[test]
fn http_client_test_request_body_json_encoding() {
    check_json_encoding();
}

fn check_text_body() {
    let body = RequestBody::text("Hello, World!".to_string());
    let mut headers = HeaderMap::new();
    let serialized = body.serialize(&mut headers);
    assert!(headers.contains_key("content-type"));
    assert_eq!(headers.get("content-type").unwrap(), "text/plain");
    assert_eq!(serialized, "Hello, World!");
}

#[test]
fn request_test_request_body_text() {
    check_text_body();
}

#[test]
fn http_client_test_request_body_text() {
    check_text_body();
}

fn check_builder() {
    let data = JsonValue::Object(vec![(
        "test".to_string(),
        JsonValue::String("data".to_string()),
    )]);
    let req = HttpRequest::builder("https://example.com", Method::POST)
        .header("Authorization", "Bearer token")
        .body(RequestBody::json(data).unwrap())
        .build();
    assert_eq!(req.url, "https://example.com");
    assert_eq!(req.method, Method::POST);
    assert_eq!(req.headers.get("authorization").unwrap(), "Bearer token");
    assert_eq!(req.headers.get("content-type").unwrap(), "application/json");
    assert!(req.body.is_some());
    assert_eq!(req.body.unwrap(), "{\"test\":\"data\"}");
}

#[test]
fn request_test_request_builder() {
    check_builder();
}

#[test]
fn http_client_test_request_builder() {
    check_builder();
}

#[test]
fn an_explicit_content_type_is_never_replaced() {
    let mut headers = HeaderMap::new();
    headers.insert("Content-Type", "application/vnd.api+json");
    let body = RequestBody::json(JsonValue::Object(vec![])).unwrap();
    assert_eq!(body.serialize(&mut headers), "{}");
    assert_eq!(headers.get("content-type").unwrap(), "application/vnd.api+json");
    assert_eq!(headers.len(), 1);
}

#[test]
fn bytes_body_is_decoded_with_replacement() {
    let mut headers = HeaderMap::new();
    let body = RequestBody::bytes(vec![0x68, 0x69, 0xFF]);
    assert_eq!(body.serialize(&mut headers), "hi\u{FFFD}");
    assert_eq!(headers.get("content-type").unwrap(), "application/octet-stream");
}

#[test]
fn header_map_keeps_order_and_lowers_names() {
    let mut h = HeaderMap::new();
    assert!(h.is_empty());
    assert!(h.insert("X-One", "1"));
    assert!(h.insert("x-two", "2"));
    assert!(h.insert("X-ONE", "3"));
    assert_eq!(h.len(), 2);
    assert_eq!(h.name_at(0), "x-one");
    assert_eq!(h.value_at(0), "3");
    assert_eq!(h.name_at(1), "x-two");
    assert_eq!(h.get("X-Two").unwrap(), "2");
    assert!(!h.insert("bad name", "v"));
    assert!(!h.insert("", "v"));
    assert!(!h.insert("ok", "line\nbreak"));
    assert!(h.insert("ok", "tab\tand caf\u{e9}"));
    assert!(!h.contains_key("missing"));
    assert!(!h.contains_key("bad name"));
    assert_eq!(
        h.to_pairs(),
        vec![
            ("x-one".to_string(), "3".to_string()),
            ("x-two".to_string(), "2".to_string()),
            ("ok".to_string(), "tab\tand caf\u{e9}".to_string()),
        ]
    );
}

#[test]
fn content_type_with_other_than_visible_ascii_is_not_given() {
    let resp = with_content_type("text/caf\u{e9}", "x");
    assert_eq!(resp.content_type(), None);
    assert!(!resp.is_json());
}
