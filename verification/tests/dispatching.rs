use std::sync::{Arc, Mutex};
use wave::collection::{Body, Collection, Request};
use wave::dispatch::{
    collection_not_found, collection_paths, merge_body, merge_request, PreparedBody,
};
use wave::error::{CliError, CollectionError, WaveError};
use wave::http::{
    Client, HeaderMap, HttpBackend, HttpError, HttpRequest, HttpResponse, Method, ReqwestBackend,
};
use wave::params::has_form_flag;
use wave::printer::{
    format_content_type_if_needed, format_headers_section, format_status_line, get_status_style,
    StatusColor,
};
use wave::value::{YamlNumber, YamlValue};
use wave::{
    handle_method_with_body, handle_collection, build_request, ensure_url_scheme,
    headers_to_map, prepare_collection_headers_and_body, spinner_msg, validate_params, Command,
};

fn s(x: &str) -> String {
    x.to_string()
}

fn strings(p: &[&str]) -> Vec<String> {
    p.iter().map(|x| s(x)).collect()
}

fn pairs(p: &[(&str, &str)]) -> Vec<(String, String)> {
    p.iter().map(|(k, v)| (s(k), s(v))).collect()
}

struct MockBackend {
    last_request: Mutex<Option<HttpRequest>>,
    response: HttpResponse,
    error: Option<HttpError>,
}

impl HttpBackend for MockBackend {
    fn send(&self, req: &HttpRequest) -> Result<HttpResponse, HttpError> {
        let mut last = self.last_request.lock().unwrap();
        *last = Some(req.clone());
        if let Some(ref err) = self.error {
            Err(err.clone())
        } else {
            Ok(self.response.clone())
        }
    }
}

struct Shared(Arc<MockBackend>);

impl HttpBackend for Shared {
    fn send(&self, req: &HttpRequest) -> Result<HttpResponse, HttpError> {
        self.0.send(req)
    }
}

fn mock(status: u16, headers: HeaderMap, body: &str, error: Option<HttpError>) -> Arc<MockBackend> {
    Arc::new(MockBackend {
        last_request: Mutex::new(None),
        response: HttpResponse { status, headers, body: s(body) },
        error,
    })
}

#[test]
fn client_test_client_get_calls_backend_and_returns_response() {
    let mut expected_headers = HeaderMap::new();
    expected_headers.insert("x-resp", "ok");
    let backend = mock(200, expected_headers.clone(), "test body", None);
    let client = Client::new(Shared(backend.clone()));
    let req = HttpRequest::new("http://example.com", Method::GET, None, HeaderMap::new());
    let result = client.send(&req);
    assert!(result.is_ok());
    let response = result.unwrap();
    assert_eq!(response.status, 200);
    assert_eq!(response.headers, expected_headers);
    assert_eq!(response.body, "test body");
    let last_req = backend.last_request.lock().unwrap();
    assert!(last_req.is_some());
    let sent_req = last_req.as_ref().unwrap();
    assert_eq!(sent_req.url, "http://example.com");
    assert_eq!(sent_req.method, Method::GET);
}

#[test]
fn client_test_client_post_calls_backend_and_returns_response() {
    let backend = mock(201, HeaderMap::new(), "created", None);
    let client = Client::new(Shared(backend.clone()));
    let mut headers = HeaderMap::new();
    headers.insert("content-type", "application/json");
    let req = HttpRequest::new(
        "http://example.com/api",
        Method::POST,
        Some(s("{\"data\":\"value\"}")),
        headers,
    );
    let result = client.send(&req);
    assert!(result.is_ok());
    assert_eq!(result.unwrap().status, 201);
    let last_req = backend.last_request.lock().unwrap();
    let sent_req = last_req.as_ref().unwrap();
    assert_eq!(sent_req.method, Method::POST);
    assert_eq!(sent_req.body, Some(s("{\"data\":\"value\"}")));
    assert_eq!(sent_req.headers.get("content-type").unwrap(), "application/json");
}

#[test]
fn client_test_client_handles_backend_error() {
    let backend =
        mock(500, HeaderMap::new(), "", Some(HttpError::Network(s("Connection failed"))));
    let client = Client::new(Shared(backend));
    let req = HttpRequest::new("http://example.com", Method::GET, None, HeaderMap::new());
    let result = client.send(&req);
    assert!(result.is_err());
    match result.unwrap_err() {
        HttpError::Network(msg) => assert_eq!(msg, "Connection failed"),
        _ => panic!("Expected HttpError::Network"),
    }
}

#[test]
fn http_client_test_client_get_calls_backend_and_returns_response() {
    let mut expected_headers = HeaderMap::new();
    expected_headers.insert("x-resp", "ok");
    let backend = mock(200, expected_headers, "hello", None);
    let client = Client::new(Shared(backend.clone()));
    let req = HttpRequest::builder("http://test", Method::GET).header("X-Req", "1").build();
    let resp = client.send(&req).unwrap();
    assert_eq!(resp.status, 200);
    assert_eq!(resp.body, "hello");
    let req = backend.last_request.lock().unwrap().clone().unwrap();
    assert_eq!(req.url, "http://test");
    assert_eq!(req.method, Method::GET);
    assert_eq!(req.headers.get("x-req").unwrap(), "1");
}

#[test]
fn http_client_test_client_post_calls_backend_and_returns_response() {
    let backend = mock(201, HeaderMap::new(), "created", None);
    let client = Client::new(Shared(backend.clone()));
    let req = HttpRequest::new("http://test", Method::POST, Some(s("payload")), HeaderMap::new());
    let resp = client.send(&req).unwrap();
    assert_eq!(resp.status, 201);
    assert_eq!(resp.body, "created");
    let req = backend.last_request.lock().unwrap().clone().unwrap();
    assert_eq!(req.method, Method::POST);
    assert_eq!(req.body, Some(s("payload")));
}

#[test]
fn http_client_test_client_handles_backend_error() {
    let backend = mock(500, HeaderMap::new(), "fail", Some(HttpError::Network(s("mock error"))));
    let client = Client::new(Shared(backend.clone()));
    let req = HttpRequest::new("http://fail", Method::GET, None, HeaderMap::new());
    let err = client.send(&req).unwrap_err();
    assert!(matches!(err, HttpError::Network(_)));
    assert_eq!(err.to_string(), "Network error: mock error");
    let req = backend.last_request.lock().unwrap().clone().unwrap();
    assert_eq!(req.url, "http://fail");
}

#[test]
fn test_error_propagation_integration() {
    assert!(build_request(Method::GET, "", &[]).is_err());
    assert!(build_request(Method::GET, "localhost", &strings(&["invalid-param"])).is_err());
    assert!(build_request(Method::GET, "example.com", &strings(&[":empty-key"])).is_err());
}

fn ping_collection() -> Collection {
    Collection {
        variables: Some(pairs(&[("h", "example.com")])),
        requests: vec![Request {
            name: s("ping"),
            method: Method::GET,
            url: s("https://${h}/ping"),
            headers: None,
            body: None,
        }],
    }
}

#[test]
fn collection_request_end_to_end() {
    let coll = ping_collection();
    let req = handle_collection(&coll, "api", "ping", &[], &vec![]).unwrap();
    assert_eq!(req.url, "https://example.com/ping");
    assert_eq!(req.body, None);
    assert_eq!(req.method, Method::GET);
    assert!(req.headers.is_empty());
    let backend = mock(200, HeaderMap::new(), "pong", None);
    let client = Client::new(Shared(backend.clone()));
    let resp = client.send(&req).unwrap();
    assert_eq!(resp.status, 200);
    let seen = backend.last_request.lock().unwrap().clone().unwrap();
    assert_eq!(seen.url, req.url);
    assert_eq!(seen.method, req.method);
    assert_eq!(seen.body, req.body);
    assert_eq!(seen.headers, req.headers);
}

#[test]
fn command_line_tokens_end_to_end() {
    let tokens = strings(&["Authorization:Bearer123", "name=joe", "age=30"]);
    let (headers, fields) = validate_params(&tokens).unwrap();
    assert_eq!(headers, pairs(&[("Authorization", "Bearer123")]));
    assert_eq!(fields, pairs(&[("name", "joe"), ("age", "30")]));
    let req = handle_method_with_body(Method::POST, "example.com", &tokens, false).unwrap();
    assert_eq!(req.body, Some(s("{\"name\":\"joe\",\"age\":30}")));
    assert_eq!(req.url, "http://example.com");
    assert_eq!(req.headers.get("authorization").unwrap(), "Bearer123");
    assert_eq!(req.headers.get("content-type").unwrap(), "application/json");
}

#[test]
fn form_flag_after_a_token_is_an_error() {
    let late = strings(&["name=joe", "--form"]);
    match validate_params(&late) {
        Err(WaveError::Cli(CliError::InvalidHeaderFormat(msg))) => assert_eq!(
            msg,
            "Parameter '--form' must come before every 'key:value' and 'key=value' parameter"
        ),
        _ => panic!("expected a command-line error"),
    }
    assert!(validate_params(&strings(&["X-A:1", "--form", "a=b"])).is_err());
    assert!(handle_method_with_body(Method::POST, "example.com", &late, false).is_err());
    let early = strings(&["--form", "--form", "name=joe doe", "X-A:1"]);
    assert!(has_form_flag(&early));
    assert!(!has_form_flag(&strings(&["a=b"])));
    let req = handle_method_with_body(Method::PUT, "example.com", &early, false).unwrap();
    assert_eq!(req.body, Some(s("name=joe%20doe")));
    assert_eq!(req.headers.get("content-type").unwrap(), "application/x-www-form-urlencoded");
    let req = handle_method_with_body(Method::PUT, "example.com", &strings(&["a=1"]), true).unwrap();
    assert_eq!(req.body, Some(s("a=1")));
}

#[test]
fn malformed_token_message() {
    match validate_params(&strings(&["oops"])) {
        Err(WaveError::Cli(CliError::InvalidHeaderFormat(msg))) => assert_eq!(
            msg,
            "Parameter 'oops' must be in 'key:value' (header) or 'key=value' (body) format"
        ),
        _ => panic!("expected a command-line error"),
    }
    match validate_params(&strings(&["=v"])) {
        Err(WaveError::Cli(CliError::InvalidBodyFormat(p))) => assert_eq!(p, "=v"),
        _ => panic!("expected a body format error"),
    }
    match validate_params(&strings(&["ok:1", " :v"])) {
        Err(WaveError::Cli(CliError::InvalidHeaderFormat(p))) => assert_eq!(p, " :v"),
        _ => panic!("expected a header format error"),
    }
    let (h, d) = validate_params(&strings(&["  k \u{a0}:  v  ", "a = b\t"])).unwrap();
    assert_eq!(h, pairs(&[("k", "v")]));
    assert_eq!(d, pairs(&[("a", "b")]));
}

fn post_template(body: Option<Body>, headers: Option<Vec<(String, String)>>) -> Request {
    Request { name: s("create"), method: Method::POST, url: s("https://h.example/x"), headers, body }
}

#[test]
fn json_template_is_merged_with_the_command_line() {
    let req = post_template(
        Some(Body::Json(vec![
            (s("x"), YamlValue::String(s("old"))),
            (s("n"), YamlValue::Number(YamlNumber::Integer(1))),
        ])),
        Some(pairs(&[("Authorization", "Bearer123")])),
    );
    let out =
        merge_request(&req, &pairs(&[("authorization", "cli"), ("X-New", "1")]), &pairs(&[("x", "5")]))
            .unwrap();
    assert_eq!(out.body, Some(s("{\"x\":5,\"n\":1}")));
    assert_eq!(
        out.headers.to_pairs(),
        pairs(&[("authorization", "cli"), ("content-type", "application/json"), ("x-new", "1")])
    );
}

#[test]
fn form_template_round_trips_without_overrides() {
    let fields = pairs(&[("a b", "1&2"), ("k", ""), ("caf\u{e9}", "x=y")]);
    let req = post_template(Some(Body::Form(fields.clone())), None);
    let (headers, body) = prepare_collection_headers_and_body(&req);
    assert_eq!(headers, pairs(&[("Content-Type", "application/x-www-form-urlencoded")]));
    assert_eq!(body, PreparedBody::Form(fields.clone()));
    let direct = wave::http::form::encode_form(&fields);
    assert_eq!(direct, "a%20b=1%262&k=&caf%C3%A9=x%3Dy");
    assert_eq!(merge_body(body, &[]), direct);
    let out = merge_request(&req, &[], &pairs(&[("k", "new value"), ("z", "9")])).unwrap();
    assert_eq!(out.body, Some(s("a%20b=1%262&k=new%20value&caf%C3%A9=x%3Dy&z=9")));
}

#[test]
fn explicit_content_type_of_a_template_is_kept() {
    let req = post_template(
        Some(Body::Json(vec![])),
        Some(pairs(&[("content-TYPE", "application/vnd.api+json")])),
    );
    let (headers, _) = prepare_collection_headers_and_body(&req);
    assert_eq!(headers, pairs(&[("content-TYPE", "application/vnd.api+json")]));
    let absent = post_template(None, None);
    let (headers, body) = prepare_collection_headers_and_body(&absent);
    assert!(headers.is_empty());
    assert_eq!(body, PreparedBody::Absent);
    assert_eq!(merge_request(&absent, &[], &[]).unwrap().body, Some(s("{}")));
}

#[test]
fn collection_errors() {
    let coll = ping_collection();
    match handle_collection(&coll, "api", "nope", &[], &vec![]) {
        Err(WaveError::Collection(CollectionError::RequestNotFound { collection, request })) => {
            assert_eq!(collection, "api");
            assert_eq!(request, "nope");
        },
        _ => panic!("expected request not found"),
    }
    let bare = Collection { variables: None, requests: ping_collection().requests };
    match handle_collection(&bare, "api", "ping", &[], &vec![]) {
        Err(WaveError::Collection(CollectionError::VariableResolution(msg))) => {
            assert_eq!(msg, "Missing variable: h")
        },
        _ => panic!("expected a resolution error"),
    }
    assert!(handle_collection(&coll, "api", "ping", &strings(&["bad"]), &vec![]).is_err());
    let mut head = ping_collection();
    head.requests[0].method = Method::HEAD;
    match handle_collection(&head, "api", "ping", &[], &vec![]) {
        Err(WaveError::Cli(CliError::UnsupportedMethod(m))) => assert_eq!(m, "HEAD"),
        _ => panic!("expected an unsupported method"),
    }
    let mut del = ping_collection();
    del.requests[0].method = Method::DELETE;
    let req = handle_collection(&del, "api", "ping", &strings(&["X-A:1", "a=b"]), &vec![])
        .unwrap();
    assert_eq!(req.body, None);
    assert_eq!(req.headers.to_pairs(), pairs(&[("x-a", "1")]));
}

#[test]
fn paths_and_messages() {
    assert_eq!(collection_paths("api"), (s(".wave/api.yaml"), s(".wave/api.yml")));
    match collection_not_found("api") {
        WaveError::Collection(CollectionError::FileNotFound(p)) => {
            assert_eq!(p, "api.yaml or api.yml")
        },
        _ => panic!("expected file not found"),
    }
    assert_eq!(spinner_msg("GET", "http://x.y", &[]), "GET http://x.y");
    assert_eq!(spinner_msg("POST", "http://x.y", &strings(&["a=b"])), "POST http://x.y ");
    assert_eq!(ensure_url_scheme("x.y"), "http://x.y");
    assert_eq!(ensure_url_scheme("https://x.y"), "https://x.y");
}

#[test]
fn headers_to_map_passes_over_what_cannot_be_a_header() {
    let map = headers_to_map(pairs(&[("A", "1"), ("bad name", "2"), ("b", "\u{7f}"), ("a", "3")]));
    assert_eq!(map.to_pairs(), pairs(&[("a", "3")]));
}

#[test]
fn backend_parts() {
    assert_eq!(ReqwestBackend::verb(Method::OPTIONS), "OPTIONS");
    assert_eq!(ReqwestBackend::verb(Method::PATCH), "PATCH");
    let req = HttpRequest::builder("http://x.y", Method::GET).header("X-A", "caf\u{e9}").build();
    assert_eq!(ReqwestBackend::wire_headers(&req), pairs(&[("x-a", "caf\u{e9}")]));
    let resp = ReqwestBackend::response(
        204,
        pairs(&[("Set-Cookie", "a"), ("set-cookie", "b")]),
        s("body"),
    );
    assert_eq!(resp.status, 204);
    assert_eq!(resp.body, "body");
    assert_eq!(resp.headers.to_pairs(), pairs(&[("set-cookie", "b")]));
}

#[test]
fn commands_give_their_requests() {
    let get = Command::Get { url: s("example.com"), params: strings(&["X-A:1"]), verbose: true };
    assert!(get.verbose());
    assert_eq!(get.spinner(), Some(s("GET example.com ")));
    let req = get.request().unwrap().unwrap();
    assert_eq!(req.method, Method::GET);
    assert_eq!(req.url, "http://example.com");
    let post = Command::Post {
        url: s("example.com"),
        params: strings(&["a=1"]),
        form: false,
        verbose: false,
    };
    assert_eq!(post.request().unwrap().unwrap().body, Some(s("{\"a\":1}")));
    let bad = Command::Delete { url: s(""), params: vec![], verbose: false };
    assert!(bad.request().unwrap().is_err());
    assert_eq!(bad.spinner(), Some(s("DELETE ")));
    let coll = Command::Collection {
        collection: s("api"),
        request: s("ping"),
        verbose: false,
        params: vec![],
    };
    assert!(coll.request().is_none());
    assert!(coll.spinner().is_none());
}

#[test]
fn form_text_is_read_back_as_it_stands() {
    let read = wave::parse_form_to_key_value_pairs("a%20b=1%262&k=&flag&x=y=z");
    assert_eq!(read, pairs(&[("a%20b", "1%262"), ("k", ""), ("flag", ""), ("x", "y=z")]));
    assert_eq!(wave::parse_form_to_key_value_pairs(""), pairs(&[("", "")]));
    assert_eq!(wave::parse_form_to_key_value_pairs("a=1&"), pairs(&[("a", "1"), ("", "")]));
}

#[test]
fn printer_decisions() {
    assert_eq!(get_status_style(200), StatusColor::Green);
    assert_eq!(get_status_style(299), StatusColor::Green);
    assert_eq!(get_status_style(301), StatusColor::Yellow);
    assert_eq!(get_status_style(404), StatusColor::Red);
    assert_eq!(get_status_style(599), StatusColor::Red);
    assert_eq!(get_status_style(600), StatusColor::White);
    assert_eq!(get_status_style(100), StatusColor::White);
    assert_eq!(format_status_line(404), "Status: 404");
    let mut headers = HeaderMap::new();
    headers.insert("content-type", "text/html");
    headers.insert("x-error", "caf\u{e9}");
    let make = |status| HttpResponse { status, headers: headers.clone(), body: s("<p>") };
    assert_eq!(format_headers_section(&make(200), false), (vec![], false));
    let shown = pairs(&[("content-type", "text/html"), ("x-error", "<invalid header value>")]);
    assert_eq!(format_headers_section(&make(200), true), (shown.clone(), true));
    assert_eq!(format_headers_section(&make(404), false), (shown, true));
    assert_eq!(format_content_type_if_needed(&make(200), false, false), Some(s("text/html")));
    assert_eq!(format_content_type_if_needed(&make(200), true, false), None);
    assert_eq!(format_content_type_if_needed(&make(200), false, true), None);
    let bare = HttpResponse { status: 200, headers: HeaderMap::new(), body: s("") };
    assert_eq!(format_content_type_if_needed(&bare, false, false), None);
}
