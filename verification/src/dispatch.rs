//! From a command to the request that it asks for.
//!
//! Nothing here reads a file or sends a request: each function takes what
//! was read and gives the request to send, or the error to report.

use crate::collection::{
    missing_message, resolve_request_vars, resolved_request, Body, BodyView, Collection, Request,
    RequestView,
};
use crate::error::{
    concat3, CliError, CliErrorView, CollectionError, CollectionErrorView, WaveError,
    WaveErrorView,
};
use crate::http::form::form_text;
use crate::http::headers::{ascii_lowered, headers_to_map, lower_char, set_headers};
use crate::http::method::Method;
use crate::http::request::{
    content_type_name, HttpRequest, HttpRequestView, RequestBody, RequestBodyView,
    RequestBuilderView,
};
use crate::json::{
    json_of_entries, json_text, merge_json_with_cli_params, merged_json, yaml_fields_to_json,
};
use crate::merge::{merge_pairs, merged};
use crate::pairs::{clone_pairs, lemma_pairs_push, pairs_of, PairSeq};
use crate::params::{
    form_flag_upto, has_form_flag, texts_of, validate_params, validated_params,
};
use crate::text::{chars_of, owned};
use crate::url::{validate_url, validated_url};
use crate::value::{lemma_json_object_view, JsonValue, JsonView};
use vstd::prelude::*;

verus! {

/// Whether one of the first `n` keys of `h` is `content-type`, whatever the
/// case of its letters.
pub open spec fn names_content_type_upto(h: PairSeq, n: int) -> bool
    decreases n,
{
    if n <= 0 || n > h.len() {
        false
    } else {
        names_content_type_upto(h, n - 1) || ascii_lowered(h[n - 1].0) == content_type_name()
    }
}

/// Whether one of the keys of `h` is `content-type`, whatever the case of
/// its letters.
pub open spec fn names_content_type(h: PairSeq) -> bool {
    names_content_type_upto(h, h.len() as int)
}

/// `h` with the header `Content-Type: content_type` at its end, unless `h`
/// names a content type already.
pub open spec fn offering_content_type(h: PairSeq, content_type: Seq<char>) -> PairSeq {
    if names_content_type(h) {
        h
    } else {
        h.push(("Content-Type"@, content_type))
    }
}

/// Whether `s` is `content-type`, whatever the case of its letters.
pub fn is_content_type_name(s: &str) -> (r: bool)
    ensures
        r == (ascii_lowered(s@) == content_type_name()),
{
    let cs = chars_of(s);
    let target = chars_of("content-type");
    proof {
        crate::http::request::lemma_content_type_name();
    }
    if cs.len() != target.len() {
        return false;
    }
    let mut i: usize = 0;
    while i < cs.len()
        invariant
            i <= cs.len(),
            cs.len() == target.len(),
            cs@ == s@,
            target@ == content_type_name(),
            forall|k: int| 0 <= k < i ==> ascii_lowered(cs@)[k] == target@[k],
        decreases cs.len() - i,
    {
        if lower_char(cs[i]) != target[i] {
            assert(ascii_lowered(cs@)[i as int] != target@[i as int]);
            return false;
        }
        i += 1;
    }
    assert(ascii_lowered(cs@) =~= target@);
    true
}

/// Whether one of the keys of `headers` is `content-type`, whatever the
/// case of its letters.
pub fn has_content_type(headers: &Vec<(String, String)>) -> (r: bool)
    ensures
        r == names_content_type(pairs_of(headers@)),
{
    let mut i: usize = 0;
    while i < headers.len()
        invariant
            i <= headers.len(),
            !names_content_type_upto(pairs_of(headers@), i as int),
        decreases headers.len() - i,
    {
        if is_content_type_name(headers[i].0.as_str()) {
            proof {
                lemma_content_type_stays(pairs_of(headers@), i + 1, headers.len() as int);
            }
            return true;
        }
        i += 1;
    }
    false
}

/// A content type that was seen stays seen.
pub proof fn lemma_content_type_stays(h: PairSeq, k: int, n: int)
    requires
        0 <= k <= n <= h.len(),
        names_content_type_upto(h, k),
    ensures
        names_content_type_upto(h, n),
    decreases n - k,
{
    if k < n {
        lemma_content_type_stays(h, k, n - 1);
    }
}

/// The body of a resolved request, ready to take the fields of the command
/// line.
#[derive(Debug, PartialEq)]
pub enum PreparedBody {
    /// The request declares no body.
    Absent,
    /// A JSON object.
    Json(JsonValue),
    /// Form fields, not yet encoded.
    Form(Vec<(String, String)>),
}

/// The mathematical content of a `PreparedBody`.
pub ghost enum PreparedBodyView {
    Absent,
    Json(JsonView),
    Form(PairSeq),
}

impl View for PreparedBody {
    type V = PreparedBodyView;

    open spec fn view(&self) -> PreparedBodyView {
        match self {
            PreparedBody::Absent => PreparedBodyView::Absent,
            PreparedBody::Json(v) => PreparedBodyView::Json(v@),
            PreparedBody::Form(f) => PreparedBodyView::Form(pairs_of(f@)),
        }
    }
}

/// The headers of a resolved request, none counting as an empty list.
pub open spec fn declared_headers(req: RequestView) -> PairSeq {
    match req.headers {
        Some(h) => h,
        None => Seq::empty(),
    }
}

/// The headers that a resolved request offers: its own, and the content
/// type of its body unless its own name one.
pub open spec fn prepared_headers(req: RequestView) -> PairSeq {
    match req.body {
        Some(BodyView::Json(_)) => offering_content_type(
            declared_headers(req),
            "application/json"@,
        ),
        Some(BodyView::Form(_)) => offering_content_type(
            declared_headers(req),
            "application/x-www-form-urlencoded"@,
        ),
        None => declared_headers(req),
    }
}

/// The body that a resolved request offers: the JSON object of its YAML
/// fields, or its form fields.
pub open spec fn prepared_body(req: RequestView) -> PreparedBodyView {
    match req.body {
        Some(BodyView::Json(fields)) => PreparedBodyView::Json(
            JsonView::Object(json_of_entries(fields, fields.len() as int)),
        ),
        Some(BodyView::Form(fields)) => PreparedBodyView::Form(fields),
        None => PreparedBodyView::Absent,
    }
}

/// The headers and the body that a resolved request of a collection offers,
/// before the command line is put over them.
pub fn prepare_collection_headers_and_body(resolved: &Request) -> (r: (
    Vec<(String, String)>,
    PreparedBody,
))
    ensures
        pairs_of(r.0@) == prepared_headers(resolved@),
        r.1@ == prepared_body(resolved@),
{
    let mut headers: Vec<(String, String)> = match &resolved.headers {
        Some(h) => clone_pairs(h),
        None => {
            let empty: Vec<(String, String)> = Vec::new();
            assert(pairs_of(empty@) =~= Seq::<(Seq<char>, Seq<char>)>::empty());
            empty
        },
    };
    match &resolved.body {
        Some(Body::Json(fields)) => {
            let object = yaml_fields_to_json(fields);
            proof {
                lemma_json_object_view(object);
            }
            if !has_content_type(&headers) {
                let ghost before = headers@;
                let pair = (owned("Content-Type"), owned("application/json"));
                headers.push(pair);
                proof {
                    lemma_pairs_push(before, pair);
                }
            }
            (headers, PreparedBody::Json(JsonValue::Object(object)))
        },
        Some(Body::Form(fields)) => {
            if !has_content_type(&headers) {
                let ghost before = headers@;
                let pair = (owned("Content-Type"), owned("application/x-www-form-urlencoded"));
                headers.push(pair);
                proof {
                    lemma_pairs_push(before, pair);
                }
            }
            (headers, PreparedBody::Form(clone_pairs(fields)))
        },
        None => (headers, PreparedBody::Absent),
    }
}

/// The body on the wire: what the request offers with the body fields of
/// the command line put over it. Form fields are merged as strings and then
/// encoded; a JSON object takes each field of the command line as a JSON
/// value; no body counts as an empty JSON object.
pub open spec fn merged_body_text(body: PreparedBodyView, cli_body: PairSeq) -> Seq<char> {
    match body {
        PreparedBodyView::Form(fields) => form_text(merged(fields, cli_body)),
        PreparedBodyView::Json(v) => json_text(merged_json(Some(v), cli_body)),
        PreparedBodyView::Absent => json_text(merged_json(None, cli_body)),
    }
}

/// A form body round-trips: encoded, then merged with no field of the
/// command line, it is on the wire exactly what its encoding is.
pub proof fn law_form_round_trip(fields: PairSeq)
    ensures
        merged_body_text(PreparedBodyView::Form(fields), Seq::empty()) == form_text(fields),
{
    crate::merge::law_merge_nothing(fields);
}

/// The body on the wire: what the request offers with the body fields of
/// the command line put over it.
pub fn merge_body(body: PreparedBody, cli_body: &[(String, String)]) -> (r: String)
    ensures
        r@ == merged_body_text(body@, pairs_of(cli_body@)),
{
    match body {
        PreparedBody::Form(fields) => {
            let all = merge_pairs(fields.as_slice(), cli_body);
            crate::http::form::encode_form(all.as_slice())
        },
        PreparedBody::Json(v) => merge_json_with_cli_params(Some(v), cli_body).encode(),
        PreparedBody::Absent => merge_json_with_cli_params(None, cli_body).encode(),
    }
}

/// The request that a resolved request of a collection and the parameters
/// of the command line ask for. GET and DELETE carry no body; POST, PUT and
/// PATCH carry the merged body; any other method is refused.
pub open spec fn merged_request(res: RequestView, cli_headers: PairSeq, cli_body: PairSeq)
    -> Result<HttpRequestView, WaveErrorView> {
    if res.method == Method::GET || res.method == Method::DELETE {
        Ok(
            HttpRequestView {
                url: res.url,
                method: res.method,
                body: None,
                headers: set_headers(Seq::empty(), merged(declared_headers(res), cli_headers)),
            },
        )
    } else if res.method.carries_body() {
        Ok(
            HttpRequestView {
                url: res.url,
                method: res.method,
                body: Some(merged_body_text(prepared_body(res), cli_body)),
                headers: set_headers(Seq::empty(), merged(prepared_headers(res), cli_headers)),
            },
        )
    } else {
        Err(WaveErrorView::Cli(CliErrorView::UnsupportedMethod(res.method.name())))
    }
}

/// The request that a resolved request of a collection and the parameters
/// of the command line ask for.
pub fn merge_request(
    resolved: &Request,
    cli_headers: &[(String, String)],
    cli_body: &[(String, String)],
) -> (r: Result<HttpRequest, WaveError>)
    ensures
        match merged_request(resolved@, pairs_of(cli_headers@), pairs_of(cli_body@)) {
            Ok(q) => r matches Ok(req) && req@ == q,
            Err(e) => r matches Err(w) && w@ == e,
        },
{
    match resolved.method {
        Method::GET | Method::DELETE => {
            let own: Vec<(String, String)> = match &resolved.headers {
                Some(h) => clone_pairs(h),
                None => {
                    let empty: Vec<(String, String)> = Vec::new();
                    assert(pairs_of(empty@) =~= Seq::<(Seq<char>, Seq<char>)>::empty());
                    empty
                },
            };
            let headers = merge_pairs(own.as_slice(), cli_headers);
            Ok(
                HttpRequest::new(
                    resolved.url.as_str(),
                    resolved.method,
                    None,
                    headers_to_map(headers),
                ),
            )
        },
        Method::POST | Method::PUT | Method::PATCH => {
            let (own, body) = prepare_collection_headers_and_body(resolved);
            let headers = merge_pairs(own.as_slice(), cli_headers);
            let text = merge_body(body, cli_body);
            Ok(
                HttpRequest::new(
                    resolved.url.as_str(),
                    resolved.method,
                    Some(text),
                    headers_to_map(headers),
                ),
            )
        },
        _ => Err(WaveError::Cli(CliError::UnsupportedMethod(owned(resolved.method.as_str())))),
    }
}

/// What `handle_collection` gives: the request named `request_name`
/// is found (the first of that name), resolved, and merged with the
/// parameters of the command line, read strictly. The first of these steps
/// that fails gives the error.
pub open spec fn collection_request(
    coll: &Collection,
    collection_name: Seq<char>,
    request_name: Seq<char>,
    params: Seq<Seq<char>>,
    env: PairSeq,
) -> Result<HttpRequestView, WaveErrorView> {
    let i = coll.request_index(request_name);
    let file = match coll.variables {
        Some(v) => pairs_of(v@),
        None => Seq::empty(),
    };
    if i >= coll.requests.len() {
        Err(
            WaveErrorView::Collection(
                CollectionErrorView::RequestNotFound {
                    collection: collection_name,
                    request: request_name,
                },
            ),
        )
    } else {
        match resolved_request(coll.requests[i]@, file, env) {
            Err((kind, name)) => Err(
                WaveErrorView::Collection(
                    CollectionErrorView::VariableResolution(missing_message(kind, name)),
                ),
            ),
            Ok(res) => match validated_params(params) {
                Err(e) => Err(e),
                Ok((cli_headers, cli_body)) => merged_request(res, cli_headers, cli_body),
            },
        }
    }
}

/// The request that running the request `request_name` of the collection
/// `coll` with the parameters `params` sends, where `env_vars` are the
/// variables of the environment.
pub fn handle_collection(
    coll: &Collection,
    collection_name: &str,
    request_name: &str,
    params: &[String],
    env_vars: &Vec<(String, String)>,
) -> (r: Result<HttpRequest, WaveError>)
    ensures
        match collection_request(
            coll,
            collection_name@,
            request_name@,
            texts_of(params@),
            pairs_of(env_vars@),
        ) {
            Ok(q) => r matches Ok(req) && req@ == q,
            Err(e) => r matches Err(w) && w@ == e,
        },
{
    let none: Vec<(String, String)> = Vec::new();
    assert(pairs_of(none@) =~= Seq::<(Seq<char>, Seq<char>)>::empty());
    let file_vars: &Vec<(String, String)> = match &coll.variables {
        Some(v) => v,
        None => &none,
    };
    let template = match coll.find_request(request_name) {
        Some(t) => t,
        None => {
            return Err(
                WaveError::Collection(
                    CollectionError::RequestNotFound {
                        collection: owned(collection_name),
                        request: owned(request_name),
                    },
                ),
            );
        },
    };
    let resolved = match resolve_request_vars(template, file_vars, env_vars) {
        Ok(r) => r,
        Err(missing) => {
            return Err(
                WaveError::Collection(CollectionError::VariableResolution(missing.to_string())),
            );
        },
    };
    let (cli_headers, cli_body) = match validate_params(params) {
        Ok(p) => p,
        Err(e) => {
            return Err(e);
        },
    };
    merge_request(&resolved, cli_headers.as_slice(), cli_body.as_slice())
}

/// What `build_request` gives: the URL is checked first, then the
/// parameters; the request carries the headers of the parameters and no body.
pub open spec fn plain_request(method: Method, url: Seq<char>, params: Seq<Seq<char>>) -> Result<
    HttpRequestView,
    WaveErrorView,
> {
    match validated_url(url) {
        Err(e) => Err(e),
        Ok(full) => match validated_params(params) {
            Err(e) => Err(e),
            Ok((headers, _)) => Ok(
                HttpRequestView {
                    url: full,
                    method,
                    body: None,
                    headers: set_headers(Seq::empty(), headers),
                },
            ),
        },
    }
}

/// The request of a command without a body (GET, DELETE): the body fields
/// among the parameters are read and left out.
pub fn build_request(method: Method, url: &str, params: &[String]) -> (r: Result<
    HttpRequest,
    WaveError,
>)
    ensures
        match plain_request(method, url@, texts_of(params@)) {
            Ok(q) => r matches Ok(req) && req@ == q,
            Err(e) => r matches Err(w) && w@ == e,
        },
{
    let full = match validate_url(url) {
        Ok(u) => u,
        Err(e) => {
            return Err(e);
        },
    };
    let (headers, _) = match validate_params(params) {
        Ok(p) => p,
        Err(e) => {
            return Err(e);
        },
    };
    Ok(HttpRequest::new(full.as_str(), method, None, headers_to_map(headers)))
}

/// The request of a GET command.
pub fn handle_get(url: &str, params: &[String]) -> (r: Result<HttpRequest, WaveError>)
    ensures
        match plain_request(Method::GET, url@, texts_of(params@)) {
            Ok(q) => r matches Ok(req) && req@ == q,
            Err(e) => r matches Err(w) && w@ == e,
        },
{
    build_request(Method::GET, url, params)
}

/// The request of a DELETE command.
pub fn handle_delete(url: &str, params: &[String]) -> (r: Result<HttpRequest, WaveError>)
    ensures
        match plain_request(Method::DELETE, url@, texts_of(params@)) {
            Ok(q) => r matches Ok(req) && req@ == q,
            Err(e) => r matches Err(w) && w@ == e,
        },
{
    build_request(Method::DELETE, url, params)
}

/// What `handle_method_with_body` gives: the URL is checked first, then the
/// parameters; the body fields go as a form if `form` is set or `--form`
/// stands among the parameters, and as a JSON object, each value read as a
/// JSON value, if not.
pub open spec fn body_request(
    method: Method,
    url: Seq<char>,
    params: Seq<Seq<char>>,
    form: bool,
) -> Result<HttpRequestView, WaveErrorView> {
    match validated_url(url) {
        Err(e) => Err(e),
        Ok(full) => match validated_params(params) {
            Err(e) => Err(e),
            Ok((headers, data)) => Ok(
                (RequestBuilderView {
                    url: full,
                    method,
                    headers: set_headers(Seq::empty(), set_headers(Seq::empty(), headers)),
                    body: Some(
                        if form || form_flag_upto(params, params.len() as int) {
                            RequestBodyView::Form(data)
                        } else {
                            RequestBodyView::Json(merged_json(None, data))
                        },
                    ),
                }).built(),
            ),
        },
    }
}

/// The request of a command with a body (POST, PUT, PATCH).
pub fn handle_method_with_body(method: Method, url: &str, params: &[String], form: bool) -> (r:
    Result<HttpRequest, WaveError>)
    ensures
        match body_request(method, url@, texts_of(params@), form) {
            Ok(q) => r matches Ok(req) && req@ == q,
            Err(e) => r matches Err(w) && w@ == e,
        },
{
    let full = match validate_url(url) {
        Ok(u) => u,
        Err(e) => {
            return Err(e);
        },
    };
    let (headers, data) = match validate_params(params) {
        Ok(p) => p,
        Err(e) => {
            return Err(e);
        },
    };
    let body = if form || has_form_flag(params) {
        RequestBody::form(data)
    } else {
        RequestBody::Json(merge_json_with_cli_params(None, data.as_slice()))
    };
    Ok(
        HttpRequest::builder(full.as_str(), method).headers(headers_to_map(headers)).body(
            body,
        ).build(),
    )
}

/// The request of a POST command.
pub fn handle_post(url: &str, params: &[String], form: bool) -> (r: Result<HttpRequest, WaveError>)
    ensures
        match body_request(Method::POST, url@, texts_of(params@), form) {
            Ok(q) => r matches Ok(req) && req@ == q,
            Err(e) => r matches Err(w) && w@ == e,
        },
{
    handle_method_with_body(Method::POST, url, params, form)
}

/// The request of a PUT command.
pub fn handle_put(url: &str, params: &[String], form: bool) -> (r: Result<HttpRequest, WaveError>)
    ensures
        match body_request(Method::PUT, url@, texts_of(params@), form) {
            Ok(q) => r matches Ok(req) && req@ == q,
            Err(e) => r matches Err(w) && w@ == e,
        },
{
    handle_method_with_body(Method::PUT, url, params, form)
}

/// The request of a PATCH command.
pub fn handle_patch(url: &str, params: &[String], form: bool) -> (r: Result<HttpRequest, WaveError>)
    ensures
        match body_request(Method::PATCH, url@, texts_of(params@), form) {
            Ok(q) => r matches Ok(req) && req@ == q,
            Err(e) => r matches Err(w) && w@ == e,
        },
{
    handle_method_with_body(Method::PATCH, url, params, form)
}

/// The two places where the collection `name` is looked for, in order.
pub fn collection_paths(name: &str) -> (r: (String, String))
    ensures
        r.0@ == ".wave/"@ + name@ + ".yaml"@,
        r.1@ == ".wave/"@ + name@ + ".yml"@,
{
    (concat3(".wave/", name, ".yaml"), concat3(".wave/", name, ".yml"))
}

/// The error for a collection `name` that is in neither place.
pub fn collection_not_found(name: &str) -> (r: WaveError)
    ensures
        r@ == WaveErrorView::Collection(
            CollectionErrorView::FileNotFound(name@ + ".yaml or "@ + name@ + ".yml"@),
        ),
{
    let text = concat3(name, ".yaml or ", name);
    let full = concat3(text.as_str(), ".yml", "");
    assert(full@ =~= name@ + ".yaml or "@ + name@ + ".yml"@) by {
        reveal_strlit("");
    }
    WaveError::Collection(CollectionError::FileNotFound(full))
}

} // verus!
