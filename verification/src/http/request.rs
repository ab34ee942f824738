//! The request that goes to a backend, its body, and a builder for it.

use crate::http::error::HttpError;
use crate::http::form::{encode_form, form_text};
use crate::http::headers::{
    header_name_of, is_header_value, set_header, set_headers, HeaderMap,
};
use crate::http::method::Method;
use crate::json::json_text;
use crate::pairs::{has_key, pairs_of, PairSeq};
use crate::text::owned;
use crate::value::{JsonValue, JsonView};
use vstd::prelude::*;

verus! {

/// What `String::from_utf8_lossy` of std makes of `bytes`: their text, with
/// the replacement character in the place of what is no UTF-8.
pub uninterp spec fn lossy_text(bytes: Seq<u8>) -> Seq<char>;

/// `String::from_utf8_lossy` of std, as an owned string.
#[verifier::external_body]
fn from_utf8_lossy(bytes: &Vec<u8>) -> (r: String)
    ensures
        r@ == lossy_text(bytes@),
{
    String::from_utf8_lossy(bytes).into_owned()
}

/// The body of a request, before it is put on the wire.
#[derive(Debug)]
pub enum RequestBody {
    /// A JSON value; goes with `application/json`.
    Json(JsonValue),
    /// Form fields; go with `application/x-www-form-urlencoded`.
    Form(Vec<(String, String)>),
    /// Plain text; goes with `text/plain`.
    Text(String),
    /// Bytes; go with `application/octet-stream`.
    Bytes(Vec<u8>),
}

/// The mathematical content of a `RequestBody`.
pub ghost enum RequestBodyView {
    Json(JsonView),
    Form(PairSeq),
    Text(Seq<char>),
    Bytes(Seq<u8>),
}

impl View for RequestBody {
    type V = RequestBodyView;

    open spec fn view(&self) -> RequestBodyView {
        match self {
            RequestBody::Json(v) => RequestBodyView::Json(v@),
            RequestBody::Form(pairs) => RequestBodyView::Form(pairs_of(pairs@)),
            RequestBody::Text(t) => RequestBodyView::Text(t@),
            RequestBody::Bytes(b) => RequestBodyView::Bytes(b@),
        }
    }
}

/// The name of the header that says what a body is.
pub open spec fn content_type_name() -> Seq<char> {
    seq!['c', 'o', 'n', 't', 'e', 'n', 't', '-', 't', 'y', 'p', 'e']
}

impl RequestBodyView {
    /// The content type that goes with the body.
    pub open spec fn content_type(self) -> Seq<char> {
        match self {
            RequestBodyView::Json(_) => "application/json"@,
            RequestBodyView::Form(_) => "application/x-www-form-urlencoded"@,
            RequestBodyView::Text(_) => "text/plain"@,
            RequestBodyView::Bytes(_) => "application/octet-stream"@,
        }
    }

    /// The body as it goes on the wire.
    pub open spec fn wire(self) -> Seq<char> {
        match self {
            RequestBodyView::Json(v) => json_text(v),
            RequestBodyView::Form(pairs) => form_text(pairs),
            RequestBodyView::Text(t) => t,
            RequestBodyView::Bytes(b) => lossy_text(b),
        }
    }
}

/// `h` with the content type `content_type`, unless `h` names one already:
/// a content type that is there is never replaced.
pub open spec fn with_content_type(h: PairSeq, content_type: Seq<char>) -> PairSeq {
    if has_key(h, content_type_name()) {
        h
    } else {
        h.push((content_type_name(), content_type))
    }
}

/// The header name `content-type` is kept as it stands.
pub proof fn lemma_content_type_name()
    ensures
        "content-type"@ == content_type_name(),
        header_name_of(content_type_name()) == Some(content_type_name()),
{
    reveal_strlit("content-type");
    let n = content_type_name();
    assert("content-type"@ =~= n);
    assert(crate::http::headers::ascii_lowered(n) =~= n);
}

/// The four content types can stand in a header.
pub proof fn lemma_content_types(body: RequestBodyView)
    ensures
        is_header_value(body.content_type()),
{
    reveal_strlit("application/json");
    reveal_strlit("application/x-www-form-urlencoded");
    reveal_strlit("text/plain");
    reveal_strlit("application/octet-stream");
}

impl RequestBody {
    /// A JSON body.
    pub fn json(data: JsonValue) -> (r: Result<RequestBody, HttpError>)
        ensures
            r matches Ok(body) && body@ == RequestBodyView::Json(data@),
    {
        Ok(RequestBody::Json(data))
    }

    /// A form body.
    pub fn form(data: Vec<(String, String)>) -> (r: RequestBody)
        ensures
            r@ == RequestBodyView::Form(pairs_of(data@)),
    {
        RequestBody::Form(data)
    }

    /// A body of plain text.
    pub fn text(data: String) -> (r: RequestBody)
        ensures
            r@ == RequestBodyView::Text(data@),
    {
        RequestBody::Text(data)
    }

    /// A body of bytes.
    pub fn bytes(data: Vec<u8>) -> (r: RequestBody)
        ensures
            r@ == RequestBodyView::Bytes(data@),
    {
        RequestBody::Bytes(data)
    }

    /// The content type that goes with the body.
    pub fn content_type(&self) -> (r: &'static str)
        ensures
            r@ == self@.content_type(),
    {
        match self {
            RequestBody::Json(_) => "application/json",
            RequestBody::Form(_) => "application/x-www-form-urlencoded",
            RequestBody::Text(_) => "text/plain",
            RequestBody::Bytes(_) => "application/octet-stream",
        }
    }

    /// Sets the content type `content_type` in `headers`, unless they name
    /// one already.
    pub fn ensure_content_type(headers: &mut HeaderMap, content_type: &str)
        requires
            is_header_value(content_type@),
        ensures
            final(headers)@ == with_content_type(old(headers)@, content_type@),
    {
        proof {
            lemma_content_type_name();
        }
        if !headers.contains_key("content-type") {
            proof {
                crate::pairs::lemma_key_index_from(headers@, content_type_name(), 0);
            }
            headers.insert("content-type", content_type);
        }
    }

    /// The body as it goes on the wire. The content type that goes with the
    /// body is set in `headers`, unless they name one already.
    pub fn serialize(&self, headers: &mut HeaderMap) -> (r: String)
        ensures
            r@ == self@.wire(),
            final(headers)@ == with_content_type(old(headers)@, self@.content_type()),
    {
        proof {
            lemma_content_types(self@);
        }
        RequestBody::ensure_content_type(headers, self.content_type());
        match self {
            RequestBody::Json(value) => value.encode(),
            RequestBody::Form(data) => encode_form(data.as_slice()),
            RequestBody::Text(text) => text.clone(),
            RequestBody::Bytes(bytes) => from_utf8_lossy(bytes),
        }
    }
}

/// A request, ready for a backend.
#[derive(Debug, Clone)]
pub struct HttpRequest {
    pub url: String,
    pub method: Method,
    pub body: Option<String>,
    pub headers: HeaderMap,
}

/// The mathematical content of an `HttpRequest`.
pub ghost struct HttpRequestView {
    pub url: Seq<char>,
    pub method: Method,
    pub body: Option<Seq<char>>,
    pub headers: PairSeq,
}

impl View for HttpRequest {
    type V = HttpRequestView;

    open spec fn view(&self) -> HttpRequestView {
        HttpRequestView {
            url: self.url@,
            method: self.method,
            body: match self.body {
                Some(b) => Some(b@),
                None => None,
            },
            headers: self.headers@,
        }
    }
}

impl HttpRequest {
    /// The request with the given parts.
    pub fn new(url: &str, method: Method, body: Option<String>, headers: HeaderMap) -> (r:
        HttpRequest)
        ensures
            r@ == (HttpRequestView {
                url: url@,
                method,
                body: match body {
                    Some(b) => Some(b@),
                    None => None,
                },
                headers: headers@,
            }),
    {
        HttpRequest { url: owned(url), method, body, headers }
    }

    /// A builder for a request to `url` with the method `method`.
    pub fn builder(url: &str, method: Method) -> (r: RequestBuilder)
        ensures
            r@ == (RequestBuilderView {
                url: url@,
                method,
                headers: Seq::empty(),
                body: None,
            }),
    {
        RequestBuilder::new(url, method)
    }
}

/// A request under construction.
#[derive(Debug)]
pub struct RequestBuilder {
    url: String,
    method: Method,
    headers: HeaderMap,
    body: Option<RequestBody>,
}

/// The mathematical content of a `RequestBuilder`.
pub ghost struct RequestBuilderView {
    pub url: Seq<char>,
    pub method: Method,
    pub headers: PairSeq,
    pub body: Option<RequestBodyView>,
}

impl View for RequestBuilder {
    type V = RequestBuilderView;

    closed spec fn view(&self) -> RequestBuilderView {
        RequestBuilderView {
            url: self.url@,
            method: self.method,
            headers: self.headers@,
            body: match self.body {
                Some(b) => Some(b@),
                None => None,
            },
        }
    }
}

impl RequestBuilderView {
    /// The request that the builder gives: the body on the wire, and its
    /// content type among the headers unless they name one already.
    pub open spec fn built(self) -> HttpRequestView {
        match self.body {
            Some(b) => HttpRequestView {
                url: self.url,
                method: self.method,
                body: Some(b.wire()),
                headers: with_content_type(self.headers, b.content_type()),
            },
            None => HttpRequestView {
                url: self.url,
                method: self.method,
                body: None,
                headers: self.headers,
            },
        }
    }
}

impl RequestBuilder {
    /// A builder for a request to `url` with the method `method`, without
    /// headers and without a body.
    pub fn new(url: &str, method: Method) -> (r: RequestBuilder)
        ensures
            r@ == (RequestBuilderView {
                url: url@,
                method,
                headers: Seq::empty(),
                body: None,
            }),
    {
        RequestBuilder { url: owned(url), method, headers: HeaderMap::new(), body: None }
    }

    /// Sets one header; a name or a value that cannot stand in a header
    /// leaves the builder as it was.
    pub fn header(self, key: &str, value: &str) -> (r: RequestBuilder)
        ensures
            r@ == (RequestBuilderView {
                headers: set_header(self@.headers, key@, value@),
                ..self@
            }),
    {
        let mut headers = self.headers;
        headers.insert(key, value);
        RequestBuilder { url: self.url, method: self.method, headers, body: self.body }
    }

    /// Sets every header of `headers`.
    pub fn headers(self, headers: HeaderMap) -> (r: RequestBuilder)
        ensures
            r@ == (RequestBuilderView { headers: set_headers(self@.headers, headers@), ..self@ }),
    {
        let mut own = self.headers;
        own.extend(&headers);
        RequestBuilder { url: self.url, method: self.method, headers: own, body: self.body }
    }

    /// Sets every pair of `headers` as a header.
    pub fn headers_from_vec(self, headers: Vec<(String, String)>) -> (r: RequestBuilder)
        ensures
            r@ == (RequestBuilderView {
                headers: set_headers(self@.headers, pairs_of(headers@)),
                ..self@
            }),
    {
        let mut own = self.headers;
        own.insert_all(headers.as_slice());
        RequestBuilder { url: self.url, method: self.method, headers: own, body: self.body }
    }

    /// Sets the body.
    pub fn body(self, body: RequestBody) -> (r: RequestBuilder)
        ensures
            r@ == (RequestBuilderView { body: Some(body@), ..self@ }),
    {
        RequestBuilder { url: self.url, method: self.method, headers: self.headers, body: Some(body) }
    }

    /// The request: the body is put on the wire and its content type set,
    /// unless the headers name one already.
    pub fn build(self) -> (r: HttpRequest)
        ensures
            r@ == self@.built(),
    {
        let mut headers = self.headers;
        let body = match self.body {
            Some(b) => Some(b.serialize(&mut headers)),
            None => None,
        };
        HttpRequest { url: self.url, method: self.method, body, headers }
    }
}

} // verus!
