//! The request-construction engine of a terminal HTTP client: it resolves
//! the placeholders of stored request templates, puts the parameters of the
//! command line over them, encodes bodies, and hands the finished request
//! to a backend.

pub mod cli;
pub mod collection;
pub mod dispatch;
pub mod error;
pub mod http;
pub mod http_client;
pub mod json;
pub mod merge;
pub mod number;
pub mod pairs;
pub mod params;
pub mod printer;
pub mod text;
pub mod url;
pub mod value;

pub use cli::{Cli, Command};
pub use dispatch::{
    build_request, handle_collection, handle_delete, handle_get, handle_method_with_body,
    handle_patch, handle_post, handle_put, prepare_collection_headers_and_body,
};
pub use http::form::parse_form_to_key_value_pairs;
pub use http::headers::headers_to_map;
pub use json::{merge_json_with_cli_params, parse_cli_value_to_json};
pub use merge::merge_headers_and_body;
pub use pairs::{FormData, HeaderDataTuple, Headers, KeyValuePairs};
pub use params::{parse_params, validate_params};
pub use url::{ensure_url_scheme, spinner_msg, validate_url};
