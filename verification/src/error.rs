//! The errors of the client, their messages and the hints that go with them.

use crate::http::error::{HttpError, HttpErrorView};
use crate::text::owned;
use vstd::prelude::*;
use vstd::std_specs::convert::FromSpecImpl;
use vstd::string::StringExecFns;

verus! {

/// Any error of the client.
#[derive(Debug, Clone)]
pub enum WaveError {
    /// An HTTP exchange failed.
    Http(HttpError),
    /// A collection could not be used.
    Collection(CollectionError),
    /// The command line is not well formed.
    Cli(CliError),
    /// A file could not be read or written.
    Io(String),
    /// Text could not be read in the expected format.
    Parse(ParseError),
    /// The configuration is not usable.
    Config(ConfigError),
    /// Anything else that went wrong while running.
    Runtime(String),
}

/// What can go wrong with a collection.
#[derive(Debug, Clone)]
pub enum CollectionError {
    /// The collection file is not at the given path.
    FileNotFound(String),
    /// The collection file is not valid YAML, or not a valid collection.
    InvalidYaml(String),
    /// The collection holds no request of the given name.
    RequestNotFound { collection: String, request: String },
    /// A placeholder names a variable that is not defined.
    VariableResolution(String),
    /// The directory of the collections is missing.
    DirectoryNotFound(String),
}

/// What can be wrong on the command line.
#[derive(Debug, Clone)]
pub enum CliError {
    /// The URL is empty or malformed.
    InvalidUrl(String),
    /// An argument that is needed was not given.
    MissingArguments(String),
    /// A parameter is no well-formed `key:value` header.
    InvalidHeaderFormat(String),
    /// A parameter is no well-formed `key=value` body field.
    InvalidBodyFormat(String),
    /// The method is not one this client sends.
    UnsupportedMethod(String),
}

/// Text that could not be read in its format.
#[derive(Debug, Clone)]
pub enum ParseError {
    Json(String),
    Yaml(String),
    Header(String),
    Url(String),
}

/// What can be wrong with the configuration.
#[derive(Debug, Clone)]
pub enum ConfigError {
    InvalidConfig(String),
    MissingConfig(String),
}

/// The mathematical content of a `CollectionError`.
pub ghost enum CollectionErrorView {
    FileNotFound(Seq<char>),
    InvalidYaml(Seq<char>),
    RequestNotFound { collection: Seq<char>, request: Seq<char> },
    VariableResolution(Seq<char>),
    DirectoryNotFound(Seq<char>),
}

/// The mathematical content of a `CliError`.
pub ghost enum CliErrorView {
    InvalidUrl(Seq<char>),
    MissingArguments(Seq<char>),
    InvalidHeaderFormat(Seq<char>),
    InvalidBodyFormat(Seq<char>),
    UnsupportedMethod(Seq<char>),
}

/// The mathematical content of a `ParseError`.
pub ghost enum ParseErrorView {
    Json(Seq<char>),
    Yaml(Seq<char>),
    Header(Seq<char>),
    Url(Seq<char>),
}

/// The mathematical content of a `ConfigError`.
pub ghost enum ConfigErrorView {
    InvalidConfig(Seq<char>),
    MissingConfig(Seq<char>),
}

/// The mathematical content of a `WaveError`.
pub ghost enum WaveErrorView {
    Http(HttpErrorView),
    Collection(CollectionErrorView),
    Cli(CliErrorView),
    Io(Seq<char>),
    Parse(ParseErrorView),
    Config(ConfigErrorView),
    Runtime(Seq<char>),
}

impl View for CollectionError {
    type V = CollectionErrorView;

    open spec fn view(&self) -> CollectionErrorView {
        match self {
            CollectionError::FileNotFound(path) => CollectionErrorView::FileNotFound(path@),
            CollectionError::InvalidYaml(msg) => CollectionErrorView::InvalidYaml(msg@),
            CollectionError::RequestNotFound { collection, request } => {
                CollectionErrorView::RequestNotFound { collection: collection@, request: request@ }
            },
            CollectionError::VariableResolution(msg) => CollectionErrorView::VariableResolution(
                msg@,
            ),
            CollectionError::DirectoryNotFound(path) => CollectionErrorView::DirectoryNotFound(
                path@,
            ),
        }
    }
}

impl View for CliError {
    type V = CliErrorView;

    open spec fn view(&self) -> CliErrorView {
        match self {
            CliError::InvalidUrl(url) => CliErrorView::InvalidUrl(url@),
            CliError::MissingArguments(msg) => CliErrorView::MissingArguments(msg@),
            CliError::InvalidHeaderFormat(header) => CliErrorView::InvalidHeaderFormat(header@),
            CliError::InvalidBodyFormat(body) => CliErrorView::InvalidBodyFormat(body@),
            CliError::UnsupportedMethod(method) => CliErrorView::UnsupportedMethod(method@),
        }
    }
}

impl View for ParseError {
    type V = ParseErrorView;

    open spec fn view(&self) -> ParseErrorView {
        match self {
            ParseError::Json(msg) => ParseErrorView::Json(msg@),
            ParseError::Yaml(msg) => ParseErrorView::Yaml(msg@),
            ParseError::Header(msg) => ParseErrorView::Header(msg@),
            ParseError::Url(msg) => ParseErrorView::Url(msg@),
        }
    }
}

impl View for ConfigError {
    type V = ConfigErrorView;

    open spec fn view(&self) -> ConfigErrorView {
        match self {
            ConfigError::InvalidConfig(msg) => ConfigErrorView::InvalidConfig(msg@),
            ConfigError::MissingConfig(msg) => ConfigErrorView::MissingConfig(msg@),
        }
    }
}

impl View for WaveError {
    type V = WaveErrorView;

    open spec fn view(&self) -> WaveErrorView {
        match self {
            WaveError::Http(e) => WaveErrorView::Http(e@),
            WaveError::Collection(e) => WaveErrorView::Collection(e@),
            WaveError::Cli(e) => WaveErrorView::Cli(e@),
            WaveError::Io(msg) => WaveErrorView::Io(msg@),
            WaveError::Parse(e) => WaveErrorView::Parse(e@),
            WaveError::Config(e) => WaveErrorView::Config(e@),
            WaveError::Runtime(msg) => WaveErrorView::Runtime(msg@),
        }
    }
}

impl CollectionErrorView {
    /// The text of the message shown for the error.
    pub open spec fn message(self) -> Seq<char> {
        match self {
            CollectionErrorView::FileNotFound(path) => "Collection file not found: '"@ + path
                + "'. Try running 'wave init' to create a collection."@,
            CollectionErrorView::InvalidYaml(msg) => "Invalid YAML in collection file: "@ + msg,
            CollectionErrorView::RequestNotFound { collection, request } => "Request '"@ + request
                + "' not found in collection '"@ + collection
                + "'. Check the collection YAML file to see available requests."@,
            CollectionErrorView::VariableResolution(msg) => "Failed to resolve variables: "@ + msg,
            CollectionErrorView::DirectoryNotFound(path) => "Collection directory not found: '"@
                + path + "'. Try running 'wave init' to create a collection."@,
        }
    }
}

impl CliErrorView {
    /// The text of the message shown for the error.
    pub open spec fn message(self) -> Seq<char> {
        match self {
            CliErrorView::InvalidUrl(url) => "Invalid URL '"@ + url
                + "'. URLs must include protocol (http:// or https://)"@,
            CliErrorView::MissingArguments(msg) => "Missing required arguments: "@ + msg,
            CliErrorView::InvalidHeaderFormat(header) => "Invalid header format '"@ + header
                + "'. Headers must be in 'key:value' format"@,
            CliErrorView::InvalidBodyFormat(body) => "Invalid body format '"@ + body
                + "'. Body data must be in 'key=value' format"@,
            CliErrorView::UnsupportedMethod(method) => "Unsupported HTTP method: '"@ + method
                + "'. Supported methods: GET, POST, PUT, DELETE, PATCH, HEAD, OPTIONS"@,
        }
    }
}

impl ParseErrorView {
    /// The text of the message shown for the error.
    pub open spec fn message(self) -> Seq<char> {
        match self {
            ParseErrorView::Json(msg) => "JSON parsing error: "@ + msg,
            ParseErrorView::Yaml(msg) => "YAML parsing error: "@ + msg,
            ParseErrorView::Header(msg) => "Header parsing error: "@ + msg,
            ParseErrorView::Url(msg) => "URL parsing error: "@ + msg,
        }
    }
}

impl ConfigErrorView {
    /// The text of the message shown for the error.
    pub open spec fn message(self) -> Seq<char> {
        match self {
            ConfigErrorView::InvalidConfig(msg) => "Invalid configuration: "@ + msg,
            ConfigErrorView::MissingConfig(msg) => "Missing configuration: "@ + msg,
        }
    }
}

impl WaveErrorView {
    /// The text of the message shown for the error.
    pub open spec fn message(self) -> Seq<char> {
        match self {
            WaveErrorView::Http(e) => e.message(),
            WaveErrorView::Collection(e) => e.message(),
            WaveErrorView::Cli(e) => e.message(),
            WaveErrorView::Io(msg) => "I/O error: "@ + msg,
            WaveErrorView::Parse(e) => e.message(),
            WaveErrorView::Config(e) => e.message(),
            WaveErrorView::Runtime(msg) => "Runtime error: "@ + msg,
        }
    }

    /// The hint that goes with the error, for the errors that a user can
    /// act upon.
    pub open spec fn suggestion(self) -> Option<Seq<char>> {
        match self {
            WaveErrorView::Collection(CollectionErrorView::FileNotFound(_)) => Some(
                "Make sure the file exists in the .wave directory"@,
            ),
            WaveErrorView::Collection(CollectionErrorView::DirectoryNotFound(_)) => Some(
                "No .wave directory found for collections"@,
            ),
            WaveErrorView::Collection(CollectionErrorView::RequestNotFound { .. }) => Some(
                "Check the collection YAML file to see all available requests"@,
            ),
            WaveErrorView::Cli(CliErrorView::InvalidUrl(_)) => Some(
                "Example: wave get https://api.example.com/users"@,
            ),
            WaveErrorView::Cli(CliErrorView::InvalidHeaderFormat(_)) => Some(
                "Example: Authorization:Bearer123 Content-Type:application/json"@,
            ),
            WaveErrorView::Cli(CliErrorView::InvalidBodyFormat(_)) => Some(
                "Example: name=john age=30 active=true"@,
            ),
            _ => None,
        }
    }
}

/// `a`, `b` and `c` in a row.
pub fn concat3(a: &str, b: &str, c: &str) -> (r: String)
    ensures
        r@ == a@ + b@ + c@,
{
    String::from_str(a).concat(b).concat(c)
}

impl CollectionError {
    /// The message shown for this error.
    pub fn to_string(&self) -> (r: String)
        ensures
            r@ == self@.message(),
    {
        match self {
            CollectionError::FileNotFound(path) => concat3(
                "Collection file not found: '",
                path.as_str(),
                "'. Try running 'wave init' to create a collection.",
            ),
            CollectionError::InvalidYaml(msg) => String::from_str(
                "Invalid YAML in collection file: ",
            ).concat(msg.as_str()),
            CollectionError::RequestNotFound { collection, request } => String::from_str(
                "Request '",
            ).concat(request.as_str()).concat("' not found in collection '").concat(
                collection.as_str(),
            ).concat("'. Check the collection YAML file to see available requests."),
            CollectionError::VariableResolution(msg) => String::from_str(
                "Failed to resolve variables: ",
            ).concat(msg.as_str()),
            CollectionError::DirectoryNotFound(path) => concat3(
                "Collection directory not found: '",
                path.as_str(),
                "'. Try running 'wave init' to create a collection.",
            ),
        }
    }

    /// A copy of the error.
    pub fn duplicate(&self) -> (r: CollectionError)
        ensures
            r@ == self@,
    {
        match self {
            CollectionError::FileNotFound(path) => CollectionError::FileNotFound(path.clone()),
            CollectionError::InvalidYaml(msg) => CollectionError::InvalidYaml(msg.clone()),
            CollectionError::RequestNotFound { collection, request } => {
                CollectionError::RequestNotFound {
                    collection: collection.clone(),
                    request: request.clone(),
                }
            },
            CollectionError::VariableResolution(msg) => CollectionError::VariableResolution(
                msg.clone(),
            ),
            CollectionError::DirectoryNotFound(path) => CollectionError::DirectoryNotFound(
                path.clone(),
            ),
        }
    }
}

impl CliError {
    /// The message shown for this error.
    pub fn to_string(&self) -> (r: String)
        ensures
            r@ == self@.message(),
    {
        match self {
            CliError::InvalidUrl(url) => concat3(
                "Invalid URL '",
                url.as_str(),
                "'. URLs must include protocol (http:// or https://)",
            ),
            CliError::MissingArguments(msg) => String::from_str(
                "Missing required arguments: ",
            ).concat(msg.as_str()),
            CliError::InvalidHeaderFormat(header) => concat3(
                "Invalid header format '",
                header.as_str(),
                "'. Headers must be in 'key:value' format",
            ),
            CliError::InvalidBodyFormat(body) => concat3(
                "Invalid body format '",
                body.as_str(),
                "'. Body data must be in 'key=value' format",
            ),
            CliError::UnsupportedMethod(method) => concat3(
                "Unsupported HTTP method: '",
                method.as_str(),
                "'. Supported methods: GET, POST, PUT, DELETE, PATCH, HEAD, OPTIONS",
            ),
        }
    }
}

impl ParseError {
    /// The message shown for this error.
    pub fn to_string(&self) -> (r: String)
        ensures
            r@ == self@.message(),
    {
        match self {
            ParseError::Json(msg) => String::from_str("JSON parsing error: ").concat(msg.as_str()),
            ParseError::Yaml(msg) => String::from_str("YAML parsing error: ").concat(msg.as_str()),
            ParseError::Header(msg) => String::from_str("Header parsing error: ").concat(
                msg.as_str(),
            ),
            ParseError::Url(msg) => String::from_str("URL parsing error: ").concat(msg.as_str()),
        }
    }
}

impl ConfigError {
    /// The message shown for this error.
    pub fn to_string(&self) -> (r: String)
        ensures
            r@ == self@.message(),
    {
        match self {
            ConfigError::InvalidConfig(msg) => String::from_str("Invalid configuration: ").concat(
                msg.as_str(),
            ),
            ConfigError::MissingConfig(msg) => String::from_str("Missing configuration: ").concat(
                msg.as_str(),
            ),
        }
    }
}

impl WaveError {
    /// The message shown for this error.
    pub fn to_string(&self) -> (r: String)
        ensures
            r@ == self@.message(),
    {
        match self {
            WaveError::Http(err) => err.to_string(),
            WaveError::Collection(err) => err.to_string(),
            WaveError::Cli(err) => err.to_string(),
            WaveError::Io(msg) => String::from_str("I/O error: ").concat(msg.as_str()),
            WaveError::Parse(err) => err.to_string(),
            WaveError::Config(err) => err.to_string(),
            WaveError::Runtime(msg) => String::from_str("Runtime error: ").concat(msg.as_str()),
        }
    }

    /// The hint that goes with this error: `Some` for the errors that a user
    /// can act upon (a collection file, directory or request that is not
    /// found; a malformed URL, header or body field), `None` for the others.
    pub fn suggestion(&self) -> (r: Option<&'static str>)
        ensures
            r.is_some() == self@.suggestion().is_some(),
            r matches Some(s) ==> Some(s@) == self@.suggestion(),
    {
        match self {
            WaveError::Collection(CollectionError::FileNotFound(_)) => Some(
                "Make sure the file exists in the .wave directory",
            ),
            WaveError::Collection(CollectionError::DirectoryNotFound(_)) => Some(
                "No .wave directory found for collections",
            ),
            WaveError::Collection(CollectionError::RequestNotFound { .. }) => Some(
                "Check the collection YAML file to see all available requests",
            ),
            WaveError::Cli(CliError::InvalidUrl(_)) => Some(
                "Example: wave get https://api.example.com/users",
            ),
            WaveError::Cli(CliError::InvalidHeaderFormat(_)) => Some(
                "Example: Authorization:Bearer123 Content-Type:application/json",
            ),
            WaveError::Cli(CliError::InvalidBodyFormat(_)) => Some(
                "Example: name=john age=30 active=true",
            ),
            _ => None,
        }
    }
}

impl From<HttpError> for WaveError {
    fn from(err: HttpError) -> (r: WaveError) {
        WaveError::Http(err)
    }
}

impl FromSpecImpl<HttpError> for WaveError {
    open spec fn obeys_from_spec() -> bool {
        true
    }

    open spec fn from_spec(err: HttpError) -> WaveError {
        WaveError::Http(err)
    }
}

impl From<CollectionError> for WaveError {
    fn from(err: CollectionError) -> (r: WaveError) {
        WaveError::Collection(err)
    }
}

impl FromSpecImpl<CollectionError> for WaveError {
    open spec fn obeys_from_spec() -> bool {
        true
    }

    open spec fn from_spec(err: CollectionError) -> WaveError {
        WaveError::Collection(err)
    }
}

impl From<CliError> for WaveError {
    fn from(err: CliError) -> (r: WaveError) {
        WaveError::Cli(err)
    }
}

impl FromSpecImpl<CliError> for WaveError {
    open spec fn obeys_from_spec() -> bool {
        true
    }

    open spec fn from_spec(err: CliError) -> WaveError {
        WaveError::Cli(err)
    }
}

impl From<ParseError> for WaveError {
    fn from(err: ParseError) -> (r: WaveError) {
        WaveError::Parse(err)
    }
}

impl FromSpecImpl<ParseError> for WaveError {
    open spec fn obeys_from_spec() -> bool {
        true
    }

    open spec fn from_spec(err: ParseError) -> WaveError {
        WaveError::Parse(err)
    }
}

impl From<ConfigError> for WaveError {
    fn from(err: ConfigError) -> (r: WaveError) {
        WaveError::Config(err)
    }
}

impl FromSpecImpl<ConfigError> for WaveError {
    open spec fn obeys_from_spec() -> bool {
        true
    }

    open spec fn from_spec(err: ConfigError) -> WaveError {
        WaveError::Config(err)
    }
}

/// The error for a collection file that is not at `path`.
pub fn collection_file_not_found(path: &str) -> (r: WaveError)
    ensures
        r@ == WaveErrorView::Collection(CollectionErrorView::FileNotFound(path@)),
{
    WaveError::Collection(CollectionError::FileNotFound(owned(path)))
}

/// The error for the malformed URL `url`.
pub fn invalid_url(url: &str) -> (r: WaveError)
    ensures
        r@ == WaveErrorView::Cli(CliErrorView::InvalidUrl(url@)),
{
    WaveError::Cli(CliError::InvalidUrl(owned(url)))
}

/// The error for something that went wrong while running, described by `msg`.
pub fn runtime_error(msg: &str) -> (r: WaveError)
    ensures
        r@ == WaveErrorView::Runtime(msg@),
{
    WaveError::Runtime(owned(msg))
}

} // verus!
