use vstd::prelude::*;
use base64::engine::general_purpose::STANDARD;
use base64::Engine;
use reqwest::header::{HeaderMap, HeaderValue, InvalidHeaderValue, AUTHORIZATION};
use reqwest::{Client, ClientBuilder};
use std::sync::Arc;
use crate::text::{decimal, push_decimal};

verus! {

#[verifier::external_type_specification]
#[verifier::external_body]
pub struct ExClient(reqwest::Client);

#[verifier::external_type_specification]
#[verifier::external_body]
pub struct ExClientBuilder(reqwest::ClientBuilder);

#[verifier::external_type_specification]
#[verifier::external_body]
pub struct ExReqwestError(reqwest::Error);

#[verifier::external_type_specification]
#[verifier::external_body]
pub struct ExHeaderValue(reqwest::header::HeaderValue);

#[verifier::external_type_specification]
#[verifier::external_body]
pub struct ExInvalidHeaderValue(reqwest::header::InvalidHeaderValue);

#[verifier::external_type_specification]
#[verifier::external_body]
#[verifier::reject_recursive_types(T)]
pub struct ExHeaderMap<T>(reqwest::header::HeaderMap<T>);

/// What `base64`'s standard engine makes of the UTF-8 bytes of a text.
pub uninterp spec fn base64_of(s: Seq<char>) -> Seq<char>;

/// A character of the RFC 4648 standard alphabet, or the `=` of padding.
pub open spec fn base64_char(c: char) -> bool {
    ('A' <= c && c <= 'Z') || ('a' <= c && c <= 'z') || ('0' <= c && c <= '9') || c == '+' || c
        == '/' || c == '='
}

/// Relies on `base64::engine::general_purpose::STANDARD.encode`: the standard
/// alphabet with padding, a function of the input alone.
#[verifier::external_body]
fn base64_encode(s: &str) -> (r: String)
    ensures
        r@ == base64_of(s@),
        forall|i: int| 0 <= i < r@.len() ==> base64_char(#[trigger] r@[i]),
{
    STANDARD.encode(s)
}

/// A character that may stand in an HTTP header value: visible or extended,
/// or a tab; never another control character.
pub open spec fn header_char(c: char) -> bool {
    (c as u32 >= 32 && c as u32 != 127) || c == '\t'
}

pub open spec fn header_text(s: Seq<char>) -> bool {
    forall|i: int| 0 <= i < s.len() ==> header_char(#[trigger] s[i])
}

/// Relies on `http::HeaderValue::from_str`: it accepts the text exactly when
/// every byte is at least 32 and not 127, or is a tab (a character outside
/// ASCII has only bytes of 128 and over).
pub assume_specification[ reqwest::header::HeaderValue::from_str ](src: &str) -> (r: Result<
    HeaderValue,
    InvalidHeaderValue,
>)
    ensures
        r is Ok <==> header_text(src@),
;

/// Relies on `http::HeaderMap::new`: an empty header map.
pub assume_specification[ reqwest::header::HeaderMap::new ]() -> HeaderMap;

/// Relies on `http::HeaderMap::insert`: `headers` then holds `value` under
/// `Authorization`.
#[verifier::external_body]
fn insert_authorization(headers: &mut HeaderMap, value: HeaderValue) {
    headers.insert(AUTHORIZATION, value);
}

/// Relies on `reqwest::Client::builder`: a builder with default settings.
pub assume_specification[ reqwest::Client::builder ]() -> ClientBuilder;

/// Relies on `reqwest::ClientBuilder::default_headers`: every request carries `headers`.
pub assume_specification[ reqwest::ClientBuilder::default_headers ](
    b: ClientBuilder,
    headers: HeaderMap,
) -> ClientBuilder;

/// Relies on `reqwest::ClientBuilder::danger_accept_invalid_certs`: with `true`,
/// the server's certificate is accepted without validation.
pub assume_specification[ reqwest::ClientBuilder::danger_accept_invalid_certs ](
    b: ClientBuilder,
    accept_invalid_certs: bool,
) -> ClientBuilder;

/// Relies on `reqwest::ClientBuilder::build`: the client, or why the transport
/// could not be set up.
pub assume_specification[ reqwest::ClientBuilder::build ](b: ClientBuilder) -> Result<
    Client,
    reqwest::Error,
>;

/// Why a session client could not be made.
#[derive(Clone, Copy, Debug, PartialEq, Eq, Structural)]
pub enum ClientError {
    /// The `Authorization` value holds characters that a header cannot carry.
    /// Base64 text never does, so `LcuRequestClient::new` never reports it.
    InvalidHeaderValue,
    /// The HTTP transport could not be set up.
    ClientBuildError,
}

impl ClientError {
    pub fn message(&self) -> (r: String)
        ensures
            r@ == client_error_message(*self),
    {
        match self {
            ClientError::InvalidHeaderValue => String::from_str("invalid authorization header value"),
            ClientError::ClientBuildError => String::from_str("failed to build the HTTP client"),
        }
    }
}

pub open spec fn client_error_message(e: ClientError) -> Seq<char> {
    match e {
        ClientError::InvalidHeaderValue => "invalid authorization header value"@,
        ClientError::ClientBuildError => "failed to build the HTTP client"@,
    }
}

/// `https://127.0.0.1:<port>`, with no trailing slash.
pub open spec fn base_url_text(port: u16) -> Seq<char> {
    "https://127.0.0.1:"@ + decimal(port as nat)
}

/// `Basic ` and the base64 text of `riot:<token>`.
pub open spec fn basic_auth_text(token: Seq<char>) -> Seq<char> {
    "Basic "@ + base64_of("riot:"@ + token)
}

/// The address of the local API on `port`.
pub fn base_url_for(port: u16) -> (r: String)
    ensures
        r@ == base_url_text(port),
{
    let mut url = String::from_str("https://127.0.0.1:");
    push_decimal(&mut url, port as u64);
    url
}

/// The `Authorization` value for `token`.
pub fn basic_auth_value(token: &str) -> (r: String)
    ensures
        r@ == basic_auth_text(token@),
        header_text(r@),
{
    let mut credentials = String::from_str("riot:");
    credentials.append(token);
    let encoded = base64_encode(credentials.as_str());
    let mut value = String::from_str("Basic ");
    value.append(encoded.as_str());
    proof {
        reveal_strlit("Basic ");
        assert forall|i: int| 0 <= i < value@.len() implies header_char(#[trigger] value@[i]) by {
            if i >= 6 {
                assert(value@[i] == encoded@[i - 6]);
            }
        }
    }
    value
}

/// An authenticated client of the local API on one port with one token.
pub struct LcuRequestClient {
    client: Arc<Client>,
    base_url: String,
}

impl LcuRequestClient {
    /// The address that every request path is appended to.
    pub closed spec fn spec_base_url(&self) -> Seq<char> {
        self.base_url@
    }

    /// A client for the API on `port` that authenticates with `token`.
    pub fn new(port: u16, token: &str) -> (r: Result<LcuRequestClient, ClientError>)
        ensures
            header_text(basic_auth_text(token@)),
            r != Err::<LcuRequestClient, ClientError>(ClientError::InvalidHeaderValue),
            r matches Ok(c) ==> c.spec_base_url() == base_url_text(port),
    {
        let base_url = base_url_for(port);
        let auth_value = basic_auth_value(token);
        let header = match HeaderValue::from_str(auth_value.as_str()) {
            Ok(h) => h,
            Err(_) => return Err(ClientError::InvalidHeaderValue),
        };
        let mut headers = HeaderMap::new();
        insert_authorization(&mut headers, header);
        let builder = Client::builder().default_headers(headers).danger_accept_invalid_certs(true);
        let client = match builder.build() {
            Ok(c) => c,
            Err(_) => return Err(ClientError::ClientBuildError),
        };
        Ok(LcuRequestClient { client: Arc::new(client), base_url })
    }

    pub fn base_url(&self) -> (r: &String)
        ensures
            r@ == self.spec_base_url(),
    {
        &self.base_url
    }

    /// The shared transport that requests go through.
    pub fn http(&self) -> &Arc<Client> {
        &self.client
    }

    /// The full address of `endpoint`.
    pub fn url(&self, endpoint: &str) -> (r: String)
        ensures
            r@ == self.spec_base_url() + endpoint@,
    {
        let mut url = self.base_url.clone();
        url.append(endpoint);
        url
    }
}

#[verifier::external_type_specification]
#[verifier::external_body]
pub struct ExValue(serde_json::Value);

/// `serde_json` reads the text as one JSON document; a function of the text alone.
pub uninterp spec fn json_accepts(s: Seq<char>) -> bool;

/// Relies on `serde_json::from_str` into a `Value`: a document, or the parser's
/// own description of why the text is not one.
#[verifier::external_body]
fn parse_json(text: &str) -> (r: Result<serde_json::Value, String>)
    ensures
        r is Ok <==> json_accepts(text@),
{
    serde_json::from_str(text).map_err(|e| e.to_string())
}

/// Why a request to the local API failed.
#[derive(Debug)]
pub enum RequestError {
    /// The request could not be sent, or its answer not received.
    Transport(String),
    /// The server answered with a status outside 2xx, and this body.
    Status { status: u16, body: String },
    /// A successful answer whose body could not be read.
    UnreadableBody,
    /// A successful answer whose body is not the expected JSON.
    Decode(String),
}

/// Status codes that count as success.
pub open spec fn is_success(status: u16) -> bool {
    200 <= status <= 299
}

/// The body of a failed answer, or a marker where it could not be read.
pub open spec fn error_body(body: Option<String>) -> Seq<char> {
    match body {
        Some(b) => b@,
        None => "<no error body>"@,
    }
}

/// The text in which a request error is reported.
pub open spec fn request_error_message(e: RequestError) -> Seq<char> {
    match e {
        RequestError::Transport(d) => "Request failed: "@ + d@,
        RequestError::Status { status, body } => "HTTP "@ + decimal(status as nat) + " Error: "@
            + body@,
        RequestError::UnreadableBody => "Request failed: the response body could not be read"@,
        RequestError::Decode(d) => "Invalid JSON in response: "@ + d@,
    }
}

impl RequestError {
    pub fn message(&self) -> (r: String)
        ensures
            r@ == request_error_message(*self),
    {
        match self {
            RequestError::Transport(d) => {
                let mut m = String::from_str("Request failed: ");
                m.append(d.as_str());
                m
            },
            RequestError::Status { status, body } => {
                let mut m = String::from_str("HTTP ");
                push_decimal(&mut m, *status as u64);
                m.append(" Error: ");
                m.append(body.as_str());
                m
            },
            RequestError::UnreadableBody => String::from_str(
                "Request failed: the response body could not be read",
            ),
            RequestError::Decode(d) => {
                let mut m = String::from_str("Invalid JSON in response: ");
                m.append(d.as_str());
                m
            },
        }
    }
}

/// `e` reports an answer with `status` and the body text `body`.
pub open spec fn is_status_error(e: RequestError, status: u16, body: Seq<char>) -> bool {
    e matches RequestError::Status { status: s, body: b } && s == status && b@ == body
}

/// What an answer with `status` and `body` (`None` where it could not be
/// read) means to a request that expects nothing back.
pub fn empty_outcome(status: u16, body: Option<String>) -> (r: Result<(), RequestError>)
    ensures
        r is Ok <==> is_success(status),
        r matches Err(e) ==> is_status_error(e, status, error_body(body)),
{
    if 200 <= status && status <= 299 {
        Ok(())
    } else {
        let text = match body {
            Some(b) => b,
            None => String::from_str("<no error body>"),
        };
        Err(RequestError::Status { status, body: text })
    }
}

/// What an answer with `status` and `body` means to a request for text.
pub fn text_outcome(status: u16, body: Option<String>) -> (r: Result<String, RequestError>)
    ensures
        is_success(status) && body is Some ==> (r matches Ok(t) && t@ == body->0@),
        is_success(status) && body is None ==> r matches Err(RequestError::UnreadableBody),
        !is_success(status) ==> (r matches Err(e) && is_status_error(e, status, error_body(body))),
{
    if 200 <= status && status <= 299 {
        match body {
            Some(b) => Ok(b),
            None => Err(RequestError::UnreadableBody),
        }
    } else {
        match empty_outcome(status, body) {
            Ok(()) => Err(RequestError::UnreadableBody),
            Err(e) => Err(e),
        }
    }
}

/// What an answer with `status` and `body` means to a request for a JSON
/// document. Whether a successful body parses is the JSON parser's to say.
pub fn json_outcome(status: u16, body: Option<String>) -> (r: Result<serde_json::Value, RequestError>)
    ensures
        is_success(status) && body is Some ==> (r is Ok <==> json_accepts(body->0@)),
        is_success(status) && body is Some && !json_accepts(body->0@) ==> (r matches Err(
            RequestError::Decode(_),
        )),
        is_success(status) && body is None ==> r matches Err(RequestError::UnreadableBody),
        !is_success(status) ==> (r matches Err(e) && is_status_error(e, status, error_body(body))),
{
    let text = match text_outcome(status, body) {
        Ok(t) => t,
        Err(e) => return Err(e),
    };
    match parse_json(text.as_str()) {
        Ok(v) => Ok(v),
        Err(d) => Err(RequestError::Decode(d)),
    }
}

} // verus!
