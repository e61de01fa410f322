//! What the chain clients hand the collector, and the client-side decisions: which
//! client a chain gets, request ids, the basic-auth header and event attributes.

use vstd::prelude::*;

use crate::codec::{base64_decoding, base64_encoding, from_base64, hex_digit, hex_digit_char, to_base64, utf8_lossy, utf8_lossy_of};
use crate::config::{compat_of, CometVersion, ConfigError};
use crate::text::{concat, push_char, push_str, str_eq};

verus! {

/// Event attribute.
#[derive(Clone, Debug, PartialEq, Eq)]
pub struct EventAttribute {
    pub key: String,
    pub value: String,
}

/// Transaction event: a type and its attributes in order.
#[derive(Clone, Debug, PartialEq, Eq)]
pub struct TxEvent {
    pub type_str: String,
    pub attributes: Vec<EventAttribute>,
}

/// Transaction result with events.
#[derive(Clone, Debug, PartialEq, Eq)]
pub struct TxResult {
    pub code: u32,
    pub events: Vec<TxEvent>,
}

/// Block results: one result per transaction of the block, in order.
#[derive(Clone, Debug, PartialEq, Eq)]
pub struct BlockResults {
    pub height: u64,
    pub txs_results: Vec<TxResult>,
}

/// Credentials for an endpoint that requires HTTP Basic auth.
#[derive(Clone, Debug, PartialEq, Eq)]
pub struct AuthConfig {
    pub username: String,
    pub password: String,
}

/// How a WebSocket upgrade authenticates.
#[derive(Clone, Debug, PartialEq, Eq)]
pub enum AuthMethod {
    Anonymous,
    Basic { username: String, password: String },
    Bearer { token: String },
    ApiKey { header_name: String, key: String },
}

/// The client for endpoints that require Basic auth: subscription only.
#[derive(Clone, Debug, PartialEq, Eq)]
pub struct AuthClient {
    pub url: String,
    pub auth_method: AuthMethod,
    pub version: String,
}

impl AuthClient {
    pub fn new(url: String, version: String, username: String, password: String) -> (r: AuthClient)
        ensures
            r.url == url,
            r.version == version,
            r.auth_method == (AuthMethod::Basic { username, password }),
    {
        AuthClient { url, auth_method: AuthMethod::Basic { username, password }, version }
    }
}

/// The authenticated WebSocket subscriber behind [`AuthClient`].
#[derive(Clone, Debug, PartialEq, Eq)]
pub struct SimpleAuthClient {
    pub url: String,
    pub auth_method: AuthMethod,
}

impl SimpleAuthClient {
    pub fn new(url: String, auth_method: AuthMethod) -> (r: SimpleAuthClient)
        ensures
            r.url == url,
            r.auth_method == auth_method,
    {
        SimpleAuthClient { url, auth_method }
    }
}

/// The client for protocol 0.38, speaking JSON-RPC 2.0 itself. Request ids count up
/// from 1.
#[derive(Clone, Debug, PartialEq, Eq)]
pub struct V038Client {
    pub url: String,
    pub request_id: u64,
}

/// The decimal digits of `n`.
pub open spec fn decimal_of(n: nat) -> Seq<char>
    decreases n,
{
    if n < 10 {
        seq![hex_digit(n as int, false)]
    } else {
        decimal_of(n / 10) + seq![hex_digit((n % 10) as int, false)]
    }
}

/// The decimal text of `n`.
pub fn decimal_text(n: u64) -> (r: String)
    ensures
        r@ == decimal_of(n as nat),
    decreases n,
{
    if n < 10 {
        let mut s = String::new();
        push_char(&mut s, hex_digit_char(n as u8, false));
        s
    } else {
        let mut s = decimal_text(n / 10);
        push_char(&mut s, hex_digit_char((n % 10) as u8, false));
        s
    }
}

/// The prefix of every request id.
pub const REQUEST_ID_PREFIX: &'static str = "chainpulse-v038-";

impl V038Client {
    pub fn new(url: String) -> (r: V038Client)
        ensures
            r.url == url,
            r.request_id == 1,
    {
        V038Client { url, request_id: 1 }
    }

    /// The next request id, `chainpulse-v038-N` for the counter's current value N.
    /// The counter then moves on, wrapping at the end of its range.
    pub fn next_request_id(&mut self) -> (r: String)
        ensures
            r@ == REQUEST_ID_PREFIX@ + decimal_of(old(self).request_id as nat),
            final(self).request_id == (if old(self).request_id == u64::MAX { 0 } else { (old(self).request_id + 1) as u64 }),
            final(self).url == old(self).url,
    {
        let id = self.request_id;
        self.request_id = if id == u64::MAX { 0 } else { id + 1 };
        let digits = decimal_text(id);
        concat(REQUEST_ID_PREFIX, digits.as_str())
    }
}

/// Which client a chain gets.
#[derive(Clone, Debug, PartialEq, Eq)]
pub enum ClientKind {
    /// Credentials given: the authenticated subscriber, whatever the version.
    Auth(AuthClient),
    /// 0.34 or 0.37: the node's own RPC protocol in that dialect.
    Classic(CometVersion),
    /// 0.38: JSON-RPC over a fresh WebSocket.
    Modern(V038Client),
}

impl ClientKind {
    /// Whether block results with transaction events can be asked of this client.
    pub fn supports_events(&self) -> (r: bool)
        ensures
            r == !(self is Auth),
    {
        match self {
            ClientKind::Auth(_) => false,
            _ => true,
        }
    }
}

/// Picks the client for an endpoint: the authenticated one when credentials are
/// given, otherwise by version tag; an unknown tag is a configuration error.
pub fn create_client(ws_url: &str, version: &str, auth: Option<AuthConfig>) -> (r: Result<ClientKind, ConfigError>)
    ensures
        auth matches Some(a) ==> (r matches Ok(ClientKind::Auth(c)) && c.url@ == ws_url@ && c.version@ == version@
            && c.auth_method == (AuthMethod::Basic { username: a.username, password: a.password })),
        auth is None && (version@ == "0.34"@ || version@ == "0.37"@) ==> r == Ok::<ClientKind, ConfigError>(ClientKind::Classic(compat_of(version@))),
        auth is None && version@ == "0.38"@ ==> (r matches Ok(ClientKind::Modern(c)) && c.url@ == ws_url@ && c.request_id == 1),
        auth is None && !(version@ == "0.34"@ || version@ == "0.37"@ || version@ == "0.38"@) ==> (r matches Err(ConfigError::UnsupportedVersion(v)) && v@ == version@),
{
    proof {
        reveal_strlit("0.34");
        reveal_strlit("0.37");
        reveal_strlit("0.38");
        assert("0.34"@[3] != "0.38"@[3]);
        assert("0.37"@[3] != "0.38"@[3]);
    }
    match auth {
        Some(a) => Ok(ClientKind::Auth(AuthClient::new(ws_url.to_string(), version.to_string(), a.username, a.password))),
        None => {
            if str_eq(version, "0.34") {
                Ok(ClientKind::Classic(CometVersion::V0_34))
            } else if str_eq(version, "0.37") {
                Ok(ClientKind::Classic(CometVersion::V0_37))
            } else if str_eq(version, "0.38") {
                Ok(ClientKind::Modern(V038Client::new(ws_url.to_string())))
            } else {
                Err(ConfigError::UnsupportedVersion(version.to_string()))
            }
        },
    }
}

/// The `Authorization` header value for Basic auth: `Basic ` and the base64 of the
/// UTF-8 bytes of `username:password`.
pub fn basic_auth_header(username: &str, password: &str) -> (r: String)
    ensures
        r@ == "Basic "@ + base64_encoding(vstd::utf8::encode_utf8(username@ + ":"@ + password@)),
{
    let mut credentials = username.to_string();
    push_str(&mut credentials, ":");
    push_str(&mut credentials, password);
    let encoded = to_base64(credentials.as_str().as_bytes());
    concat("Basic ", encoded.as_str())
}

/// An event attribute from a JSON-RPC event: the strings as given, or, when the
/// server sends them base64-encoded, both decoded and read as lossy UTF-8. An
/// attribute without both strings, or whose fields do not decode, is dropped.
pub fn parse_event_attribute(key: Option<&str>, value: Option<&str>, base64_encoded: bool) -> (r: Option<EventAttribute>)
    ensures
        (key is None || value is None) ==> r is None,
        key matches Some(k) ==> (value matches Some(v) ==> (!base64_encoded ==> (r matches Some(a) && a.key@ == k@ && a.value@ == v@))),
        key matches Some(k) ==> (value matches Some(v) ==> (base64_encoded ==> match (base64_decoding(k@), base64_decoding(v@)) {
            (Some(kb), Some(vb)) => r matches Some(a) && a.key@ == utf8_lossy_of(kb) && a.value@ == utf8_lossy_of(vb),
            _ => r is None,
        })),
{
    match (key, value) {
        (Some(k), Some(v)) => {
            if !base64_encoded {
                Some(EventAttribute { key: k.to_string(), value: v.to_string() })
            } else {
                match (from_base64(k), from_base64(v)) {
                    (Some(kb), Some(vb)) => Some(EventAttribute { key: utf8_lossy(kb.as_slice()), value: utf8_lossy(vb.as_slice()) }),
                    _ => None,
                }
            }
        },
        _ => None,
    }
}

} // verus!
