//! Configuration: defaults, protocol versions, and the expansion of chain
//! references into endpoints. Reading the files and the TOML/JSON syntax happen
//! outside; this module takes their contents as values.

use vstd::prelude::*;
use vstd::string::StrSliceExecFns;

use crate::text::{is_prefix, starts_with, str_eq};

verus! {

/// The prefix that makes an endpoint URL a reference into the chains file.
pub const REFERENCE_PREFIX: &'static str = "ref:";

/// The two wire dialects of the classic client.
#[derive(Clone, Copy, Debug, PartialEq, Eq, Structural)]
pub enum CometVersion {
    V0_34,
    V0_37,
}

/// Why a configuration is rejected.
#[derive(Clone, Debug, PartialEq, Eq)]
pub enum ConfigError {
    /// A `ref:` URL names no entry of the chains file.
    UnknownReference(String),
    /// A `ref:` URL is used but there is no chains file.
    MissingReferenceFile(String),
    /// Not a WebSocket URL.
    InvalidUrl(String),
    /// A protocol version other than 0.34, 0.37 and 0.38.
    UnsupportedVersion(String),
}

/// Global settings.
#[derive(Clone, Debug, PartialEq, Eq)]
pub struct Global {
    pub ibc_versions: Vec<String>,
}

/// A chain entry as written in the configuration file.
#[derive(Clone, Debug, PartialEq, Eq)]
pub struct RawEndpoint {
    pub url: String,
    pub comet_version: String,
    pub ibc_version: String,
    pub username: Option<String>,
    pub password: Option<String>,
}

/// An entry of the chains file.
#[derive(Clone, Debug, PartialEq, Eq)]
pub struct ChainInfo {
    pub chain_id: String,
    pub rpc: String,
    pub websocket: String,
    pub username: String,
    pub password: String,
    pub comet_version: String,
}

/// The chains file: entries by network name, each name once.
#[derive(Clone, Debug, PartialEq, Eq)]
pub struct ChainsReference {
    pub chains: Vec<(String, ChainInfo)>,
}

/// A resolved chain endpoint.
#[derive(Clone, Debug, PartialEq, Eq)]
pub struct Endpoint {
    pub url: String,
    pub comet_version: CometVersion,
    pub version: String,
    pub ibc_version: String,
    pub username: Option<String>,
    pub password: Option<String>,
}

/// The chains of a configuration, by chain id.
#[derive(Clone, Debug, PartialEq, Eq)]
pub struct Chains {
    pub endpoints: Vec<(String, Endpoint)>,
}

/// The raw chains of a configuration file, by chain id.
#[derive(Clone, Debug, PartialEq, Eq)]
pub struct RawChains {
    pub endpoints: Vec<(String, RawEndpoint)>,
}

#[derive(Clone, Debug, PartialEq, Eq)]
pub struct Database {
    pub path: String,
}

#[derive(Clone, Copy, Debug, PartialEq, Eq, Structural)]
pub struct Metrics {
    pub enabled: bool,
    pub port: u16,
    pub populate_on_start: bool,
}

#[derive(Clone, Debug, PartialEq, Eq)]
pub struct RawConfig {
    pub global: Global,
    pub chains: RawChains,
    pub database: Database,
    pub metrics: Metrics,
}

#[derive(Clone, Debug, PartialEq, Eq)]
pub struct Config {
    pub global: Global,
    pub chains: Chains,
    pub database: Database,
    pub metrics: Metrics,
}

/// No key of `entries` occurs twice, as in a map.
pub open spec fn keys_unique<V>(entries: Seq<(String, V)>) -> bool {
    forall|i: int, j: int| 0 <= i < entries.len() && 0 <= j < entries.len() && i != j
        ==> #[trigger] entries[i].0@ != #[trigger] entries[j].0@
}

impl ChainsReference {
    /// Each network name names one entry.
    pub open spec fn wf(self) -> bool {
        keys_unique(self.chains@)
    }
}

impl RawChains {
    /// Each chain id names one entry.
    pub open spec fn wf(self) -> bool {
        keys_unique(self.endpoints@)
    }
}

impl Chains {
    /// Each chain id names one endpoint.
    pub open spec fn wf(self) -> bool {
        keys_unique(self.endpoints@)
    }
}

pub uninterp spec fn ws_url_accepted(s: Seq<char>) -> bool;

/// Relies on tendermint-rpc's `WebSocketClientUrl::from_str`: whether the text
/// parses as a `ws` or `wss` URL.
#[verifier::external_body]
fn is_ws_url(s: &str) -> (r: bool)
    ensures
        r == ws_url_accepted(s@),
{
    <tendermint_rpc::WebSocketClientUrl as std::str::FromStr>::from_str(s).is_ok()
}

/// The default protocol version.
pub fn comet_version() -> (r: CometVersion)
    ensures
        r == CometVersion::V0_34,
{
    CometVersion::V0_34
}

/// The default protocol version tag.
pub fn comet_version_str() -> (r: String)
    ensures
        r@ == "0.34"@,
{
    "0.34".to_string()
}

/// The default IBC version of an endpoint.
pub fn ibc_version() -> (r: String)
    ensures
        r@ == "v1"@,
{
    "v1".to_string()
}

/// The default IBC versions of the global section.
pub fn ibc_versions() -> (r: Vec<String>)
    ensures
        r@.len() == 1,
        r@[0]@ == "v1"@,
{
    let mut v: Vec<String> = Vec::new();
    v.push(ibc_version());
    v
}

impl Global {
    pub fn default() -> (r: Global)
        ensures
            r.ibc_versions@.len() == 1,
            r.ibc_versions@[0]@ == "v1"@,
    {
        Global { ibc_versions: ibc_versions() }
    }
}

/// The dialect of a version tag: 0.37 for "0.37", otherwise 0.34.
pub open spec fn compat_of(tag: Seq<char>) -> CometVersion {
    if tag == "0.37"@ {
        CometVersion::V0_37
    } else {
        CometVersion::V0_34
    }
}

pub fn compat_mode(tag: &str) -> (r: CometVersion)
    ensures
        r == compat_of(tag@),
{
    if str_eq(tag, "0.37") {
        CometVersion::V0_37
    } else {
        CometVersion::V0_34
    }
}

/// The tag written for a dialect.
pub fn serialize(version: CometVersion) -> (r: &'static str)
    ensures
        version == CometVersion::V0_34 ==> r@ == "0.34"@,
        version == CometVersion::V0_37 ==> r@ == "0.37"@,
{
    match version {
        CometVersion::V0_37 => "0.37",
        CometVersion::V0_34 => "0.34",
    }
}

/// Reads a version tag: "0.34" and "0.37" name their dialect, "0.38" is carried
/// on the 0.34 one, anything else is refused.
pub fn deserialize(tag: &str) -> (r: Result<CometVersion, ConfigError>)
    ensures
        tag@ == "0.37"@ ==> r == Ok::<CometVersion, ConfigError>(CometVersion::V0_37),
        tag@ == "0.34"@ || tag@ == "0.38"@ ==> r == Ok::<CometVersion, ConfigError>(CometVersion::V0_34),
        !(tag@ == "0.34"@ || tag@ == "0.37"@ || tag@ == "0.38"@) ==> (r matches Err(ConfigError::UnsupportedVersion(t)) && t@ == tag@),
{
    proof {
        reveal_strlit("0.34");
        reveal_strlit("0.37");
        reveal_strlit("0.38");
        assert("0.34"@[3] != "0.37"@[3]);
        assert("0.38"@[3] != "0.37"@[3]);
    }
    if str_eq(tag, "0.37") {
        Ok(CometVersion::V0_37)
    } else if str_eq(tag, "0.34") || str_eq(tag, "0.38") {
        Ok(CometVersion::V0_34)
    } else {
        Err(ConfigError::UnsupportedVersion(tag.to_string()))
    }
}

impl Endpoint {
    /// The version tag of this endpoint.
    pub fn version_string(&self) -> (r: &str)
        ensures
            r@ == self.version@,
    {
        self.version.as_str()
    }
}

impl ChainsReference {
    /// The first entry named `name`.
    pub open spec fn entry(self, name: Seq<char>) -> Option<ChainInfo> {
        first_entry(self.chains@, name)
    }

    pub fn get(&self, name: &str) -> (r: Option<&ChainInfo>)
        ensures
            match r {
                Some(c) => self.entry(name@) == Some(*c) && exists|i: int| 0 <= i < self.chains@.len()
                    && #[trigger] self.chains@[i].0@ == name@ && self.chains@[i].1 == *c,
                None => self.entry(name@) is None && forall|i: int| 0 <= i < self.chains@.len() ==> #[trigger] self.chains@[i].0@ != name@,
            },
    {
        let mut i: usize = 0;
        assert(self.chains@.skip(0) =~= self.chains@);
        while i < self.chains.len()
            invariant
                i <= self.chains@.len(),
                first_entry(self.chains@, name@) == first_entry(self.chains@.skip(i as int), name@),
                forall|k: int| 0 <= k < i ==> #[trigger] self.chains@[k].0@ != name@,
            decreases self.chains@.len() - i,
        {
            assert(self.chains@.skip(i as int)[0] == self.chains@[i as int]);
            if str_eq(self.chains[i].0.as_str(), name) {
                return Some(&self.chains[i].1);
            }
            assert(self.chains@.skip(i as int).skip(1) =~= self.chains@.skip(i + 1));
            i += 1;
        }
        None
    }
}

/// The first entry of `chains` named `name`.
pub open spec fn first_entry(chains: Seq<(String, ChainInfo)>, name: Seq<char>) -> Option<ChainInfo>
    decreases chains.len(),
{
    if chains.len() == 0 {
        None
    } else if chains[0].0@ == name {
        Some(chains[0].1)
    } else {
        first_entry(chains.skip(1), name)
    }
}

/// The network name of a `ref:` URL.
pub open spec fn reference_name(url: Seq<char>) -> Option<Seq<char>> {
    if is_prefix(REFERENCE_PREFIX@, url) {
        Some(url.subrange(4, url.len() as int))
    } else {
        None
    }
}

/// The endpoint a raw entry resolves to: a `ref:NAME` URL takes the websocket,
/// credentials and version of the chains file's entry NAME; any other URL is used
/// as written. The URL must be a WebSocket URL.
pub open spec fn resolved(raw: RawEndpoint, reference: Option<ChainsReference>, e: Endpoint) -> bool {
    match reference_name(raw.url@) {
        Some(name) => match reference {
            Some(cr) => match cr.entry(name) {
                Some(info) => {
                    &&& e.url@ == info.websocket@
                    &&& e.comet_version == compat_of(info.comet_version@)
                    &&& e.version@ == info.comet_version@
                    &&& e.ibc_version@ == raw.ibc_version@
                    &&& e.username == Some(info.username)
                    &&& e.password == Some(info.password)
                },
                None => false,
            },
            None => false,
        },
        None => {
            &&& e.url@ == raw.url@
            &&& e.comet_version == compat_of(raw.comet_version@)
            &&& e.version@ == raw.comet_version@
            &&& e.ibc_version@ == raw.ibc_version@
            &&& e.username == raw.username
            &&& e.password == raw.password
        },
    }
}

/// The URL an entry will connect to, when its reference resolves.
pub open spec fn target_url(raw: RawEndpoint, reference: Option<ChainsReference>) -> Option<Seq<char>> {
    match reference_name(raw.url@) {
        Some(name) => match reference {
            Some(cr) => match cr.entry(name) {
                Some(info) => Some(info.websocket@),
                None => None,
            },
            None => None,
        },
        None => Some(raw.url@),
    }
}

fn copy_opt(o: &Option<String>) -> (r: Option<String>)
    ensures
        r == *o,
{
    match o {
        Some(s) => Some(s.clone()),
        None => None,
    }
}

/// Resolves one chain entry.
pub fn resolve_endpoint(raw: &RawEndpoint, reference: &Option<ChainsReference>) -> (r: Result<Endpoint, ConfigError>)
    ensures
        r matches Ok(e) ==> resolved(*raw, *reference, e),
        r is Ok <==> (target_url(*raw, *reference) matches Some(u) && ws_url_accepted(u)),
        reference_name(raw.url@) matches Some(name) ==> (reference.is_none() <==> (r matches Err(ConfigError::MissingReferenceFile(n)) && n@ == name)),
        reference_name(raw.url@) matches Some(name) ==> ((reference matches Some(cr) && cr.entry(name) is None) <==> (r matches Err(ConfigError::UnknownReference(n)) && n@ == name)),
{
    proof {
        reveal_strlit("ref:");
    }
    if starts_with(raw.url.as_str(), REFERENCE_PREFIX) {
        let name = raw.url.as_str().substring_char(4, raw.url.as_str().unicode_len());
        match reference {
            None => Err(ConfigError::MissingReferenceFile(name.to_string())),
            Some(cr) => match cr.get(name) {
                None => Err(ConfigError::UnknownReference(name.to_string())),
                Some(info) => {
                    if !is_ws_url(info.websocket.as_str()) {
                        return Err(ConfigError::InvalidUrl(info.websocket.clone()));
                    }
                    Ok(Endpoint {
                        url: info.websocket.clone(),
                        comet_version: compat_mode(info.comet_version.as_str()),
                        version: info.comet_version.clone(),
                        ibc_version: raw.ibc_version.clone(),
                        username: Some(info.username.clone()),
                        password: Some(info.password.clone()),
                    })
                },
            },
        }
    } else {
        if !is_ws_url(raw.url.as_str()) {
            return Err(ConfigError::InvalidUrl(raw.url.clone()));
        }
        Ok(Endpoint {
            url: raw.url.clone(),
            comet_version: compat_mode(raw.comet_version.as_str()),
            version: raw.comet_version.clone(),
            ibc_version: raw.ibc_version.clone(),
            username: copy_opt(&raw.username),
            password: copy_opt(&raw.password),
        })
    }
}

impl Config {
    /// Expands a raw configuration: every chain entry resolved in order, the first
    /// entry that does not resolve rejecting the whole configuration.
    pub fn from_raw(raw: RawConfig, reference: Option<ChainsReference>) -> (r: Result<Config, ConfigError>)
        ensures
            r matches Ok(c) ==> {
                &&& c.chains.endpoints@.len() == raw.chains.endpoints@.len()
                &&& forall|i: int| 0 <= i < raw.chains.endpoints@.len() ==>
                    #[trigger] c.chains.endpoints@[i].0@ == raw.chains.endpoints@[i].0@
                    && resolved(raw.chains.endpoints@[i].1, reference, c.chains.endpoints@[i].1)
                &&& (raw.chains.wf() ==> c.chains.wf())
                &&& c.global == raw.global
                &&& c.database == raw.database
                &&& c.metrics == raw.metrics
            },
            r is Err ==> exists|i: int| 0 <= i < raw.chains.endpoints@.len()
                && !(#[trigger] target_url(raw.chains.endpoints@[i].1, reference) matches Some(u) && ws_url_accepted(u)),
    {
        let mut endpoints: Vec<(String, Endpoint)> = Vec::new();
        let mut i: usize = 0;
        while i < raw.chains.endpoints.len()
            invariant
                i <= raw.chains.endpoints@.len(),
                endpoints@.len() == i,
                forall|j: int| 0 <= j < i ==>
                    #[trigger] endpoints@[j].0@ == raw.chains.endpoints@[j].0@
                    && resolved(raw.chains.endpoints@[j].1, reference, endpoints@[j].1),
            decreases raw.chains.endpoints@.len() - i,
        {
            let entry = &raw.chains.endpoints[i];
            let ghost prev = endpoints@;
            match resolve_endpoint(&entry.1, &reference) {
                Ok(e) => endpoints.push((entry.0.clone(), e)),
                Err(err) => return Err(err),
            }
            assert forall|j: int| 0 <= j < i + 1 implies
                #[trigger] endpoints@[j].0@ == raw.chains.endpoints@[j].0@
                && resolved(raw.chains.endpoints@[j].1, reference, endpoints@[j].1) by {
                if j < i {
                    assert(endpoints@[j] == prev[j]);
                }
            }
            i += 1;
        }
        assert forall|a: int, b: int| 0 <= a < endpoints@.len() && 0 <= b < endpoints@.len() && a != b && raw.chains.wf()
            implies #[trigger] endpoints@[a].0@ != #[trigger] endpoints@[b].0@ by {
            assert(endpoints@[a].0@ == raw.chains.endpoints@[a].0@);
            assert(endpoints@[b].0@ == raw.chains.endpoints@[b].0@);
        }
        Ok(Config { global: raw.global, chains: Chains { endpoints }, database: raw.database, metrics: raw.metrics })
    }
}

} // verus!
