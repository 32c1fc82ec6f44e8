//! Hub configuration: the `hub.toml` sections with their defaults, environment
//! overrides, and the local-development fallback file.

use vstd::prelude::*;
use crate::text;

verus! {

broadcast use vstd::string::group_string_axioms;

/// Resolved Hub settings.
pub struct HubConfig {
    pub bind: String,
    pub port: u16,
    pub ha_url: String,
    pub ha_token: String,
    pub agent_url: String,
    /// How often to REST-refresh the device registry when WS is unavailable (seconds).
    pub registry_poll_secs: u64,
    /// When true, REST/WS/MCP require `Authorization: Bearer` (except health + pair).
    pub auth_required: bool,
    /// Optional secret mixed into opaque tokens. Empty = random-ish tokens.
    pub auth_secret: String,
    /// MongoDB connection URI (auth + scenes + companions).
    pub mongodb_uri: String,
    /// MongoDB database name.
    pub mongodb_database: String,
}

pub struct HubSection {
    pub bind: String,
    pub port: u16,
    pub registry_poll_secs: u64,
}

pub struct HaSection {
    pub url: String,
    pub token: String,
}

pub struct AgentSection {
    pub url: String,
}

pub struct MongodbSection {
    pub uri: String,
    pub database: String,
}

/// The `hub.toml` file, every section and key optional (defaults fill the gaps).
pub struct FileConfig {
    pub hub: HubSection,
    pub ha: HaSection,
    pub agent: AgentSection,
    pub mongodb: MongodbSection,
}

/// Environment values that override the file (each `None` when unset).
pub struct EnvOverrides {
    pub ha_url: Option<String>,
    pub ha_token: Option<String>,
    pub agent_url: Option<String>,
    pub hub_port: Option<String>,
    pub hub_bind: Option<String>,
    pub registry_poll_secs: Option<String>,
    pub auth_required: Option<String>,
    pub auth_secret: Option<String>,
    pub mongodb_uri: Option<String>,
    pub mongodb_database: Option<String>,
}

pub open spec fn default_bind_spec() -> Seq<char> { "0.0.0.0"@ }
pub open spec fn default_ha_url_spec() -> Seq<char> { "http://homeassistant:8123"@ }
pub open spec fn default_agent_url_spec() -> Seq<char> { "http://agent:8000"@ }
pub open spec fn default_mongodb_uri_spec() -> Seq<char> { "mongodb://mongo:27017"@ }
pub open spec fn default_mongodb_database_spec() -> Seq<char> { "lan_iot"@ }

pub fn default_bind() -> (r: String)
    ensures
        r@ == default_bind_spec(),
{
    text::owned("0.0.0.0")
}

pub fn default_port() -> (r: u16)
    ensures
        r == 3000,
{
    3000
}

pub fn default_poll() -> (r: u64)
    ensures
        r == 30,
{
    30
}

pub fn default_ha_url() -> (r: String)
    ensures
        r@ == default_ha_url_spec(),
{
    text::owned("http://homeassistant:8123")
}

pub fn default_agent_url() -> (r: String)
    ensures
        r@ == default_agent_url_spec(),
{
    text::owned("http://agent:8000")
}

pub fn default_mongodb_uri() -> (r: String)
    ensures
        r@ == default_mongodb_uri_spec(),
{
    text::owned("mongodb://mongo:27017")
}

pub fn default_mongodb_database() -> (r: String)
    ensures
        r@ == default_mongodb_database_spec(),
{
    text::owned("lan_iot")
}

impl HubSection {
    pub fn default() -> (r: HubSection)
        ensures
            r.bind@ == default_bind_spec(),
            r.port == 3000,
            r.registry_poll_secs == 30,
    {
        HubSection { bind: default_bind(), port: default_port(), registry_poll_secs: default_poll() }
    }
}

impl HaSection {
    pub fn default() -> (r: HaSection)
        ensures
            r.url@ == default_ha_url_spec(),
            r.token@ == Seq::<char>::empty(),
    {
        HaSection { url: default_ha_url(), token: String::new() }
    }
}

impl AgentSection {
    pub fn default() -> (r: AgentSection)
        ensures
            r.url@ == default_agent_url_spec(),
    {
        AgentSection { url: default_agent_url() }
    }
}

impl MongodbSection {
    pub fn default() -> (r: MongodbSection)
        ensures
            r.uri@ == default_mongodb_uri_spec(),
            r.database@ == default_mongodb_database_spec(),
    {
        MongodbSection { uri: default_mongodb_uri(), database: default_mongodb_database() }
    }
}

impl FileConfig {
    pub open spec fn is_default(&self) -> bool {
        &&& self.hub.bind@ == default_bind_spec()
        &&& self.hub.port == 3000
        &&& self.hub.registry_poll_secs == 30
        &&& self.ha.url@ == default_ha_url_spec()
        &&& self.ha.token@ == Seq::<char>::empty()
        &&& self.agent.url@ == default_agent_url_spec()
        &&& self.mongodb.uri@ == default_mongodb_uri_spec()
        &&& self.mongodb.database@ == default_mongodb_database_spec()
    }

    /// Every key at its default.
    pub fn default() -> (r: FileConfig)
        ensures
            r.is_default(),
    {
        FileConfig {
            hub: HubSection::default(),
            ha: HaSection::default(),
            agent: AgentSection::default(),
            mongodb: MongodbSection::default(),
        }
    }
}

/// An override that applies only when set and non-empty.
pub open spec fn nonempty_or(v: Option<String>, current: Seq<char>) -> Seq<char> {
    match v {
        Some(s) => if s@.len() > 0 { s@ } else { current },
        None => current,
    }
}

/// An override that applies whenever set.
pub open spec fn set_or(v: Option<String>, current: Seq<char>) -> Seq<char> {
    match v {
        Some(s) => s@,
        None => current,
    }
}

/// A numeric override that applies when it parses.
pub open spec fn parsed_or(v: Option<String>, max: nat, current: nat) -> nat {
    match v {
        Some(s) => match text::parse_unsigned(s@, max) {
            Some(n) => n,
            None => current,
        },
        None => current,
    }
}

fn override_nonempty(cur: String, v: &Option<String>) -> (r: String)
    ensures
        r@ == nonempty_or(*v, cur@),
{
    match v {
        Some(s) => if text::is_empty(s.as_str()) { cur } else { s.clone() },
        None => cur,
    }
}

fn override_set(cur: String, v: &Option<String>) -> (r: String)
    ensures
        r@ == set_or(*v, cur@),
{
    match v {
        Some(s) => s.clone(),
        None => cur,
    }
}

impl HubConfig {
    /// Path of the config file: `HUB_CONFIG`, else `/etc/lan-iot/hub.toml`.
    pub fn config_path(env_value: Option<&str>) -> (r: String)
        ensures
            r@ == match env_value {
                Some(p) => p@,
                None => "/etc/lan-iot/hub.toml"@,
            },
    {
        match env_value {
            Some(p) => text::owned(p),
            None => text::owned("/etc/lan-iot/hub.toml"),
        }
    }

    /// Settings from the file (defaults when it was missing or unreadable), then
    /// the environment: `HA_URL`, `AGENT_URL`, `HUB_BIND`, `MONGODB_URI`,
    /// `MONGODB_DATABASE` when non-empty; `HA_TOKEN`, `AUTH_SECRET` whenever set;
    /// `HUB_PORT`, `REGISTRY_POLL_SECS` when they parse; `AUTH_REQUIRED` as a
    /// truthy flag.
    pub fn load(file: Option<FileConfig>, env: &EnvOverrides) -> (r: HubConfig)
        ensures
            r.bind@ == nonempty_or(env.hub_bind, match file { Some(f) => f.hub.bind@, None => default_bind_spec() }),
            r.port as nat == parsed_or(env.hub_port, 65535, match file { Some(f) => f.hub.port as nat, None => 3000 }),
            r.ha_url@ == nonempty_or(env.ha_url, match file { Some(f) => f.ha.url@, None => default_ha_url_spec() }),
            r.ha_token@ == set_or(env.ha_token, match file { Some(f) => f.ha.token@, None => Seq::empty() }),
            r.agent_url@ == nonempty_or(env.agent_url, match file { Some(f) => f.agent.url@, None => default_agent_url_spec() }),
            r.registry_poll_secs as nat == parsed_or(
                env.registry_poll_secs,
                0xffff_ffff_ffff_ffff,
                match file { Some(f) => f.hub.registry_poll_secs as nat, None => 30 },
            ),
            r.auth_required == match env.auth_required { Some(v) => text::is_truthy(v@), None => false },
            r.auth_secret@ == set_or(env.auth_secret, Seq::empty()),
            r.mongodb_uri@ == nonempty_or(env.mongodb_uri, match file { Some(f) => f.mongodb.uri@, None => default_mongodb_uri_spec() }),
            r.mongodb_database@ == nonempty_or(
                env.mongodb_database,
                match file { Some(f) => f.mongodb.database@, None => default_mongodb_database_spec() },
            ),
    {
        let f = match file {
            Some(f) => f,
            None => FileConfig::default(),
        };
        let port = match &env.hub_port {
            Some(v) => match text::parse_unsigned_exec(v.as_str(), 65535) {
                Some(p) => p as u16,
                None => f.hub.port,
            },
            None => f.hub.port,
        };
        let poll = match &env.registry_poll_secs {
            Some(v) => match text::parse_unsigned_exec(v.as_str(), 0xffff_ffff_ffff_ffff) {
                Some(p) => p,
                None => f.hub.registry_poll_secs,
            },
            None => f.hub.registry_poll_secs,
        };
        let auth_required = match &env.auth_required {
            Some(v) => text::truthy(v.as_str()),
            None => false,
        };
        HubConfig {
            bind: override_nonempty(f.hub.bind, &env.hub_bind),
            port,
            ha_url: override_nonempty(f.ha.url, &env.ha_url),
            ha_token: override_set(f.ha.token, &env.ha_token),
            agent_url: override_nonempty(f.agent.url, &env.agent_url),
            registry_poll_secs: poll,
            auth_required,
            auth_secret: override_set(String::new(), &env.auth_secret),
            mongodb_uri: override_nonempty(f.mongodb.uri, &env.mongodb_uri),
            mongodb_database: override_nonempty(f.mongodb.database, &env.mongodb_database),
        }
    }

    /// Local-dev convenience: with no HA token and no config file at the
    /// configured path, `../../config/hub.toml` (or `config/hub.toml`) is consulted.
    pub fn needs_local_fallback(&self, config_file_exists: bool) -> (r: bool)
        ensures
            r == (self.ha_token@.len() == 0 && !config_file_exists),
    {
        text::is_empty(self.ha_token.as_str()) && !config_file_exists
    }

    /// Fills settings still at their defaults from the local file: HA URL, HA
    /// token (when empty), agent URL, and Mongo URI / database when the local
    /// values are non-empty.
    pub fn apply_local(&mut self, local: FileConfig)
        ensures
            final(self).bind@ == old(self).bind@,
            final(self).port == old(self).port,
            final(self).registry_poll_secs == old(self).registry_poll_secs,
            final(self).auth_required == old(self).auth_required,
            final(self).auth_secret@ == old(self).auth_secret@,
            final(self).ha_url@ == if old(self).ha_url@ == default_ha_url_spec() { local.ha.url@ } else { old(self).ha_url@ },
            final(self).ha_token@ == if old(self).ha_token@.len() == 0 { local.ha.token@ } else { old(self).ha_token@ },
            final(self).agent_url@ == if old(self).agent_url@ == default_agent_url_spec() { local.agent.url@ } else { old(self).agent_url@ },
            final(self).mongodb_uri@ == if old(self).mongodb_uri@ == default_mongodb_uri_spec() && local.mongodb.uri@.len() > 0 {
                local.mongodb.uri@
            } else {
                old(self).mongodb_uri@
            },
            final(self).mongodb_database@ == if old(self).mongodb_database@ == default_mongodb_database_spec()
                && local.mongodb.database@.len() > 0 {
                local.mongodb.database@
            } else {
                old(self).mongodb_database@
            },
    {
        if text::eq(self.ha_url.as_str(), "http://homeassistant:8123") {
            self.ha_url = local.ha.url;
        }
        if text::is_empty(self.ha_token.as_str()) {
            self.ha_token = local.ha.token;
        }
        if text::eq(self.agent_url.as_str(), "http://agent:8000") {
            self.agent_url = local.agent.url;
        }
        if text::eq(self.mongodb_uri.as_str(), "mongodb://mongo:27017") && !text::is_empty(local.mongodb.uri.as_str()) {
            self.mongodb_uri = local.mongodb.uri;
        }
        if text::eq(self.mongodb_database.as_str(), "lan_iot") && !text::is_empty(local.mongodb.database.as_str()) {
            self.mongodb_database = local.mongodb.database;
        }
    }

    /// `<bind>:<port>`, the address the Hub listens on.
    pub fn listen_address(&self) -> (r: String)
        ensures
            r@ == self.bind@ + ":"@ + text::dec(self.port as nat),
    {
        let p = text::u64_to_string(self.port as u64);
        text::concat3(self.bind.as_str(), ":", p.as_str())
    }

    /// Both the HA URL and token are set.
    pub fn ha_configured(&self) -> (r: bool)
        ensures
            r == (self.ha_url@.len() > 0 && self.ha_token@.len() > 0),
    {
        !text::is_empty(self.ha_url.as_str()) && !text::is_empty(self.ha_token.as_str())
    }
}

} // verus!
