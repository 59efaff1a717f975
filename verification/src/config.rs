//! Server bootstrap configuration: its defaults and how environment
//! variables override what the configuration file says. Reading the file and
//! the environment is done by the caller.

use vstd::prelude::*;
use crate::text::{chars_of, ostr, parse_in_range, parse_i64, str_eq, string_from_str, strs};

verus! {

/// OIDC/SSO configuration for external identity provider login.
#[derive(Debug, Clone)]
pub struct OidcConfig {
    pub issuer_url: String,
    pub client_id: String,
    pub client_secret: Option<String>,
    pub redirect_uri: String,
    pub scopes: Vec<String>,
    /// Auto-create user on first SSO login if true.
    pub auto_register: bool,
}

/// Server bootstrap config. Libraries are not here: they live in the database.
#[derive(Debug, Clone)]
pub struct Config {
    pub port: u16,
    pub host: String,
    /// Path to the Ironshelf own database (created if missing).
    pub database_path: String,
    /// Path to the full-text search index directory.
    pub search_index_path: String,
    /// Path to the thumbnail cache directory for resized cover images.
    pub thumbnail_cache_path: String,
    /// Whether the server is behind TLS (direct or via reverse proxy).
    pub tls_enabled: bool,
    /// Whether to trust `X-Forwarded-For` and `X-Real-Ip` headers.
    pub trust_proxy_headers: bool,
    /// Optional OIDC/SSO configuration.
    pub oidc: Option<OidcConfig>,
}

/// The scopes requested from an OIDC provider unless configured otherwise.
pub fn default_oidc_scopes() -> (out: Vec<String>)
    ensures
        strs(out@) == seq!["openid"@, "profile"@, "email"@],
{
    let mut v: Vec<String> = Vec::new();
    v.push(string_from_str("openid"));
    v.push(string_from_str("profile"));
    v.push(string_from_str("email"));
    assert(strs(v@) =~= seq!["openid"@, "profile"@, "email"@]);
    v
}

/// The default listening port.
pub fn default_port() -> (p: u16)
    ensures
        p == 10810,
{
    10810
}

/// The default listening address.
pub fn default_host() -> (out: String)
    ensures
        out@ == "0.0.0.0"@,
{
    string_from_str("0.0.0.0")
}

/// The default database path.
pub fn default_ironshelf_db() -> (out: String)
    ensures
        out@ == "ironshelf.db"@,
{
    string_from_str("ironshelf.db")
}

/// The default search index directory.
pub fn default_search_index_path() -> (out: String)
    ensures
        out@ == "./ironshelf-search-index/"@,
{
    string_from_str("./ironshelf-search-index/")
}

/// The default thumbnail cache directory.
pub fn default_thumbnail_cache_path() -> (out: String)
    ensures
        out@ == "./ironshelf-thumbnail-cache/"@,
{
    string_from_str("./ironshelf-thumbnail-cache/")
}

impl Config {
    /// The configuration used when no configuration file is found.
    pub fn defaults() -> (c: Config)
        ensures
            c.port == 10810,
            c.host@ == "0.0.0.0"@,
            c.database_path@ == "ironshelf.db"@,
            c.search_index_path@ == "./ironshelf-search-index/"@,
            c.thumbnail_cache_path@ == "./ironshelf-thumbnail-cache/"@,
            !c.tls_enabled,
            !c.trust_proxy_headers,
            c.oidc is None,
    {
        Config {
            port: default_port(),
            host: default_host(),
            database_path: default_ironshelf_db(),
            search_index_path: default_search_index_path(),
            thumbnail_cache_path: default_thumbnail_cache_path(),
            tls_enabled: false,
            trust_proxy_headers: false,
            oidc: None,
        }
    }
}

/// The values of the environment variables that override the configuration:
/// `IRONSHELF_PORT`, `IRONSHELF_HOST`, `IRONSHELF_DB`,
/// `IRONSHELF_SEARCH_INDEX`, `IRONSHELF_THUMBNAIL_CACHE`,
/// `IRONSHELF_TLS_ENABLED`, `IRONSHELF_TRUST_PROXY_HEADERS` (each `None` when
/// unset).
pub struct EnvOverrides {
    pub port: Option<String>,
    pub host: Option<String>,
    pub database_path: Option<String>,
    pub search_index_path: Option<String>,
    pub thumbnail_cache_path: Option<String>,
    pub tls_enabled: Option<String>,
    pub trust_proxy_headers: Option<String>,
}

/// A flag variable is on when it reads `true` or `1`.
pub open spec fn flag_on(v: Seq<char>) -> bool {
    v == "true"@ || v == "1"@
}

/// Read a flag variable.
fn flag_value(v: &str) -> (r: bool)
    ensures
        r == flag_on(v@),
{
    str_eq(v, "true") || str_eq(v, "1")
}

/// Parse a port number as `str::parse::<u16>` does.
pub fn parse_port(s: &str) -> (r: Option<u16>)
    ensures
        r matches Some(p) ==> parse_in_range(s@, false, 0, 65535) == Some(p as int),
        r is None ==> parse_in_range(s@, false, 0, 65535) is None,
{
    let c = chars_of(s);
    if c.len() > 0 && c[0] == '-' {
        proof {
            assert(c@.skip(crate::text::sign_len(c@, false))[0] == '-');
        }
        return None;
    }
    assert(crate::text::sign_len(c@, false) == crate::text::sign_len(c@, true));
    assert(crate::text::parsed_int(c@, false) == crate::text::parsed_int(c@, true));
    match parse_i64(&c) {
        Some(v) => {
            if 0 <= v && v <= 65535 {
                Some(v as u16)
            } else {
                None
            }
        },
        None => None,
    }
}

/// Apply the environment overrides: a port that does not parse is ignored;
/// paths and the host replace the configured ones; flags are set from their
/// variables.
pub fn apply_env_overrides(config: &mut Config, env: &EnvOverrides)
    ensures
        final(config).port == match env.port {
            Some(p) => match parse_in_range(p@, false, 0, 65535) {
                Some(v) => v as u16,
                None => old(config).port,
            },
            None => old(config).port,
        },
        final(config).host@ == match ostr(env.host) {
            Some(h) => h,
            None => old(config).host@,
        },
        final(config).database_path@ == match ostr(env.database_path) {
            Some(h) => h,
            None => old(config).database_path@,
        },
        final(config).search_index_path@ == match ostr(env.search_index_path) {
            Some(h) => h,
            None => old(config).search_index_path@,
        },
        final(config).thumbnail_cache_path@ == match ostr(env.thumbnail_cache_path) {
            Some(h) => h,
            None => old(config).thumbnail_cache_path@,
        },
        final(config).tls_enabled == match ostr(env.tls_enabled) {
            Some(v) => flag_on(v),
            None => old(config).tls_enabled,
        },
        final(config).trust_proxy_headers == match ostr(env.trust_proxy_headers) {
            Some(v) => flag_on(v),
            None => old(config).trust_proxy_headers,
        },
        final(config).oidc == old(config).oidc,
{
    match &env.port {
        Some(p) => match parse_port(p.as_str()) {
            Some(v) => {
                config.port = v;
            },
            None => {},
        },
        None => {},
    }
    match &env.host {
        Some(h) => {
            config.host = h.clone();
        },
        None => {},
    }
    match &env.database_path {
        Some(h) => {
            config.database_path = h.clone();
        },
        None => {},
    }
    match &env.search_index_path {
        Some(h) => {
            config.search_index_path = h.clone();
        },
        None => {},
    }
    match &env.thumbnail_cache_path {
        Some(h) => {
            config.thumbnail_cache_path = h.clone();
        },
        None => {},
    }
    match &env.tls_enabled {
        Some(v) => {
            config.tls_enabled = flag_value(v.as_str());
        },
        None => {},
    }
    match &env.trust_proxy_headers {
        Some(v) => {
            config.trust_proxy_headers = flag_value(v.as_str());
        },
        None => {},
    }
}

} // verus!
