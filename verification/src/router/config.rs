//! Server configuration, read from environment variables. The caller reads the variables
//! (a variable that is unset or not Unicode counts as absent) and parses the bind address.
use vstd::prelude::*;
use crate::common::env::{env_number, number_or, or_default, text_or, text_or_default};
use crate::common::text::{
    ascii_lowercase, chars_of, join2, join4, lowercase, owned, split_chars, split_on, str_eq, trim,
    trimmed,
};
use crate::router::auth::{generate_admin_key, hex_encode, hex_text};

verus! {

pub const DEFAULT_BIND_ADDR: &'static str = "127.0.0.1:8081";
pub const DEFAULT_REQUEST_TIMEOUT_SECS: u64 = 30;
pub const DEFAULT_LOCAL_RESOURCE_DIR: &'static str = "/data/resource";
pub const DEFAULT_POOL_HEALTH_INTERVAL_SECS: u64 = 300;
pub const DEFAULT_POOL_HEALTH_TIMEOUT_SECS: u64 = 10;
/// 2 GiB.
pub const DEFAULT_MAX_UPLOAD_BYTES: u64 = 2147483648;
/// Requests per client per minute.
pub const DEFAULT_PUBLIC_RATE_LIMIT: u32 = 120;

/// The environment variables the server reads, as text; `None` when unset.
pub struct ServerEnv {
    pub bind_addr: Option<String>,
    pub request_timeout_secs: Option<String>,
    pub local_resource_dir: Option<String>,
    pub pool_health_interval_secs: Option<String>,
    pub pool_health_timeout_secs: Option<String>,
    pub max_upload_bytes: Option<String>,
    pub public_rate_limit: Option<String>,
    pub trust_x_forwarded_for: Option<String>,
    pub admin_key: Option<String>,
    pub cors_allowed_origins: Option<String>,
}

/// The server's settings.
pub struct ServerConfig {
    /// `BIND_ADDR`, default `127.0.0.1:8081` (parsed into a socket address by the caller).
    pub bind_addr: String,
    /// `REQUEST_TIMEOUT_SECS`, default 30.
    pub request_timeout_secs: u64,
    /// `LOCAL_RESOURCE_DIR`, default `/data/resource`.
    pub local_resource_dir: String,
    /// `POOL_HEALTH_INTERVAL_SECS`, default 300.
    pub pool_health_interval_secs: u64,
    /// `POOL_HEALTH_TIMEOUT_SECS`, default 10.
    pub pool_health_timeout_secs: u64,
    /// `MAX_UPLOAD_BYTES`, default 2 GiB.
    pub max_upload_bytes: u64,
    /// `PUBLIC_RATE_LIMIT`, requests per client per minute, default 120.
    pub public_rate_limit: u32,
    /// `TRUST_X_FORWARDED_FOR`: `1` or `true` in any case.
    pub trust_x_forwarded_for: bool,
    /// `ADMIN_KEY`; when unset or empty a random key is made, which cannot be recovered.
    pub admin_key: String,
    /// `CORS_ALLOWED_ORIGINS`, comma separated; empty allows every origin (development).
    pub cors_allowed_origins: Vec<String>,
}

/// Whether a `TRUST_X_FORWARDED_FOR` value switches the option on.
pub open spec fn is_truthy(v: Seq<char>) -> bool {
    v == "1"@ || lowercase(v) == "true"@
}

/// The origins of a `CORS_ALLOWED_ORIGINS` value: comma-separated pieces, trimmed, the
/// empty ones dropped.
pub open spec fn origins_of(v: Seq<char>) -> Seq<Seq<char>> {
    split_on(v, ',').map_values(|p: Seq<char>| trimmed(p)).filter(|p: Seq<char>| p.len() > 0)
}

/// Whether a `TRUST_X_FORWARDED_FOR` value is `1` or `true` in any case.
pub fn truthy(v: &str) -> (yes: bool)
    ensures
        yes == is_truthy(v@),
{
    if str_eq(v, "1") {
        return true;
    }
    let l = ascii_lowercase(v);
    str_eq(l.as_str(), "true")
}

/// The allowed origins of a `CORS_ALLOWED_ORIGINS` value.
pub fn parse_origins(v: &str) -> (out: Vec<String>)
    ensures
        out@.map_values(|p: String| p@) == origins_of(v@),
{
    let chars = chars_of(v);
    let pieces = split_chars(&chars, ',');
    let ghost pv = pieces@.map_values(|p: String| p@);
    let mut out: Vec<String> = Vec::new();
    let mut i: usize = 0;
    while i < pieces.len()
        invariant
            i <= pieces.len(),
            pv == pieces@.map_values(|p: String| p@),
            pv == split_on(v@, ','),
            out@.map_values(|p: String| p@) == pv.subrange(0, i as int).map_values(|p: Seq<char>| trimmed(p)).filter(|p: Seq<char>| p.len() > 0),
        decreases pieces.len() - i,
    {
        let t = trim(pieces[i].as_str());
        let ghost before = out@;
        proof {
            let prev = pv.subrange(0, i as int).map_values(|p: Seq<char>| trimmed(p));
            let mapped = pv.subrange(0, i + 1).map_values(|p: Seq<char>| trimmed(p));
            assert(mapped =~= prev.push(trimmed(pv[i as int])));
            assert(mapped.drop_last() =~= prev);
            reveal_with_fuel(Seq::filter, 1);
        }
        if !t.as_str().is_empty() {
            out.push(t);
            assert(out@.map_values(|p: String| p@) =~= before.map_values(|p: String| p@).push(trimmed(pv[i as int])));
        }
        i += 1;
    }
    assert(pv.subrange(0, pieces.len() as int) =~= pv);
    out
}

} // verus!

verus! {

/// The first error among the numeric variables, in the order they are read.
pub open spec fn first_number_error(env: ServerEnv) -> Option<Seq<char>> {
    let u64max = u64::MAX as nat;
    let u32max = u32::MAX as nat;
    if env_number(env.request_timeout_secs, "REQUEST_TIMEOUT_SECS"@, u64max) is Err {
        Some(env_number(env.request_timeout_secs, "REQUEST_TIMEOUT_SECS"@, u64max)->Err_0)
    } else if env_number(env.pool_health_interval_secs, "POOL_HEALTH_INTERVAL_SECS"@, u64max) is Err {
        Some(env_number(env.pool_health_interval_secs, "POOL_HEALTH_INTERVAL_SECS"@, u64max)->Err_0)
    } else if env_number(env.pool_health_timeout_secs, "POOL_HEALTH_TIMEOUT_SECS"@, u64max) is Err {
        Some(env_number(env.pool_health_timeout_secs, "POOL_HEALTH_TIMEOUT_SECS"@, u64max)->Err_0)
    } else if env_number(env.max_upload_bytes, "MAX_UPLOAD_BYTES"@, u64max) is Err {
        Some(env_number(env.max_upload_bytes, "MAX_UPLOAD_BYTES"@, u64max)->Err_0)
    } else if env_number(env.public_rate_limit, "PUBLIC_RATE_LIMIT"@, u32max) is Err {
        Some(env_number(env.public_rate_limit, "PUBLIC_RATE_LIMIT"@, u32max)->Err_0)
    } else {
        None
    }
}

/// Whether an `ADMIN_KEY` value is given and non-empty.
pub open spec fn admin_key_given(v: Option<String>) -> bool {
    v matches Some(k) && k@.len() > 0
}

/// The error when no admin key is given and the random source fails.
pub open spec fn rng_unavailable() -> Seq<char> {
    "os rng unavailable"@
}

/// The settings `env` describes, apart from the admin key.
pub open spec fn config_matches(env: ServerEnv, c: ServerConfig) -> bool {
    let u64max = u64::MAX as nat;
    let u32max = u32::MAX as nat;
    &&& c.bind_addr@ == text_or(env.bind_addr, DEFAULT_BIND_ADDR@)
    &&& c.request_timeout_secs == or_default(env_number(env.request_timeout_secs, "REQUEST_TIMEOUT_SECS"@, u64max), DEFAULT_REQUEST_TIMEOUT_SECS as nat)
    &&& c.local_resource_dir@ == text_or(env.local_resource_dir, DEFAULT_LOCAL_RESOURCE_DIR@)
    &&& c.pool_health_interval_secs == or_default(env_number(env.pool_health_interval_secs, "POOL_HEALTH_INTERVAL_SECS"@, u64max), DEFAULT_POOL_HEALTH_INTERVAL_SECS as nat)
    &&& c.pool_health_timeout_secs == or_default(env_number(env.pool_health_timeout_secs, "POOL_HEALTH_TIMEOUT_SECS"@, u64max), DEFAULT_POOL_HEALTH_TIMEOUT_SECS as nat)
    &&& c.max_upload_bytes == or_default(env_number(env.max_upload_bytes, "MAX_UPLOAD_BYTES"@, u64max), DEFAULT_MAX_UPLOAD_BYTES as nat)
    &&& c.public_rate_limit == or_default(env_number(env.public_rate_limit, "PUBLIC_RATE_LIMIT"@, u32max), DEFAULT_PUBLIC_RATE_LIMIT as nat)
    &&& c.trust_x_forwarded_for == (env.trust_x_forwarded_for matches Some(v) && is_truthy(v@))
    &&& c.cors_allowed_origins@.map_values(|p: String| p@) == match env.cors_allowed_origins {
        Some(v) => origins_of(v@),
        None => Seq::empty(),
    }
}

impl ServerConfig {
    /// Reads the settings from the variables' values. A numeric variable that does not
    /// parse is an error naming it; without a usable `ADMIN_KEY` a random key is made.
    pub fn from_values(env: &ServerEnv) -> (r: Result<ServerConfig, String>)
        ensures
            match first_number_error(*env) {
                Some(m) => r matches Err(e) && e@ == m,
                None => match r {
                    Ok(c) => config_matches(*env, c) && if admin_key_given(env.admin_key) {
                        c.admin_key@ == env.admin_key->0@
                    } else {
                        c.admin_key@.len() == 128 && exists|b: Seq<u8>| b.len() == 64 && c.admin_key@ == hex_text(b)
                    },
                    Err(e) => !admin_key_given(env.admin_key) && e@ == rng_unavailable(),
                },
            },
    {
        let bind_addr = text_or_default(&env.bind_addr, DEFAULT_BIND_ADDR);
        let request_timeout_secs = match number_or(&env.request_timeout_secs, "REQUEST_TIMEOUT_SECS", u64::MAX, DEFAULT_REQUEST_TIMEOUT_SECS) {
            Ok(n) => n,
            Err(e) => return Err(e),
        };
        let local_resource_dir = text_or_default(&env.local_resource_dir, DEFAULT_LOCAL_RESOURCE_DIR);
        let pool_health_interval_secs = match number_or(&env.pool_health_interval_secs, "POOL_HEALTH_INTERVAL_SECS", u64::MAX, DEFAULT_POOL_HEALTH_INTERVAL_SECS) {
            Ok(n) => n,
            Err(e) => return Err(e),
        };
        let pool_health_timeout_secs = match number_or(&env.pool_health_timeout_secs, "POOL_HEALTH_TIMEOUT_SECS", u64::MAX, DEFAULT_POOL_HEALTH_TIMEOUT_SECS) {
            Ok(n) => n,
            Err(e) => return Err(e),
        };
        let max_upload_bytes = match number_or(&env.max_upload_bytes, "MAX_UPLOAD_BYTES", u64::MAX, DEFAULT_MAX_UPLOAD_BYTES) {
            Ok(n) => n,
            Err(e) => return Err(e),
        };
        let public_rate_limit: u32 = match number_or(&env.public_rate_limit, "PUBLIC_RATE_LIMIT", 4294967295u64, 120u64) {
            Ok(n) => n as u32,
            Err(e) => return Err(e),
        };
        let trust_x_forwarded_for = match &env.trust_x_forwarded_for {
            Some(v) => truthy(v.as_str()),
            None => false,
        };
        let admin_key = match &env.admin_key {
            Some(k) if !k.as_str().is_empty() => k.clone(),
            _ => match generate_admin_key() {
                Some(k) => k,
                None => return Err(owned("os rng unavailable")),
            },
        };
        let cors_allowed_origins = match &env.cors_allowed_origins {
            Some(v) => parse_origins(v.as_str()),
            None => {
                let v: Vec<String> = Vec::new();
                assert(v@.map_values(|p: String| p@) =~= Seq::<Seq<char>>::empty());
                v
            },
        };
        Ok(ServerConfig {
            bind_addr,
            request_timeout_secs,
            local_resource_dir,
            pool_health_interval_secs,
            pool_health_timeout_secs,
            max_upload_bytes,
            public_rate_limit,
            trust_x_forwarded_for,
            admin_key,
            cors_allowed_origins,
        })
    }
}

impl Default for ServerConfig {
    /// The built-in defaults; the admin key is 128 zero digits, for tests only (a real key
    /// comes from `ADMIN_KEY` or is random).
    fn default() -> (c: ServerConfig)
        ensures
            c.bind_addr@ == DEFAULT_BIND_ADDR@,
            c.request_timeout_secs == DEFAULT_REQUEST_TIMEOUT_SECS,
            c.local_resource_dir@ == DEFAULT_LOCAL_RESOURCE_DIR@,
            c.pool_health_interval_secs == DEFAULT_POOL_HEALTH_INTERVAL_SECS,
            c.pool_health_timeout_secs == DEFAULT_POOL_HEALTH_TIMEOUT_SECS,
            c.max_upload_bytes == DEFAULT_MAX_UPLOAD_BYTES,
            c.public_rate_limit == DEFAULT_PUBLIC_RATE_LIMIT,
            !c.trust_x_forwarded_for,
            c.admin_key@ == hex_text(Seq::new(64, |i: int| 0u8)),
            c.cors_allowed_origins@.len() == 0,
    {
        let zeros: Vec<u8> = vec![0u8; 64];
        assert(zeros@ =~= Seq::new(64, |i: int| 0u8));
        ServerConfig {
            bind_addr: owned(DEFAULT_BIND_ADDR),
            request_timeout_secs: DEFAULT_REQUEST_TIMEOUT_SECS,
            local_resource_dir: owned(DEFAULT_LOCAL_RESOURCE_DIR),
            pool_health_interval_secs: DEFAULT_POOL_HEALTH_INTERVAL_SECS,
            pool_health_timeout_secs: DEFAULT_POOL_HEALTH_TIMEOUT_SECS,
            max_upload_bytes: DEFAULT_MAX_UPLOAD_BYTES,
            public_rate_limit: DEFAULT_PUBLIC_RATE_LIMIT,
            trust_x_forwarded_for: false,
            admin_key: hex_encode(zeros.as_slice()),
            cors_allowed_origins: Vec::new(),
        }
    }
}

} // verus!
