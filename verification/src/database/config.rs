//! Database settings, from environment variables read by the caller.
use vstd::prelude::*;
use crate::common::env::{env_number, number_or, or_default, text_or, text_or_default};
use crate::common::text::owned;

verus! {

pub const DEFAULT_MAX_CONNECTIONS: u32 = 10;
pub const DEFAULT_CONNECT_TIMEOUT_SECS: u64 = 5;
pub const DEFAULT_MIGRATIONS_DIR: &'static str = "migrations";

/// The variables' values; `None` when unset.
pub struct DatabaseEnv {
    pub url: Option<String>,
    pub max_connections: Option<String>,
    pub connect_timeout_secs: Option<String>,
    pub migrations_dir: Option<String>,
}

/// Database settings.
pub struct DatabaseConfig {
    /// `DATABASE_URL`, required.
    pub url: String,
    /// `DATABASE_MAX_CONNECTIONS`, default 10.
    pub max_connections: u32,
    /// `DATABASE_CONNECT_TIMEOUT_SECS`, default 5.
    pub connect_timeout_secs: u64,
    /// `MIGRATIONS_DIR`, default `migrations`.
    pub migrations_dir: String,
}

impl DatabaseConfig {
    /// Reads the settings; the URL is required and the numbers must parse.
    pub fn from_values(env: &DatabaseEnv) -> (r: Result<DatabaseConfig, String>)
        ensures
            env.url is None ==> (r matches Err(e) && e@ == "DATABASE_URL is not set"@),
            env.url is Some && env_number(env.max_connections, "DATABASE_MAX_CONNECTIONS"@, u32::MAX as nat) is Err
                ==> (r matches Err(e) && e@ == env_number(env.max_connections, "DATABASE_MAX_CONNECTIONS"@, u32::MAX as nat)->Err_0),
            env.url is Some && env_number(env.max_connections, "DATABASE_MAX_CONNECTIONS"@, u32::MAX as nat) is Ok
                && env_number(env.connect_timeout_secs, "DATABASE_CONNECT_TIMEOUT_SECS"@, u64::MAX as nat) is Err
                ==> (r matches Err(e) && e@ == env_number(env.connect_timeout_secs, "DATABASE_CONNECT_TIMEOUT_SECS"@, u64::MAX as nat)->Err_0),
            env.url is Some && env_number(env.max_connections, "DATABASE_MAX_CONNECTIONS"@, u32::MAX as nat) is Ok
                && env_number(env.connect_timeout_secs, "DATABASE_CONNECT_TIMEOUT_SECS"@, u64::MAX as nat) is Ok
                ==> (r matches Ok(c) && c.url@ == env.url->0@
                    && c.max_connections == or_default(env_number(env.max_connections, "DATABASE_MAX_CONNECTIONS"@, u32::MAX as nat), DEFAULT_MAX_CONNECTIONS as nat)
                    && c.connect_timeout_secs == or_default(env_number(env.connect_timeout_secs, "DATABASE_CONNECT_TIMEOUT_SECS"@, u64::MAX as nat), DEFAULT_CONNECT_TIMEOUT_SECS as nat)
                    && c.migrations_dir@ == text_or(env.migrations_dir, DEFAULT_MIGRATIONS_DIR@)),
    {
        let url = match &env.url {
            Some(u) => u.clone(),
            None => return Err(owned("DATABASE_URL is not set")),
        };
        let max_connections: u32 = match number_or(&env.max_connections, "DATABASE_MAX_CONNECTIONS", 4294967295u64, 10u64) {
            Ok(n) => n as u32,
            Err(e) => return Err(e),
        };
        let connect_timeout_secs = match number_or(&env.connect_timeout_secs, "DATABASE_CONNECT_TIMEOUT_SECS", u64::MAX, DEFAULT_CONNECT_TIMEOUT_SECS) {
            Ok(n) => n,
            Err(e) => return Err(e),
        };
        let migrations_dir = text_or_default(&env.migrations_dir, DEFAULT_MIGRATIONS_DIR);
        Ok(DatabaseConfig { url, max_connections, connect_timeout_secs, migrations_dir })
    }
}

} // verus!
