//! Building pool connections from `resource_pool` rows. `endpoint` is the S3 endpoint
//! URL or the FTP host name (no port); `secret` the S3 secret key or the FTP password;
//! `config` holds `bucket` / `region` / `access_key` / `path_style` for S3 and `user` /
//! `root` / `port` for FTP. The connecting itself happens around these functions.
use vstd::prelude::*;
use crate::common::json::{bool_value, number_value, string_value};
use crate::common::text::str_eq;
use crate::database::repo::PoolRow;
use crate::resource::ftp::FtpConfig;
use crate::resource::s3::S3Config;
use crate::resource::secret::{MasterKey, decrypt_secret, key_view, opened_form};

verus! {

/// The FTP port used when `config.port` does not fit in 16 bits (a missing or non-numeric
/// `port` reads as 0, as every absent number does).
pub const DEFAULT_FTP_PORT: u16 = 21;

/// How to connect the pool of a row.
pub enum PoolPlan {
    S3(S3Config),
    Ftp(FtpConfig),
    /// A kind this server does not know; the row is skipped.
    Unknown,
}

/// The FTP port a row's config gives.
pub open spec fn ftp_port(row: PoolRow) -> u16 {
    let n = number_value(row.config, "port"@);
    if n <= u16::MAX {
        n as u16
    } else {
        DEFAULT_FTP_PORT
    }
}

/// An FTP pool connects to the port its configuration gives whenever that number fits in
/// 16 bits, whatever its size; the default port only stands in for a number that does
/// not fit.
pub proof fn law_ftp_port_is_configured(row: PoolRow)
    ensures
        number_value(row.config, "port"@) <= 65535 ==> ftp_port(row) as int == number_value(
            row.config,
            "port"@,
        ) as int,
        number_value(row.config, "port"@) > 65535 ==> ftp_port(row) == 21,
{
}

/// `c` is the S3 configuration of `row`, its secret opened with `key`.
pub open spec fn s3_config_of(c: S3Config, row: PoolRow, key: Option<Seq<u8>>) -> bool {
    &&& c.endpoint@ == row.endpoint@
    &&& c.region@ == string_value(row.config, "region"@)
    &&& c.bucket@ == string_value(row.config, "bucket"@)
    &&& c.access_key@ == string_value(row.config, "access_key"@)
    &&& c.secret_key@ == opened_form(key, row.secret@)
    &&& c.path_style == bool_value(row.config, "path_style"@)
}

/// `c` is the FTP configuration of `row`, its password opened with `key`.
pub open spec fn ftp_config_of(c: FtpConfig, row: PoolRow, key: Option<Seq<u8>>) -> bool {
    &&& c.host@ == row.endpoint@
    &&& c.port == ftp_port(row)
    &&& c.user@ == string_value(row.config, "user"@)
    &&& c.password@ == opened_form(key, row.secret@)
    &&& c.root@ == string_value(row.config, "root"@)
}

/// The connection plan for a pool row: `s3` and `ftp` rows get their settings, with the
/// stored secret opened by the master key; any other kind is skipped.
pub fn connect_plan(row: &PoolRow, key: Option<&MasterKey>) -> (p: PoolPlan)
    ensures
        row.kind@ == "s3"@ ==> (p matches PoolPlan::S3(c) && s3_config_of(c, *row, key_view(key))),
        row.kind@ == "ftp"@ ==> (p matches PoolPlan::Ftp(c) && ftp_config_of(c, *row, key_view(key))),
        row.kind@ != "s3"@ && row.kind@ != "ftp"@ ==> p is Unknown,
{
    proof {
        reveal_strlit("s3");
        reveal_strlit("ftp");
        assert("s3"@.len() != "ftp"@.len());
    }
    if str_eq(row.kind.as_str(), "s3") {
        PoolPlan::S3(S3Config {
            endpoint: row.endpoint.clone(),
            region: row.config.string("region"),
            bucket: row.config.string("bucket"),
            access_key: row.config.string("access_key"),
            secret_key: decrypt_secret(key, row.secret.as_str()),
            path_style: row.config.bool_of("path_style"),
        })
    } else if str_eq(row.kind.as_str(), "ftp") {
        let n = row.config.number("port");
        let port: u16 = if n <= 65535 {
            n as u16
        } else {
            DEFAULT_FTP_PORT
        };
        let c = FtpConfig {
            host: row.endpoint.clone(),
            port,
            user: row.config.string("user"),
            password: decrypt_secret(key, row.secret.as_str()),
            root: row.config.string("root"),
        };
        PoolPlan::Ftp(c)
    } else {
        PoolPlan::Unknown
    }
}

} // verus!
