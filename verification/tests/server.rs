use coo_service::apps::channel::{Channel, Diff, Update};
use coo_service::apps::error::AppError as DomainError;
use coo_service::apps::manager::AppManager;
use coo_service::common::json::{JsonConfig, JsonField};
use coo_service::common::strset::StrSet;
use coo_service::database::error::DatabaseError;
use coo_service::database::repo::AppRow;
use coo_service::resource::pool::Entry;
use coo_service::router::auth::{check_admin_key, constant_time_eq, generate_admin_key, hex_encode};
use coo_service::router::cache::{CACHE_CAPACITY, PublicCache};
use coo_service::router::config::{ServerConfig, ServerEnv, parse_origins, truthy};
use coo_service::router::error::AppError;
use coo_service::router::extract::AppId;
use coo_service::router::pool_sync::{PoolSync, PoolSyncStatus, collect_found, collect_sha};
use coo_service::router::ratelimit::{RateLimiter, client_address, forwarded_client};
use coo_service::router::response::{Envelope, route_not_found, with_status};
use coo_service::router::routes::app::{channel_views, parse_channel_guid, require_app, update_view};

const APP: u128 = 0x0123_4567_89ab_4def_8123_4567_89ab_cdef;

fn env() -> ServerEnv {
    ServerEnv {
        bind_addr: None,
        request_timeout_secs: None,
        local_resource_dir: None,
        pool_health_interval_secs: None,
        pool_health_timeout_secs: None,
        max_upload_bytes: None,
        public_rate_limit: None,
        trust_x_forwarded_for: None,
        admin_key: None,
        cors_allowed_origins: None,
    }
}

#[test]
fn envelopes_carry_the_status() {
    let e = Envelope::ok(5u32);
    assert_eq!((e.code, e.message.as_str(), e.data), (200, "ok", Some(5)));
    assert!(!e.timestamp.is_empty());
    let c = with_status(201, "x");
    assert_eq!((c.code, c.message.as_str()), (201, "Created"));
    assert_eq!(with_status(202, ()).message, "Accepted");
    assert_eq!(with_status(299, ()).message, "ok");
    let n = route_not_found();
    assert_eq!((n.code, n.message.as_str(), n.data.is_none()), (404, "route not found", true));
    let m = Envelope::message(409, "taken".to_string());
    assert!(m.data.is_none());
}

#[test]
fn app_id_header() {
    assert_eq!(AppId::from_header(Some("01234567-89ab-4def-8123-456789abcdef")).ok().unwrap().0, APP);
    assert_eq!(AppId::from_header(None).err().unwrap().to_text(), "bad request: missing X-App-Id header");
    assert_eq!(AppId::from_header(Some("nope")).err().unwrap().to_text(), "bad request: invalid X-App-Id header: nope");
}

#[test]
fn errors_map_to_statuses_and_hide_server_faults() {
    let cases = vec![
        (AppError::BadRequest("a".to_string()), 400),
        (AppError::Unauthorized("a".to_string()), 401),
        (AppError::Forbidden("a".to_string()), 403),
        (AppError::NotFound("a".to_string()), 404),
        (AppError::Conflict("a".to_string()), 409),
        (AppError::PayloadTooLarge, 413),
        (AppError::Internal("secret path".to_string()), 500),
        (AppError::BadGateway("a".to_string()), 502),
        (AppError::ServiceUnavailable("a".to_string()), 503),
    ];
    for (e, code) in cases {
        assert_eq!(e.status(), code);
        if code >= 500 {
            assert_eq!(e.client_message(), "internal error");
        } else {
            assert_eq!(e.client_message(), e.to_text());
        }
    }
    assert_eq!(AppError::NotFound("x".to_string()).to_text(), "not found: x");
    let c = AppError::from_database(DatabaseError::Constraint { code: "23503".to_string(), message: "fk".to_string() });
    assert_eq!(c.status(), 409);
    assert_eq!(AppError::from_database(DatabaseError::Pool("p".to_string())).status(), 500);
    let wrapped = DomainError::Database(DatabaseError::Constraint { code: "23505".to_string(), message: "dup".to_string() });
    assert_eq!(AppError::from_domain(wrapped).status(), 409);
    assert_eq!(AppError::from_domain(DomainError::Database(DatabaseError::Pool("p".to_string()))).status(), 500);
    assert_eq!(AppError::from_domain(DomainError::AlreadyExists("a".to_string())).status(), 409);
}

#[test]
fn admin_key_checks() {
    assert!(constant_time_eq(b"abc", b"abc"));
    assert!(!constant_time_eq(b"abc", b"abd"));
    assert!(!constant_time_eq(b"abc", b"ab"));
    assert!(check_admin_key(Some("k1"), "k1").is_ok());
    assert_eq!(check_admin_key(Some("k2"), "k1").err().unwrap().to_text(), "unauthorized: invalid admin key");
    assert_eq!(check_admin_key(None, "k1").err().unwrap().to_text(), "unauthorized: missing x-admin-key header");
    assert_eq!(hex_encode(&[0x0f, 0xa0]), "0fa0");
    let k = generate_admin_key().unwrap();
    assert_eq!(k.len(), 128);
    assert!(k.chars().all(|c| c.is_ascii_hexdigit() && !c.is_ascii_uppercase()));
    assert_ne!(k, generate_admin_key().unwrap());
}

#[test]
fn server_settings() {
    let c = ServerConfig::from_values(&env()).ok().unwrap();
    assert_eq!(c.bind_addr, "127.0.0.1:8081");
    assert_eq!((c.request_timeout_secs, c.pool_health_interval_secs, c.pool_health_timeout_secs), (30, 300, 10));
    assert_eq!(c.max_upload_bytes, 2 * 1024 * 1024 * 1024);
    assert_eq!(c.public_rate_limit, 120);
    assert_eq!(c.admin_key.len(), 128);
    let mut e = env();
    e.admin_key = Some("fixed".to_string());
    e.cors_allowed_origins = Some(" https://a , ,https://b".to_string());
    e.trust_x_forwarded_for = Some("TRUE".to_string());
    let c = ServerConfig::from_values(&e).ok().unwrap();
    assert_eq!(c.admin_key, "fixed");
    assert_eq!(c.cors_allowed_origins, vec!["https://a".to_string(), "https://b".to_string()]);
    assert!(c.trust_x_forwarded_for);
    let mut e = env();
    e.request_timeout_secs = Some("soon".to_string());
    assert!(ServerConfig::from_values(&e).err().unwrap().starts_with("invalid REQUEST_TIMEOUT_SECS"));
    assert!(truthy("1") && truthy("True") && !truthy("yes"));
    assert!(parse_origins("").is_empty());
}

#[test]
fn sync_push_rounds() {
    let mut s = PoolSync::new();
    assert!(s.try_start_scan());
    assert!(!s.try_start_scan());
    s.finish_scan();
    let mut wanted = StrSet::new();
    wanted.insert("cc".to_string());
    wanted.insert("aa".to_string());
    wanted.insert("bb".to_string());
    let mut actual = StrSet::new();
    actual.insert("bb".to_string());
    let missing = s.begin_push("p1", Some(&wanted), &actual);
    assert_eq!(missing, vec!["aa".to_string(), "cc".to_string()]);
    let info = s.status("p1").unwrap();
    assert!(info.status == PoolSyncStatus::Syncing);
    assert_eq!(info.pending, 2);
    s.push_succeeded("p1", "aa");
    assert!(s.known_objects("p1").unwrap().contains("aa"));
    let info = s.finish_push("p1", 2, 1);
    assert_eq!(info.pending, 1);
    assert_eq!(s.finish_push("p1", 2, 2).status.as_str(), "synced");
    assert!(s.begin_push("p2", None, &actual).is_empty());
    assert!(s.status("p2").is_none());
    let failed = s.scan_failed("p3", "down".to_string(), 9);
    assert_eq!(failed.status.as_str(), "error");
    let partial = s.scan_succeeded("p4", 10, 2);
    assert!(partial.status == PoolSyncStatus::Syncing);
    assert_eq!(partial.pending, 2);
    assert_eq!(partial.scanned_at, Some(10));
    let done = s.scan_succeeded("p4", 11, 0);
    assert!(done.status == PoolSyncStatus::Synced);
    assert_eq!(s.status("p4").unwrap().scanned_at, Some(11));
}

#[test]
fn objects_found_in_a_listing() {
    let sha = "ab".repeat(32);
    let mut found = StrSet::new();
    collect_sha(&mut found, &format!("ab/{}", &sha[2..]));
    collect_sha(&mut found, "notes.txt");
    assert_eq!(found.to_vec(), vec![sha.clone()]);
    let entry = |name: &str, dir: bool| Entry { name: name.to_string(), path: name.to_string(), is_dir: dir, size: 0, modified: None };
    let root = vec![entry("ab", true), entry("zz", true), entry(&"cd".repeat(32), false)];
    let listings = vec![vec![entry(&sha, false), entry("sub", true)]];
    let all = collect_found(&root, &listings);
    assert_eq!(all.len(), 2);
    assert!(all.contains(&sha));
}

#[test]
fn forwarded_addresses() {
    assert_eq!(forwarded_client(" 10.0.0.1 , 10.0.0.2"), "10.0.0.1");
    assert_eq!(forwarded_client("::1"), "::1");
    let mut l = RateLimiter::new(1);
    assert!(l.check("a", 0));
    assert!(!l.check("a", 10));
    assert!(l.check("b", 10));
}

#[test]
fn cache_drops_its_oldest_when_full() {
    let mut c = PublicCache::new(1_000);
    for i in 0..CACHE_CAPACITY {
        c.insert(format!("k{i}"), i.to_string(), 10 + i as u64);
    }
    assert_eq!(c.len(), CACHE_CAPACITY);
    c.insert("new".to_string(), "0".to_string(), 5_000);
    assert_eq!(c.len(), CACHE_CAPACITY);
    assert!(c.get("k0", 10).is_none());
    assert_eq!(c.get("k1", 11), Some("1".to_string()));
    assert_eq!(c.get("new", 5_500), Some("0".to_string()));
    assert!(c.get("new", 6_000).is_none());
}

#[test]
fn client_channel_views() {
    let ch = Channel {
        guid: 9,
        tag_name: "stable".to_string(),
        latest_version: "2.0".to_string(),
        raw_sha256: "ab".repeat(32),
        raw_size: 12,
        is_default: true,
    };
    let views = channel_views(vec![ch]);
    assert_eq!(views[0].latest_version, "2.0");
    assert_eq!(parse_channel_guid("01234567-89ab-4def-8123-456789abcdef").ok().unwrap(), APP);
    assert_eq!(parse_channel_guid("x").err().unwrap().to_text(), "bad request: invalid channel guid: x");
    assert_eq!(update_view(APP, None).err().unwrap().to_text(), "not found: channel 01234567-89ab-4def-8123-456789abcdef");
    let u = Update {
        channel: Channel {
            guid: 1,
            tag_name: "t".to_string(),
            latest_version: "3".to_string(),
            raw_sha256: "cd".repeat(32),
            raw_size: 7,
            is_default: false,
        },
        diffs: vec![Diff { base_sha256: "ab".repeat(32), patch_sha256: "ef".repeat(32), algo: None, size: 3 }],
    };
    let v = update_view(1, Some(u)).ok().unwrap();
    assert_eq!((v.version.as_str(), v.raw_size, v.diffs.len()), ("3", 7, 1));
    let apps = AppManager::from_rows(vec![AppRow { id: APP, name: "a".to_string(), enabled: true }]);
    assert!(require_app(&apps, APP).is_ok());
    assert_eq!(require_app(&apps, 5).err().unwrap().to_text(), "not found: 00000000-0000-0000-0000-000000000005");
}

#[test]
fn json_members() {
    let c = JsonConfig {
        members: Some(vec![
            ("port".to_string(), JsonField::Number(Some(2121))),
            ("neg".to_string(), JsonField::Number(None)),
            ("flag".to_string(), JsonField::Bool(true)),
            ("name".to_string(), JsonField::Str("n".to_string())),
        ]),
    };
    assert_eq!(c.number("port"), 2121);
    assert_eq!(c.number("neg"), 0);
    assert_eq!(c.number("name"), 0);
    assert!(c.bool_of("flag"));
    assert!(!c.bool_of("port"));
    assert_eq!(c.string("name"), "n");
    assert_eq!(c.string("missing"), "");
    assert!(JsonConfig { members: None }.get("port").is_none());
}

#[test]
fn client_address_order() {
    let peer = Some("10.0.0.9".to_string());
    let fwd = Some("1.2.3.4".to_string());
    assert_eq!(client_address(false, peer.clone(), fwd.clone()), peer);
    assert_eq!(client_address(true, peer.clone(), fwd.clone()), fwd);
    assert_eq!(client_address(true, peer.clone(), None), peer);
    assert_eq!(client_address(false, None, fwd.clone()), fwd);
    assert_eq!(client_address(false, None, None), None);
}
