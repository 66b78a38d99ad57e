use coo_service::common::strset::StrSet;
use coo_service::database::config::{DatabaseConfig, DatabaseEnv};
use coo_service::database::error::DatabaseError;
use coo_service::database::migrations::pending_migrations;
use coo_service::database::repo::group_by_pool;
use coo_service::resource::error::PoolError;
use coo_service::resource::ftp::{FtpPool, ListedFile, entry_of, listed_modified, listing_entries, parse_line, parse_line_from, trim_root, UTC_MAX_SECS, UTC_MIN_SECS};
use coo_service::resource::health::{HealthStatus, PoolHealth, ProbeOutcome};
use coo_service::resource::local::LocalPool;
use coo_service::resource::pool::ResourcePool;
use coo_service::resource::s3::{ListedObject, base_name, delete_batches, dir_prefix, push_page_entries};
use coo_service::resource::secret::{MasterKeySetting, decode_hex, decrypt_secret, encrypt_secret, parse_master_key};

const KEY_HEX: &str = "000102030405060708090a0b0c0d0e0f101112131415161718191a1b1c1d1e1f";

#[test]
fn sealed_secrets_open_with_their_key() {
    let setting = parse_master_key(Some(KEY_HEX));
    let key = setting.key().unwrap();
    let a = encrypt_secret(Some(key), "s3secret-key").unwrap();
    let b = encrypt_secret(Some(key), "s3secret-key").unwrap();
    assert!(a.starts_with("enc:v1:"));
    assert_ne!(a, b);
    assert_eq!(decrypt_secret(Some(key), &a), "s3secret-key");
    assert_eq!(decrypt_secret(Some(key), &b), "s3secret-key");
    assert_eq!(decrypt_secret(None, &a), a);
    assert_eq!(decrypt_secret(None, "enc:v1:abc"), "enc:v1:abc");
    let other = parse_master_key(Some(&"11".repeat(32)));
    assert_eq!(decrypt_secret(other.key(), &a), a["enc:v1:".len()..].to_string());
    assert_eq!(decrypt_secret(Some(key), "enc:v1:!!!"), "!!!");
    assert_eq!(decrypt_secret(Some(key), "plain"), "plain");
}

#[test]
fn master_key_settings() {
    assert!(matches!(parse_master_key(None), MasterKeySetting::NotSet));
    assert!(matches!(parse_master_key(Some("abcd")), MasterKeySetting::WrongLength));
    match parse_master_key(Some("abc")) {
        MasterKeySetting::Invalid(e) => assert_eq!(e, "odd hex length"),
        _ => panic!("expected Invalid"),
    }
    match parse_master_key(Some(&"AB".repeat(32))) {
        MasterKeySetting::Invalid(e) => assert_eq!(e, "invalid hex"),
        _ => panic!("expected Invalid"),
    }
    assert_eq!(decode_hex("00ff10").ok().unwrap(), vec![0u8, 255, 16]);
}

#[test]
fn health_rounds() {
    let mut h = PoolHealth::new(300, 10);
    assert!(h.needs_first_probe("p1"));
    let s = h.status_for(ProbeOutcome::TimedOut, 7);
    assert!(!s.up);
    assert_eq!(s.error.as_deref(), Some("probe timeout after 10s"));
    let zero = PoolHealth::new(300, 0).status_for(ProbeOutcome::TimedOut, 7);
    assert_eq!(zero.error.as_deref(), Some("probe timeout after 0ns"));
    h.record("p1".to_string(), h.status_for(ProbeOutcome::Listed, 8));
    h.mark_seen("p1".to_string());
    h.record("p2".to_string(), h.status_for(ProbeOutcome::Failed("refused".to_string()), 9));
    h.mark_seen("p2".to_string());
    assert!(!h.needs_first_probe("p1"));
    assert!(h.status("p1").unwrap().up);
    assert_eq!(h.status("p2").unwrap().error.as_deref(), Some("refused"));
    h.prune(&vec!["p1".to_string()]);
    assert!(h.status("p2").is_none());
    assert!(h.status("p1").is_some());
    h.deregister("p1");
    assert!(h.status("p1").is_none());
    assert!(h.needs_first_probe("p1"));
    let _ = HealthStatus { up: true, checked_at: 0, error: None };
}

#[test]
fn local_paths_stay_inside_the_root() {
    let local = LocalPool::new("/data/resource".to_string());
    assert_eq!(local.root(), "/data/resource");
    assert_eq!(local.resolve("/ab/cd").ok().unwrap(), "/data/resource/ab/cd");
    match local.resolve("ab/../../etc") {
        Err(PoolError::Config(m)) => assert_eq!(m, "path escapes pool root: ab/../../etc"),
        _ => panic!("expected a refusal"),
    }
    assert!(local.resolve("./x").is_err());
    assert_eq!(PoolError::Config("x".to_string()).to_text(), "invalid config: x");
}

#[test]
fn s3_prefixes_and_names() {
    assert_eq!(dir_prefix(""), "");
    assert_eq!(dir_prefix("/ab/"), "ab/");
    assert_eq!(base_name("ab/cd/"), "cd");
    assert_eq!(base_name("file"), "file");
    let keys: Vec<String> = (0..2500).map(|i| format!("k{i}")).collect();
    let batches = delete_batches(keys.clone());
    assert_eq!(batches.iter().map(|b| b.len()).collect::<Vec<usize>>(), vec![1000, 1000, 500]);
    assert_eq!(batches.concat(), keys);
}

#[test]
fn s3_listing_page() {
    let mut out = Vec::new();
    let objects = vec![
        ListedObject { key: "ab/".to_string(), size: 0, last_modified: "2024-01-01T00:00:00Z".to_string() },
        ListedObject { key: "ab/file".to_string(), size: 3, last_modified: "2024-01-01T00:00:01Z".to_string() },
    ];
    push_page_entries(&mut out, "ab/", &objects, &vec!["ab/cd/".to_string()]);
    assert_eq!(out.len(), 2);
    let file = out.iter().find(|e| !e.is_dir).unwrap();
    assert_eq!(file.name, "file");
    assert_eq!(file.size, 3);
    assert_eq!(file.modified, Some(1_704_067_201_000_000));
    let dir = out.iter().find(|e| e.is_dir).unwrap();
    assert_eq!(dir.name, "cd");
}

#[test]
fn ftp_paths() {
    let pool = FtpPool::new("/srv/pool/".to_string());
    assert_eq!(pool.full_path("ab/cd"), "/srv/pool/ab/cd");
    assert_eq!(FtpPool::new(String::new()).full_path(""), "/");
    assert_eq!(trim_root("//x/y"), "x/y");
    let e = entry_of("dir/", ListedFile { name: "f".to_string(), is_dir: false, size: 9, modified_secs: Some(60) });
    assert_eq!(e.path, "dir/f");
    assert_eq!(e.modified, Some(60_000_000));
    assert_eq!(listed_modified(Some(1)), Some(1_000_000));
}

#[test]
fn registry_keeps_registrations() {
    let mut r: ResourcePool<u32> = ResourcePool::new();
    r.register("a".to_string(), 1);
    r.register("b".to_string(), 2);
    r.register("a".to_string(), 3);
    assert_eq!(r.count(), 2);
    assert_eq!(*r.get("a").unwrap(), 3);
    assert_eq!(r.remove("b"), Some(2));
    assert_eq!(r.ids(), vec!["a".to_string()]);
    r.clear();
    assert_eq!(r.count(), 0);
}

#[test]
fn wanted_sets_by_pool() {
    let rows = vec![
        ("p1".to_string(), "x".to_string()),
        ("p2".to_string(), "y".to_string()),
        ("p1".to_string(), "z".to_string()),
        ("p1".to_string(), "x".to_string()),
    ];
    let m = group_by_pool(&rows);
    assert_eq!(m.len(), 2);
    let p1: &StrSet = m.get("p1").unwrap();
    assert_eq!(p1.len(), 2);
    assert!(p1.contains("z"));
}

#[test]
fn migrations_still_to_run() {
    let names = vec!["002_b.sql".to_string(), "001_a.sql".to_string(), "README".to_string(), "003_c.sql".to_string()];
    let applied = vec!["001_a.sql".to_string()];
    assert_eq!(pending_migrations(&names, &applied), vec!["002_b.sql".to_string(), "003_c.sql".to_string()]);
}

#[test]
fn database_settings_and_errors() {
    let env = DatabaseEnv { url: None, max_connections: None, connect_timeout_secs: None, migrations_dir: None };
    assert_eq!(DatabaseConfig::from_values(&env).err().unwrap(), "DATABASE_URL is not set");
    let env = DatabaseEnv { url: Some("postgres://x".to_string()), max_connections: None, connect_timeout_secs: None, migrations_dir: None };
    let c = DatabaseConfig::from_values(&env).ok().unwrap();
    assert_eq!((c.max_connections, c.connect_timeout_secs, c.migrations_dir.as_str()), (10, 5, "migrations"));
    let e = DatabaseError::from_driver(Some("23505"), "dup", "db: dup", "driver");
    assert!(e.is_constraint());
    let e = DatabaseError::from_driver(Some("42P01"), "missing", "db: missing", "driver");
    assert!(!e.is_constraint());
    let e = DatabaseError::from_driver(None, "", "", "driver down");
    assert!(matches!(e, DatabaseError::Connect(ref t) if t == "driver down"));
}

#[test]
fn ftp_listing_lines() {
    let dos = parse_line("04-08-14  03:09PM 403   readme.txt").unwrap();
    assert_eq!(dos.name, "readme.txt");
    assert_eq!(dos.size, 403);
    assert!(!dos.is_dir);
    assert_eq!(dos.modified_secs, Some(1_396_969_740));
    let lines = vec![
        "-rw-rw-r-- 1 0  1  8192 Nov 5 2018 omar.txt".to_string(),
        "10-19-20  03:19PM <DIR> pub".to_string(),
    ];
    let entries = listing_entries("/srv/pool/", lines).unwrap();
    assert_eq!(entries.len(), 2);
    assert_eq!(entries[0].path, "/srv/pool/omar.txt");
    assert_eq!(entries[0].size, 8192);
    assert_eq!(entries[0].modified, Some(1_541_376_000_000_000));
    assert_eq!(entries[1].name, "pub");
    assert!(entries[1].is_dir);
    assert_eq!(entries[1].path, "/srv/pool/pub");
    let bad = listing_entries("/", vec!["not a listing".to_string()]);
    assert!(matches!(bad, Err(PoolError::ListParse(_))));
    assert!(parse_line("not a listing").is_err());
}

#[test]
fn hex_round_trips() {
    let bytes: Vec<u8> = vec![0x0a, 0x1f, 0x00, 0xff, 0x80];
    let text = coo_service::router::auth::hex_encode(&bytes);
    assert_eq!(text, "0a1f00ff80");
    assert_eq!(decode_hex(&text).ok().unwrap(), bytes);
    assert_eq!(decode_hex("0a1f").ok().unwrap(), vec![0x0a, 0x1f]);
    assert_eq!(coo_service::router::auth::hex_encode(&decode_hex("beef").ok().unwrap()), "beef");
}

#[test]
fn posix_reading_wins_over_dos() {
    let posix = ListedFile { name: "p".to_string(), is_dir: true, size: 1, modified_secs: None };
    let dos_line = "04-08-14  03:09PM 403   readme.txt";
    let kept = parse_line_from(Ok(posix), dos_line).unwrap();
    assert_eq!(kept.name, "p");
    assert!(kept.is_dir);
    let fallback = parse_line_from(Err("no".to_string()), dos_line).unwrap();
    assert_eq!(fallback.name, "readme.txt");
    assert_eq!(fallback.size, 403);
    assert!(parse_line_from(Err("no".to_string()), "garbage").is_err());
}

#[test]
fn listed_times_within_chrono_range() {
    assert_eq!(listed_modified(Some(UTC_MAX_SECS as u64)), Some(UTC_MAX_SECS * 1_000_000));
    assert_eq!(listed_modified(Some((UTC_MAX_SECS + 1) as u64)), None);
    assert_eq!(listed_modified(Some(UTC_MIN_SECS as u64)), Some(UTC_MIN_SECS * 1_000_000));
    assert_eq!(listed_modified(Some((UTC_MIN_SECS - 1) as u64)), None);
    assert_eq!(listed_modified(None), None);
}
