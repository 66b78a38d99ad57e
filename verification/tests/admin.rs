use coo_service::resource::digest::ContentHasher;
use coo_service::common::json::{JsonConfig, JsonField};
use coo_service::database::error::DatabaseError;
use coo_service::database::repo::{AnnounceRow, ChannelRow, PoolResourceRow, PoolRow, PoolStats, ResourceRow};
use coo_service::resource::health::{HealthStatus, PoolHealth};
use coo_service::resource::pool::ResourcePool;
use coo_service::router::error::AppError;
use coo_service::router::pool_sync::PoolSync;
use coo_service::router::pools::{PoolPlan, connect_plan};
use coo_service::router::routes::admin::announces::{AnnounceView, found_at, validate_period, visibility};
use coo_service::router::routes::admin::channels::{CreateDiffRequest, filter_channels, validate_diff};
use coo_service::router::routes::admin::pools::{
    CreatePoolRequest, UpdatePoolRequest, added_view, admit_resource, check_create, check_modify, compose,
    effective_config, forget_pool, push_failed, scan_view, validate_config, validate_kind, validate_public_endpoint,
};
use coo_service::router::routes::admin::resources::{
    ListParams, deletion_outcome, display_name, filter_resources, read_failure, stored_size, upload_status, uploaded_sha,
};
use coo_service::router::routes::admin::{parse_app_filter, reload_failure, reload_message, normalized_sha256};
use coo_service::router::state::PoolMetaMap;

fn text(e: AppError) -> String {
    e.to_text()
}

fn config(members: Vec<(&str, JsonField)>) -> JsonConfig {
    JsonConfig { members: Some(members.into_iter().map(|(k, v)| (k.to_string(), v)).collect()) }
}

fn pool_row(kind: &str, cfg: JsonConfig) -> PoolRow {
    PoolRow {
        id: "p1".to_string(),
        kind: kind.to_string(),
        endpoint: "files.example.com".to_string(),
        public_endpoint: "https://cdn.example.com".to_string(),
        secret: "pw".to_string(),
        config: cfg,
        is_public: true,
    }
}

#[test]
fn reload_answers() {
    assert_eq!(reload_message(3, 12), "reloaded 3 apps, 12 pools");
    assert_eq!(text(reload_failure("apps", "boom")), "internal error: reload apps failed: boom");
}

#[test]
fn app_filter_parses_uuids() {
    assert_eq!(parse_app_filter(None).ok().unwrap(), None);
    assert_eq!(
        parse_app_filter(Some("01234567-89ab-4def-8123-456789abcdef")).ok().unwrap(),
        Some(0x0123_4567_89ab_4def_8123_4567_89ab_cdef)
    );
    assert!(text(parse_app_filter(Some("nope")).err().unwrap()).starts_with("bad request: invalid app_id: "));
}

#[test]
fn sha256_is_folded_in_requests() {
    assert_eq!(normalized_sha256(&format!(" {} ", "AB".repeat(32))).ok().unwrap(), "ab".repeat(32));
    assert_eq!(text(normalized_sha256("x").err().unwrap()), "bad request: invalid sha256 \"x\", expected 64 hex chars");
}

#[test]
fn pool_kinds() {
    assert!(validate_kind("s3").is_ok());
    assert!(validate_kind("ftp").is_ok());
    assert_eq!(text(validate_kind("nfs").err().unwrap()), "bad request: invalid pool kind \"nfs\", expected s3 or ftp");
}

#[test]
fn public_endpoints() {
    assert!(validate_public_endpoint("", false).is_ok());
    assert!(validate_public_endpoint("https://x", true).is_ok());
    assert_eq!(text(validate_public_endpoint("", true).err().unwrap()), "bad request: is_public requires a non-empty public_endpoint");
    assert_eq!(text(validate_public_endpoint("ftp://x", false).err().unwrap()), "bad request: public_endpoint must start with http:// or https://");
}

#[test]
fn s3_config_rules() {
    let good = config(vec![
        ("bucket", JsonField::Str("b".to_string())),
        ("region", JsonField::Str("r".to_string())),
        ("access_key", JsonField::Str("a".to_string())),
    ]);
    assert!(validate_config("s3", &good).is_ok());
    let no_region = config(vec![("bucket", JsonField::Str("b".to_string())), ("region", JsonField::Str(String::new()))]);
    assert_eq!(text(validate_config("s3", &no_region).err().unwrap()), "bad request: s3 pool requires config.region");
    let bad_style = config(vec![
        ("bucket", JsonField::Str("b".to_string())),
        ("region", JsonField::Str("r".to_string())),
        ("access_key", JsonField::Str("a".to_string())),
        ("path_style", JsonField::Str("yes".to_string())),
    ]);
    assert_eq!(text(validate_config("s3", &bad_style).err().unwrap()), "bad request: s3 pool config.path_style must be a boolean");
    assert_eq!(text(validate_config("s3", &JsonConfig { members: None }).err().unwrap()), "bad request: config must be a JSON object");
}

#[test]
fn ftp_config_rules() {
    assert_eq!(text(validate_config("ftp", &config(vec![])).err().unwrap()), "bad request: ftp pool requires config.user");
    let bad_port = config(vec![("user", JsonField::Str("u".to_string())), ("port", JsonField::Str("21".to_string()))]);
    assert_eq!(text(validate_config("ftp", &bad_port).err().unwrap()), "bad request: ftp pool config.port must be a number");
    let good = config(vec![("user", JsonField::Str("u".to_string())), ("port", JsonField::Number(None))]);
    assert!(validate_config("ftp", &good).is_ok());
}

#[test]
fn create_checks_in_order() {
    let body = CreatePoolRequest {
        id: "p1".to_string(),
        kind: "ftp".to_string(),
        endpoint: "h".to_string(),
        public_endpoint: "nope".to_string(),
        secret: "pw".to_string(),
        config: None,
        is_public: false,
    };
    let cfg = effective_config(None);
    assert!(cfg.is_object());
    assert_eq!(text(check_create(&body, &cfg).err().unwrap()), "bad request: ftp pool requires config.user");
    let cfg = config(vec![("user", JsonField::Str("u".to_string()))]);
    assert_eq!(text(check_create(&body, &cfg).err().unwrap()), "bad request: public_endpoint must start with http:// or https://");
}

#[test]
fn modify_checks_the_effective_settings() {
    let row = pool_row("ftp", config(vec![("user", JsonField::Str("u".to_string()))]));
    let keep = UpdatePoolRequest { endpoint: None, public_endpoint: None, secret: None, config: None, is_public: None };
    assert!(check_modify(&row, &keep).is_ok());
    let clear = UpdatePoolRequest { endpoint: None, public_endpoint: Some(String::new()), secret: None, config: None, is_public: None };
    assert_eq!(text(check_modify(&row, &clear).err().unwrap()), "bad request: is_public requires a non-empty public_endpoint");
    let bad_cfg = UpdatePoolRequest { endpoint: None, public_endpoint: None, secret: None, config: Some(config(vec![])), is_public: None };
    assert_eq!(text(check_modify(&row, &bad_cfg).err().unwrap()), "bad request: ftp pool requires config.user");
}

#[test]
fn connect_plans() {
    let ftp = pool_row("ftp", config(vec![
        ("user", JsonField::Str("u".to_string())),
        ("root", JsonField::Str("/srv".to_string())),
        ("port", JsonField::Number(Some(70000))),
    ]));
    match connect_plan(&ftp, None) {
        PoolPlan::Ftp(c) => {
            assert_eq!(c.port, 21);
            assert_eq!(c.user, "u");
            assert_eq!(c.root, "/srv");
            assert_eq!(c.password, "pw");
            assert_eq!(c.host, "files.example.com");
        },
        _ => panic!("expected an FTP plan"),
    }
    let s3 = pool_row("s3", config(vec![("bucket", JsonField::Str("b".to_string())), ("path_style", JsonField::Bool(true))]));
    match connect_plan(&s3, None) {
        PoolPlan::S3(c) => {
            assert_eq!(c.bucket, "b");
            assert_eq!(c.region, "");
            assert!(c.path_style);
            assert_eq!(c.secret_key, "pw");
        },
        _ => panic!("expected an S3 plan"),
    }
    assert!(matches!(connect_plan(&pool_row("nfs", config(vec![])), None), PoolPlan::Unknown));
}

#[test]
fn pool_view_composition() {
    let mut registry: ResourcePool<u8> = ResourcePool::new();
    registry.register("p1".to_string(), 0);
    let mut health = PoolHealth::new(300, 10);
    health.record("p1".to_string(), HealthStatus { up: true, checked_at: 42, error: None });
    let sync = PoolSync::new();
    let stats = PoolStats { object_count: 3, total_size: 30, last_write_at: Some(9) };
    let v = compose(pool_row("ftp", config(vec![])), "cfg", &registry, &health, &sync, Some(&stats));
    assert!(v.connected && v.up);
    assert_eq!(v.health_checked_at, Some(42));
    assert_eq!(v.sync_status, "unknown");
    assert_eq!(v.object_count, 3);
    assert_eq!(v.config, "cfg");
    let v = compose(pool_row("ftp", config(vec![])), (), &ResourcePool::<u8>::new(), &health, &sync, None);
    assert!(!v.connected && !v.up);
    assert_eq!(v.total_size, 0);
}

#[test]
fn forgetting_a_pool_clears_every_table() {
    let mut registry: ResourcePool<u8> = ResourcePool::new();
    registry.register("p1".to_string(), 0);
    let mut metas = PoolMetaMap::new();
    metas.record(&pool_row("ftp", config(vec![])));
    let mut health = PoolHealth::new(300, 10);
    health.record("p1".to_string(), HealthStatus { up: true, checked_at: 1, error: None });
    let mut sync = PoolSync::new();
    sync.record_write("p1", &"ab".repeat(32));
    let _ = sync.scan_succeeded("p1", 5, 0);
    assert_eq!(scan_view(&registry, &sync), vec![("p1".to_string(), "synced".to_string())]);
    forget_pool("p1", &mut registry, &mut metas, &mut health, &mut sync);
    assert_eq!(registry.count(), 0);
    assert!(metas.get("p1").is_none());
    assert!(health.status("p1").is_none());
    assert!(sync.status("p1").is_none());
    assert!(sync.known_objects("p1").is_none());
}

#[test]
fn admitting_a_resource_into_a_pool() {
    let mut registry: ResourcePool<u8> = ResourcePool::new();
    registry.register("p1".to_string(), 0);
    let sha = "ab".repeat(32);
    let row = |pools: Vec<&str>| ResourceRow { sha256: sha.clone(), size: 1, name: None, created_at: 0, pools: pools.into_iter().map(String::from).collect() };
    assert!(admit_resource("p1", &sha, Some(row(vec!["p2"])), &registry).is_ok());
    assert_eq!(text(admit_resource("p1", &sha, None, &registry).err().unwrap()), format!("bad request: resource {sha} does not exist"));
    assert_eq!(text(admit_resource("p1", &sha, Some(row(vec!["p1"])), &registry).err().unwrap()), format!("conflict: resource {sha} already in pool p1"));
    assert_eq!(text(admit_resource("p9", &sha, Some(row(vec![])), &registry).err().unwrap()), "bad request: pool \"p9\" not connected");
    assert_eq!(text(push_failed("p1", "timeout")), "bad gateway: push to pool \"p1\" failed: timeout");
}

#[test]
fn the_added_row_is_found_by_sha() {
    let rows = vec![
        PoolResourceRow { sha256: "aa".to_string(), name: None, size: 1, added_at: 1 },
        PoolResourceRow { sha256: "bb".to_string(), name: Some("n".to_string()), size: 2, added_at: 2 },
    ];
    let v = added_view("bb", rows).ok().unwrap();
    assert_eq!(v.name.as_deref(), Some("n"));
    assert_eq!(text(added_view("cc", vec![]).err().unwrap()), "internal error: location just inserted");
}

#[test]
fn announcement_visibility() {
    assert_eq!(visibility(None, None, 5), "permanent");
    assert_eq!(visibility(Some(10), None, 5), "scheduled");
    assert_eq!(visibility(Some(10), Some(20), 10), "active");
    assert_eq!(visibility(Some(10), Some(20), 20), "expired");
    assert_eq!(visibility(None, Some(20), 19), "active");
    assert!(validate_period(Some(10), Some(20)).is_ok());
    assert!(validate_period(None, Some(20)).is_ok());
    assert_eq!(text(validate_period(Some(20), Some(20)).err().unwrap()), "bad request: expires_at must be after starts_at");
}

#[test]
fn announcement_views() {
    let row = AnnounceRow {
        guid: 1,
        title: "t".to_string(),
        content: "c".to_string(),
        starts_at: Some(100),
        expires_at: None,
        created_at: 1,
        updated_at: 2,
        ref_apps: vec!["alpha".to_string()],
    };
    let v: AnnounceView = found_at(1, Some(row), 50).ok().unwrap();
    assert_eq!(v.status, "scheduled");
    assert_eq!(v.ref_apps, vec!["alpha".to_string()]);
    assert_eq!(text(found_at(1, None, 0).err().unwrap()), "not found: 00000000-0000-0000-0000-000000000001");
}

#[test]
fn channel_listing_filter() {
    let row = |guid: u128, app: u128| ChannelRow {
        guid,
        app_id: app,
        tag_name: "t".to_string(),
        latest_version: "1".to_string(),
        raw_sha256: "ab".repeat(32),
        raw_size: 5,
        is_default: false,
    };
    let all = filter_channels(vec![row(1, 10), row(2, 20), row(3, 10)], None);
    assert_eq!(all.len(), 3);
    let some = filter_channels(vec![row(1, 10), row(2, 20), row(3, 10)], Some(10));
    assert_eq!(some.iter().map(|c| c.guid).collect::<Vec<u128>>(), vec![1, 3]);
}

#[test]
fn diff_requests() {
    let body = |b: &str, p: &str| CreateDiffRequest { base_sha256: b.to_string(), patch_sha256: p.to_string(), algo: None, size: 0 };
    assert!(validate_diff(&body(&"ab".repeat(32), &"cd".repeat(32))).is_ok());
    assert_eq!(text(validate_diff(&body("x", &"cd".repeat(32))).err().unwrap()), "bad request: invalid sha256 \"x\", expected 64 hex chars");
    assert_eq!(text(validate_diff(&body(&"ab".repeat(32), "y")).err().unwrap()), "bad request: invalid sha256 \"y\", expected 64 hex chars");
    assert_eq!(text(validate_diff(&body(&"ab".repeat(32), &"ab".repeat(32))).err().unwrap()), "bad request: base_sha256 与 patch_sha256 不能相同");
}

#[test]
fn resource_listing_filter() {
    let row = |sha: String, pools: Vec<&str>| ResourceRow { sha256: sha, size: 1, name: None, created_at: 0, pools: pools.into_iter().map(String::from).collect() };
    let rows = || vec![row("ab".repeat(32), vec!["p1"]), row("cd".repeat(32), vec!["p2"])];
    let none = ListParams { pool: None, sha256: None };
    assert_eq!(filter_resources(rows(), &none).len(), 2);
    let by_pool = ListParams { pool: Some("p2".to_string()), sha256: None };
    assert_eq!(filter_resources(rows(), &by_pool)[0].sha256, "cd".repeat(32));
    let by_sha = ListParams { pool: None, sha256: Some(format!(" {} ", "AB".repeat(32))) };
    let found = filter_resources(rows(), &by_sha);
    assert_eq!(found.len(), 1);
    assert_eq!(found[0].sha256, "ab".repeat(32));
    let invalid = ListParams { pool: None, sha256: Some("zz".to_string()) };
    assert_eq!(filter_resources(rows(), &invalid).len(), 2);
}

#[test]
fn upload_helpers() {
    let mut hasher = ContentHasher::new();
    hasher.absorb(b"a");
    hasher.absorb(b"bc");
    let (sha, key) = uploaded_sha(hasher);
    assert_eq!(sha, "ba7816bf8f01cfea414140de5dae2223b00361a396177a9cb410ff61f20015ad");
    assert_eq!(key, "ba/7816bf8f01cfea414140de5dae2223b00361a396177a9cb410ff61f20015ad");
    let (empty, _) = uploaded_sha(ContentHasher::new());
    assert_eq!(empty, "e3b0c44298fc1c149afbf4c8996fb92427ae41e4649b934ca495991b7852b855");
    assert_eq!(upload_status(true), 200);
    assert_eq!(upload_status(false), 201);
    assert_eq!(stored_size(7).ok().unwrap(), 7);
    assert_eq!(text(stored_size(u64::MAX).err().unwrap()), "internal error: file too large");
    assert!(matches!(read_failure(true, "x"), AppError::PayloadTooLarge));
    assert_eq!(read_failure(true, "x").status(), 413);
    assert_eq!(text(read_failure(false, "reset")), "bad request: upload body read failed: reset");
    assert_eq!(display_name(Some("  build  ")), Some("build".to_string()));
    assert_eq!(display_name(Some("   ")), None);
    assert_eq!(display_name(None), None);
}

#[test]
fn deleting_a_referenced_resource_is_a_conflict() {
    let sha = "ab".repeat(32);
    assert!(deletion_outcome(&sha, Ok(true)).is_ok());
    assert_eq!(text(deletion_outcome(&sha, Ok(false)).err().unwrap()), format!("not found: {sha}"));
    let fk = DatabaseError::Constraint { code: "23503".to_string(), message: "fk".to_string() };
    assert_eq!(text(deletion_outcome(&sha, Err(fk)).err().unwrap()), format!("conflict: resource {sha} is referenced by an app or channel"));
    assert_eq!(deletion_outcome(&sha, Err(DatabaseError::Pool("gone".to_string()))).err().unwrap().status(), 500);
}

#[test]
fn active_exactly_within_the_window() {
    for now in [0i64, 1, 2, 3, 4] {
        let inside = 1 <= now && now < 3;
        assert_eq!(visibility(Some(1), Some(3), now) == "active", inside);
    }
}

#[test]
fn new_ids_are_random_v4() {
    assert_eq!(coo_service::router::routes::admin::apps::new_app_id(Some(7)).ok().unwrap(), 7);
    let a = coo_service::router::routes::admin::apps::new_app_id(None).ok().unwrap();
    let b = coo_service::router::routes::admin::fresh_guid().ok().unwrap();
    assert_ne!(a, b);
    for id in [a, b] {
        assert_eq!((id >> 76) & 0xf, 4);
        assert_eq!((id >> 62) & 0x3, 2);
    }
}
