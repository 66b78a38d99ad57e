use coo_service::database::repo::ResourceRow;
use coo_service::resource::health::{HealthStatus, PoolHealth};
use coo_service::resource::pool::ResourcePool;
use coo_service::router::error::AppError;
use coo_service::router::routes::resources::{fetch, fetch_key, fetch_with, pick};
use coo_service::router::state::{PoolMeta, PoolMetaMap};

fn sha() -> String {
    "ab".repeat(32)
}

fn resource(pools: &[&str]) -> ResourceRow {
    ResourceRow {
        sha256: sha(),
        size: 10,
        name: None,
        created_at: 0,
        pools: pools.iter().map(|p| p.to_string()).collect(),
    }
}

fn up(h: &mut PoolHealth, id: &str, up: bool) {
    h.record(id.to_string(), HealthStatus { up, checked_at: 1, error: None });
}

fn setup() -> (ResourcePool<u8>, PoolMetaMap, PoolHealth) {
    let mut registry = ResourcePool::new();
    registry.register("p1".to_string(), 1u8);
    registry.register("p2".to_string(), 2u8);
    let mut metas = PoolMetaMap::new();
    metas.insert("p1".to_string(), PoolMeta { public_endpoint: "https://one.example.com/".to_string(), is_public: true });
    metas.insert("p2".to_string(), PoolMeta { public_endpoint: "https://two.example.com".to_string(), is_public: true });
    let mut health = PoolHealth::new(300, 10);
    up(&mut health, "p1", true);
    up(&mut health, "p2", true);
    (registry, metas, health)
}

fn message(e: AppError) -> (u16, String) {
    (e.status(), e.to_text())
}

#[test]
fn key_of_a_download() {
    assert_eq!(fetch_key(&sha()).ok().unwrap(), format!("ab/{}", "ab".repeat(31)));
    let (code, text) = message(fetch_key("zz").err().unwrap());
    assert_eq!(code, 400);
    assert_eq!(text, "bad request: invalid sha256 \"zz\", expected 64 hex chars");
    assert_eq!(fetch_key(&format!(" {} ", "AB".repeat(32))).ok().unwrap(), format!("ab/{}", "ab".repeat(31)));
}

#[test]
fn upper_case_downloads_redirect_to_the_lower_case_key() {
    let (registry, metas, health) = setup();
    let upper = "AB".repeat(32);
    let target = fetch_with(&upper, Some(resource(&["p1"])), &registry, &metas, &health, 0).ok().unwrap();
    assert_eq!(target, format!("https://one.example.com/ab/{}", "ab".repeat(31)));
    let (code, text) = message(fetch_with(&upper, None, &registry, &metas, &health, 0).err().unwrap());
    assert_eq!((code, text), (404, format!("not found: resource {}", sha())));
    let (code, _) = message(fetch_with("xyz", None, &registry, &metas, &health, 0).err().unwrap());
    assert_eq!(code, 400);
}

#[test]
fn redirect_goes_to_a_serving_pool() {
    let (registry, metas, health) = setup();
    let key = fetch_key(&sha()).ok().unwrap();
    let target = fetch_with(&sha(), Some(resource(&["p1", "p2"])), &registry, &metas, &health, 0).ok().unwrap();
    assert_eq!(target, format!("https://one.example.com/{key}"));
    let target = fetch_with(&sha(), Some(resource(&["p1", "p2"])), &registry, &metas, &health, 3).ok().unwrap();
    assert_eq!(target, format!("https://two.example.com/{key}"));
    let any = fetch(&sha(), Some(resource(&["p1", "p2"])), &registry, &metas, &health).ok().unwrap();
    assert!(any == format!("https://one.example.com/{key}") || any == format!("https://two.example.com/{key}"));
}

#[test]
fn down_private_or_unconnected_pools_are_skipped() {
    let (mut registry, mut metas, mut health) = setup();
    let key = fetch_key(&sha()).ok().unwrap();
    up(&mut health, "p1", false);
    let t = fetch_with(&sha(), Some(resource(&["p1", "p2"])), &registry, &metas, &health, 0).ok().unwrap();
    assert_eq!(t, format!("https://two.example.com/{key}"));
    metas.insert("p2".to_string(), PoolMeta { public_endpoint: "https://two.example.com".to_string(), is_public: false });
    let (code, text) = message(fetch_with(&sha(), Some(resource(&["p1", "p2"])), &registry, &metas, &health, 0).err().unwrap());
    assert_eq!(code, 503);
    assert_eq!(text, "service unavailable: no public storage pool available, download unavailable");
    up(&mut health, "p1", true);
    assert!(registry.remove("p1").is_some());
    assert!(fetch_with(&sha(), Some(resource(&["p1"])), &registry, &metas, &health, 0).is_err());
}

#[test]
fn refusals_of_a_download() {
    let (mut registry, metas, health) = setup();
    let key = fetch_key(&sha()).ok().unwrap();
    let (code, text) = message(fetch_with(&sha(), None, &registry, &metas, &health, 0).err().unwrap());
    assert_eq!((code, text), (404, format!("not found: resource {}", sha())));
    let (code, text) = message(fetch_with(&sha(), Some(resource(&[])), &registry, &metas, &health, 0).err().unwrap());
    assert_eq!((code, text), (503, format!("service unavailable: resource {} is not stored in any pool", sha())));
    registry.clear();
    let (code, text) = message(fetch_with(&sha(), Some(resource(&["p1"])), &registry, &metas, &health, 0).err().unwrap());
    assert_eq!((code, text), (503, "service unavailable: no storage pool available, download unavailable".to_string()));
}

#[test]
fn pick_is_uniform_by_remainder() {
    let c = vec!["a".to_string(), "b".to_string(), "c".to_string()];
    assert_eq!(pick(&c, 0).unwrap(), "a");
    assert_eq!(pick(&c, 4).unwrap(), "b");
    assert_eq!(pick(&c, u128::MAX).unwrap(), "a");
    assert!(pick(&Vec::new(), 5).is_none());
}
