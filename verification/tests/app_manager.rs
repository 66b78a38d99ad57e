use coo_service::apps::error::AppError as DomainError;
use coo_service::apps::manager::AppManager;
use coo_service::database::repo::{AppRow, ChannelRow, DiffRow};

const ID_A: u128 = 0x0123_4567_89ab_4def_8123_4567_89ab_cdef;
const ID_B: u128 = 0xfedc_ba98_7654_4321_8fed_cba9_8765_4321;

fn row(id: u128, name: &str, enabled: bool) -> AppRow {
    AppRow { id, name: name.to_string(), enabled }
}

fn channel_row(guid: u128, app_id: u128, default: bool) -> ChannelRow {
    ChannelRow {
        guid,
        app_id,
        tag_name: "stable".to_string(),
        latest_version: "1.2.0".to_string(),
        raw_sha256: "ab".repeat(32),
        raw_size: 4096,
        is_default: default,
    }
}

#[test]
fn reload_replaces_the_cache() {
    let mut m = AppManager::from_rows(vec![row(ID_A, "alpha", true), row(ID_B, "beta", true)]);
    assert_eq!(m.count(), 2);
    m.reload(vec![row(ID_B, "beta2", true)]);
    assert_eq!(m.count(), 1);
    assert!(m.get(ID_A).is_none());
    assert_eq!(m.get(ID_B).unwrap().name, "beta2");
}

#[test]
fn later_row_of_an_id_wins() {
    let m = AppManager::from_rows(vec![row(ID_A, "first", true), row(ID_A, "second", true)]);
    assert_eq!(m.count(), 1);
    assert_eq!(m.get(ID_A).unwrap().name, "second");
}

#[test]
fn list_gives_every_cached_app_once() {
    let m = AppManager::from_rows(vec![row(ID_A, "alpha", true), row(ID_B, "beta", true)]);
    let mut names: Vec<String> = m.list().into_iter().map(|a| a.name).collect();
    names.sort();
    assert_eq!(names, vec!["alpha".to_string(), "beta".to_string()]);
}

#[test]
fn create_caches_a_new_app_and_refuses_a_taken_id() {
    let mut m = AppManager::new();
    let app = m.create(ID_A, "alpha", false).ok().unwrap();
    assert_eq!(app.id, ID_A);
    assert_eq!(m.get(ID_A).unwrap().name, "alpha");
    match m.create(ID_A, "again", true) {
        Err(DomainError::AlreadyExists(t)) => assert_eq!(t, "01234567-89ab-4def-8123-456789abcdef"),
        _ => panic!("expected AlreadyExists"),
    }
    assert_eq!(m.get(ID_A).unwrap().name, "alpha");
}

#[test]
fn disabling_drops_from_the_cache() {
    let mut m = AppManager::from_rows(vec![row(ID_A, "alpha", true)]);
    let app = m.set_info(ID_A, true, Some(row(ID_A, "renamed", false))).ok().unwrap();
    assert_eq!(app.name, "renamed");
    assert!(m.get(ID_A).is_none());
    let app = m.set_info(ID_A, true, Some(row(ID_A, "back", true))).ok().unwrap();
    assert_eq!(app.name, "back");
    assert_eq!(m.get(ID_A).unwrap().name, "back");
}

#[test]
fn set_info_on_a_missing_app_is_not_found() {
    let mut m = AppManager::new();
    match m.set_info(ID_B, false, None) {
        Err(DomainError::NotFound(t)) => assert_eq!(t, "fedcba98-7654-4321-8fed-cba987654321"),
        _ => panic!("expected NotFound"),
    }
    assert!(matches!(m.set_info(ID_B, true, None), Err(DomainError::NotFound(_))));
}

#[test]
fn set_enable_follows_the_flag() {
    let mut m = AppManager::from_rows(vec![row(ID_A, "alpha", true)]);
    assert!(m.set_enable(ID_A, false, true, None).is_ok());
    assert_eq!(m.count(), 0);
    assert!(m.set_enable(ID_A, true, true, Some(row(ID_A, "alpha", true))).is_ok());
    assert_eq!(m.count(), 1);
    assert!(matches!(m.set_enable(ID_B, true, false, None), Err(DomainError::NotFound(_))));
}

#[test]
fn remove_returns_the_deleted_app() {
    let mut m = AppManager::from_rows(vec![row(ID_A, "alpha", true)]);
    let app = m.remove(ID_A, Some(row(ID_A, "alpha", true))).ok().unwrap();
    assert_eq!(app.name, "alpha");
    assert_eq!(m.count(), 0);
    assert!(matches!(m.remove(ID_A, None), Err(DomainError::NotFound(_))));
}

#[test]
fn channels_need_an_enabled_app() {
    let m = AppManager::from_rows(vec![row(ID_A, "alpha", true)]);
    let chans = m.channels(ID_A, vec![channel_row(7, ID_A, true), channel_row(8, ID_A, false)]).ok().unwrap();
    assert_eq!(chans.len(), 2);
    assert_eq!(chans[0].guid, 7);
    assert!(chans[0].is_default);
    assert_eq!(chans[1].raw_size, 4096);
    assert!(matches!(m.channels(ID_B, vec![]), Err(DomainError::NotFound(_))));
}

#[test]
fn update_carries_channel_and_diffs() {
    assert!(AppManager::update(None, vec![]).is_none());
    let diff = DiffRow {
        base_sha256: "cd".repeat(32),
        patch_sha256: "ef".repeat(32),
        algo: Some("bsdiff".to_string()),
        size: 99,
    };
    let u = AppManager::update(Some(channel_row(7, ID_A, true)), vec![diff]).unwrap();
    assert_eq!(u.channel.guid, 7);
    assert_eq!(u.diffs.len(), 1);
    assert_eq!(u.diffs[0].size, 99);
    assert_eq!(u.diffs[0].algo.as_deref(), Some("bsdiff"));
}

#[test]
fn list_all_keeps_disabled_rows() {
    let all = AppManager::list_all(vec![row(ID_A, "alpha", false), row(ID_B, "beta", true)]);
    assert_eq!(all.len(), 2);
    assert_eq!(all[0].id, ID_A);
    assert_eq!(all[1].name, "beta");
}

#[test]
fn domain_error_text() {
    assert_eq!(DomainError::NotFound("x".to_string()).to_text(), "app x not found");
    assert_eq!(DomainError::AlreadyExists("x".to_string()).to_text(), "app x already exists");
}
