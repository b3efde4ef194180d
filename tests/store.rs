use signal_pager::error::SignalStateError;
use signal_pager::store::{
    choose_action, final_flush_version, reload_permitted, scan_listing, LoadedCopy,
    MaintenanceAction, MaintenanceLoop, SignalStateMaintenance,
};

fn keys(range: std::ops::RangeInclusive<u32>) -> Vec<String> {
    range.map(|v| v.to_string()).collect()
}

#[test]
fn retention_deletes_below_floor() {
    let listing = scan_listing(&keys(1..=100), 100);
    assert_eq!(listing.best_version, Some(100));
    assert_eq!(listing.stale, (1..=79).collect::<Vec<u32>>());
}

#[test]
fn retention_never_underflows() {
    let listing = scan_listing(&keys(0..=15), 10);
    assert_eq!(listing.best_version, Some(15));
    assert!(listing.stale.is_empty());
    let listing = scan_listing(&keys(0..=30), 21);
    assert_eq!(listing.stale, vec![0]);
}

#[test]
fn listing_skips_foreign_keys() {
    let k = vec![
        "7".to_string(),
        "notes.txt".to_string(),
        "+12".to_string(),
        "-3".to_string(),
        "4294967296".to_string(),
        "3".to_string(),
    ];
    let listing = scan_listing(&k, 0);
    assert_eq!(listing.best_version, Some(12));
    assert!(listing.stale.is_empty());
}

#[test]
fn empty_listing_has_no_best() {
    let listing = scan_listing(&Vec::new(), 50);
    assert_eq!(listing.best_version, None);
    assert!(listing.stale.is_empty());
}

#[test]
fn nothing_loaded_reloads_best() {
    assert_eq!(choose_action(None, Some(4)), Ok(MaintenanceAction::Reload(4)));
}

#[test]
fn nothing_loaded_nothing_stored_is_fatal() {
    assert_eq!(choose_action(None, None), Err(SignalStateError::NoStateAvailable));
}

#[test]
fn dirty_copy_flushes() {
    let c = LoadedCopy { version: 3, dirty: true };
    assert_eq!(choose_action(Some(c), Some(9)), Ok(MaintenanceAction::Flush));
    assert_eq!(choose_action(Some(c), None), Ok(MaintenanceAction::Flush));
}

#[test]
fn clean_copy_follows_newer_version() {
    let c = LoadedCopy { version: 3, dirty: false };
    assert_eq!(choose_action(Some(c), Some(5)), Ok(MaintenanceAction::Reload(5)));
    assert_eq!(choose_action(Some(c), Some(3)), Ok(MaintenanceAction::NoAction));
    assert_eq!(choose_action(Some(c), None), Ok(MaintenanceAction::NoAction));
}

#[test]
fn access_marks_dirty_and_blocks_reload() {
    let mut c = LoadedCopy::fresh(6);
    assert!(reload_permitted(Some(c)));
    c.accessed();
    assert_eq!(c, LoadedCopy { version: 6, dirty: true });
    assert!(!reload_permitted(Some(c)));
    assert!(reload_permitted(None));
}

#[test]
fn flush_then_same_version_is_noop() {
    let mut c = LoadedCopy::fresh(6);
    c.accessed();
    let v = c.flush_version().unwrap();
    assert_eq!(v, 7);
    c.flushed(v);
    assert_eq!(c, LoadedCopy { version: 7, dirty: false });
    assert_eq!(choose_action(Some(c), Some(7)), Ok(MaintenanceAction::NoAction));
}

#[test]
fn flushes_write_consecutive_versions() {
    let mut c = LoadedCopy::fresh(40);
    let mut written = Vec::new();
    for _ in 0..5 {
        c.accessed();
        let v = c.flush_version().unwrap();
        written.push(v);
        c.flushed(v);
    }
    assert_eq!(written, vec![41, 42, 43, 44, 45]);
    assert_eq!(c.version, 45);
}

#[test]
fn last_version_cannot_flush() {
    let c = LoadedCopy { version: u32::MAX, dirty: true };
    assert_eq!(c.flush_version(), None);
}

#[test]
fn shutdown_writes_dirty_copy_only() {
    assert_eq!(final_flush_version(Some(LoadedCopy { version: 8, dirty: true })), Some(9));
    assert_eq!(final_flush_version(Some(LoadedCopy { version: 8, dirty: false })), None);
    assert_eq!(final_flush_version(None), None);
}

#[test]
fn maintenance_lifecycle_runs_then_cleans_up() {
    let mut m = SignalStateMaintenance::new("stop", 1u8, 'c');
    assert!(m.is_running());
    let running = m.running.as_ref().unwrap();
    assert_eq!(running.stopper, "stop");
    assert_eq!(running.maintenance, 1u8);
    m.stop();
    assert!(!m.is_running());
    assert_eq!(m.cleanup, 'c');
}

#[test]
fn loop_plans_from_listing_and_follows_reloads() {
    let mut state = MaintenanceLoop::new();
    let k = keys(1..=100);
    let first = state.plan(&k, None);
    assert!(first.stale.is_empty());
    assert_eq!(first.action, Ok(MaintenanceAction::Reload(100)));
    state.reloaded(100);
    let second = state.plan(&k, Some(LoadedCopy { version: 100, dirty: false }));
    assert_eq!(second.stale, (1..=79).collect::<Vec<u32>>());
    assert_eq!(second.action, Ok(MaintenanceAction::NoAction));
    let third = state.plan(&Vec::new(), None);
    assert_eq!(third.action, Err(SignalStateError::NoStateAvailable));
}
