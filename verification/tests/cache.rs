use devterm_core::error::CoreError;
use devterm_core::fs::GitStats;
use devterm_core::git_cache::{
    is_fresh, keeps_watching, names_control_file, should_invalidate, CancelPoll, ChangeKind,
    GitStatsCache, WatchPlan, CACHE_TTL_NANOS, CACHE_TTL_SECONDS, WATCH_POLL_MILLIS,
};
use std::collections::HashMap;

const SECOND: u128 = 1_000_000_000;

fn stats(pairs: &[(&str, &str)]) -> HashMap<String, GitStats> {
    let mut m = HashMap::new();
    for (path, status) in pairs {
        m.insert(path.to_string(), GitStats { status: status.to_string() });
    }
    m
}

/// Stands for the cancellation handle of a watch task.
#[derive(Debug, PartialEq)]
struct Cancel(u32);

fn paths(names: &[&str]) -> Vec<String> {
    names.iter().map(|n| n.to_string()).collect()
}

/// A cache that watches `/repo` and holds an entry for it, stored at time 0.
fn watched_repo() -> GitStatsCache<Cancel> {
    let mut cache = GitStatsCache::new();
    cache.enable_watchers();
    assert_eq!(cache.setup_watcher("/repo", true), Ok(WatchPlan::Start));
    assert_eq!(cache.watcher_started("/repo".to_string(), Some(Cancel(1))), Ok(()));
    cache.set_at("/repo".to_string(), stats(&[("a.txt", "modified")]), 0);
    cache
}

#[test]
fn cache_constants() {
    assert_eq!(CACHE_TTL_SECONDS, 5);
    assert_eq!(CACHE_TTL_NANOS, 5 * SECOND);
    assert_eq!(WATCH_POLL_MILLIS, 1000);
}

#[test]
fn entry_is_fresh_up_to_the_ttl_and_no_longer() {
    assert!(is_fresh(100, 100));
    assert!(is_fresh(100, 100 + 5 * SECOND));
    assert!(!is_fresh(100, 101 + 5 * SECOND));
    assert!(is_fresh(0, 4_999_999_999));
    assert!(!is_fresh(0, 5_000_000_001));
}

#[test]
fn entry_stored_later_than_now_is_fresh() {
    assert!(is_fresh(10 * SECOND, 3 * SECOND));
    assert!(is_fresh(u128::MAX, 0));
    assert!(!is_fresh(0, u128::MAX));
}

#[test]
fn new_cache_is_empty_and_enabled() {
    let cache: GitStatsCache<Cancel> = GitStatsCache::new();
    assert!(cache.is_enabled());
    assert!(!cache.is_watching("/repo"));
    assert_eq!(cache.get("/repo"), None);
    assert_eq!(cache.get_at("/repo", 0), None);
}

#[test]
fn set_then_get_returns_the_mapping() {
    let mut cache: GitStatsCache<Cancel> = GitStatsCache::new();
    cache.set("/repo".to_string(), stats(&[("a.txt", "modified")]));
    assert_eq!(cache.get("/repo"), Some(&stats(&[("a.txt", "modified")])));
    assert_eq!(cache.get("/other"), None);
}

#[test]
fn set_at_then_get_at_within_ttl_returns_the_mapping() {
    let mut cache: GitStatsCache<Cancel> = GitStatsCache::new();
    let m = stats(&[("a.txt", "modified"), ("src/b.rs", "added")]);
    cache.set_at("/repo".to_string(), stats(&[("a.txt", "modified"), ("src/b.rs", "added")]), 7 * SECOND);
    assert_eq!(cache.get_at("/repo", 7 * SECOND), Some(&m));
    assert_eq!(cache.get_at("/repo", 12 * SECOND), Some(&m));
    assert_eq!(cache.get_at("/repo", 12 * SECOND + 1), None);
    assert_eq!(cache.get_at("/repo", 12 * SECOND), Some(&m));
}

#[test]
fn get_after_six_seconds_is_absent() {
    let mut cache: GitStatsCache<Cancel> = GitStatsCache::new();
    cache.set_at("/repo".to_string(), stats(&[("a.txt", "modified")]), 0);
    assert_eq!(cache.get_at("/repo", 0), Some(&stats(&[("a.txt", "modified")])));
    assert_eq!(cache.get_at("/repo", 6 * SECOND), None);
}

#[test]
fn set_overwrites_without_merging() {
    let mut cache: GitStatsCache<Cancel> = GitStatsCache::new();
    cache.set_at("/repo".to_string(), stats(&[("a.txt", "modified")]), 0);
    cache.set_at("/repo".to_string(), stats(&[("b.txt", "deleted")]), 4 * SECOND);
    assert_eq!(cache.get_at("/repo", 9 * SECOND), Some(&stats(&[("b.txt", "deleted")])));
}

#[test]
fn entries_of_different_repositories_are_apart() {
    let mut cache: GitStatsCache<Cancel> = GitStatsCache::new();
    cache.set_at("/one".to_string(), stats(&[("a", "modified")]), 0);
    cache.set_at("/two".to_string(), stats(&[("b", "added")]), SECOND);
    cache.invalidate("/one");
    assert_eq!(cache.get_at("/one", SECOND), None);
    assert_eq!(cache.get_at("/two", SECOND), Some(&stats(&[("b", "added")])));
}

#[test]
fn invalidate_removes_a_fresh_entry() {
    let mut cache: GitStatsCache<Cancel> = GitStatsCache::new();
    cache.set("/repo".to_string(), stats(&[("a.txt", "modified")]));
    cache.invalidate("/repo");
    assert_eq!(cache.get("/repo"), None);
    cache.invalidate("/repo");
    assert_eq!(cache.get("/repo"), None);
}

#[test]
fn entry_set_by_the_clock_is_served_by_the_clock() {
    let mut cache: GitStatsCache<Cancel> = GitStatsCache::new();
    cache.set("/repo".to_string(), stats(&[("a.txt", "modified")]));
    cache.set("/repo".to_string(), stats(&[("a.txt", "added")]));
    assert_eq!(cache.get("/repo"), Some(&stats(&[("a.txt", "added")])));
    assert_eq!(cache.get_at("/repo", 0), Some(&stats(&[("a.txt", "added")])));
    assert_eq!(cache.get_at("/repo", 3600 * SECOND), None);
}

#[test]
fn setup_on_a_path_without_metadata_fails() {
    let mut cache: GitStatsCache<Cancel> = GitStatsCache::new();
    assert_eq!(cache.setup_watcher("/tmp", false), Err(CoreError::NotAGitRepository));
    assert!(!cache.is_watching("/tmp"));
    cache.disable_watchers();
    assert_eq!(cache.setup_watcher("/tmp", false), Err(CoreError::NotAGitRepository));
}

#[test]
fn setup_twice_leaves_one_registration() {
    let mut cache: GitStatsCache<Cancel> = GitStatsCache::new();
    assert_eq!(cache.setup_watcher("/repo", true), Ok(WatchPlan::Start));
    assert_eq!(cache.watcher_started("/repo".to_string(), Some(Cancel(1))), Ok(()));
    assert!(cache.is_watching("/repo"));
    assert_eq!(cache.setup_watcher("/repo", true), Ok(WatchPlan::Nothing));
    assert_eq!(cache.watcher_started("/repo".to_string(), Some(Cancel(2))), Ok(()));
    assert!(cache.is_watching("/repo"));
    cache.stop_watcher("/repo");
    assert!(!cache.is_watching("/repo"));
}

#[test]
fn setup_while_disabled_does_nothing() {
    let mut cache: GitStatsCache<Cancel> = GitStatsCache::new();
    cache.disable_watchers();
    assert!(!cache.is_enabled());
    assert_eq!(cache.setup_watcher("/repo", true), Ok(WatchPlan::Nothing));
    assert_eq!(cache.watcher_started("/repo".to_string(), Some(Cancel(1))), Ok(()));
    assert!(!cache.is_watching("/repo"));
}

#[test]
fn watch_that_could_not_start_is_a_setup_failure() {
    let mut cache: GitStatsCache<Cancel> = GitStatsCache::new();
    assert_eq!(cache.setup_watcher("/repo", true), Ok(WatchPlan::Start));
    assert_eq!(cache.watcher_started("/repo".to_string(), None), Err(CoreError::WatchSetupFailure));
    assert!(!cache.is_watching("/repo"));
    assert_eq!(cache.setup_watcher("/repo", true), Ok(WatchPlan::Start));
}

#[test]
fn enabling_does_not_bring_stopped_watches_back() {
    let mut cache = watched_repo();
    cache.disable_watchers();
    assert!(!cache.is_watching("/repo"));
    cache.enable_watchers();
    assert!(cache.is_enabled());
    assert!(!cache.is_watching("/repo"));
    assert_eq!(cache.setup_watcher("/repo", true), Ok(WatchPlan::Start));
}

#[test]
fn stop_all_watchers_keeps_the_flag_and_the_entries() {
    let mut cache = watched_repo();
    cache.watcher_started("/other".to_string(), Some(Cancel(2))).unwrap();
    cache.stop_all_watchers();
    assert!(!cache.is_watching("/repo"));
    assert!(!cache.is_watching("/other"));
    assert!(cache.is_enabled());
    assert_eq!(cache.get_at("/repo", SECOND), Some(&stats(&[("a.txt", "modified")])));
}

#[test]
fn control_file_change_evicts_the_watched_entry() {
    let mut cache = watched_repo();
    assert!(cache.on_change("/repo", ChangeKind::ModifyData, &paths(&["/repo/.git/index"])));
    assert_eq!(cache.get_at("/repo", SECOND), None);
}

#[test]
fn head_change_of_unknown_kind_evicts_too() {
    let mut cache = watched_repo();
    assert!(cache.on_change(
        "/repo",
        ChangeKind::ModifyAny,
        &paths(&["/repo/.git/config", "/repo/.git/HEAD"])
    ));
    assert_eq!(cache.get_at("/repo", SECOND), None);
}

#[test]
fn change_after_disable_does_not_evict() {
    let mut cache = watched_repo();
    cache.disable_watchers();
    assert!(!cache.on_change("/repo", ChangeKind::ModifyData, &paths(&["/repo/.git/index"])));
    assert_eq!(cache.get_at("/repo", SECOND), Some(&stats(&[("a.txt", "modified")])));
}

#[test]
fn change_after_stop_does_not_evict() {
    let mut cache = watched_repo();
    cache.stop_watcher("/repo");
    assert!(!cache.on_change("/repo", ChangeKind::ModifyData, &paths(&["/repo/.git/index"])));
    assert_eq!(cache.get_at("/repo", SECOND), Some(&stats(&[("a.txt", "modified")])));
}

#[test]
fn other_changes_do_not_evict() {
    let mut cache = watched_repo();
    assert!(!cache.on_change("/repo", ChangeKind::ModifyData, &paths(&["/repo/.git/config"])));
    assert!(!cache.on_change("/repo", ChangeKind::Create, &paths(&["/repo/.git/index"])));
    assert!(!cache.on_change("/repo", ChangeKind::ModifyMetadata, &paths(&["/repo/.git/HEAD"])));
    assert!(!cache.on_change("/repo", ChangeKind::ModifyData, &paths(&[])));
    assert_eq!(cache.get_at("/repo", SECOND), Some(&stats(&[("a.txt", "modified")])));
}

#[test]
fn change_evicts_only_the_repository_of_the_watch() {
    let mut cache = watched_repo();
    cache.set_at("/other".to_string(), stats(&[("x", "added")]), 0);
    assert!(cache.on_change("/repo", ChangeKind::ModifyData, &paths(&["/repo/.git/index"])));
    assert_eq!(cache.get_at("/other", SECOND), Some(&stats(&[("x", "added")])));
}

#[test]
fn only_content_and_unknown_modifications_invalidate() {
    let index = paths(&["/r/.git/index"]);
    assert!(should_invalidate(ChangeKind::ModifyData, &index));
    assert!(should_invalidate(ChangeKind::ModifyAny, &index));
    for kind in [
        ChangeKind::Any,
        ChangeKind::Access,
        ChangeKind::Create,
        ChangeKind::ModifyMetadata,
        ChangeKind::ModifyName,
        ChangeKind::ModifyOther,
        ChangeKind::Remove,
        ChangeKind::Other,
    ] {
        assert!(!should_invalidate(kind, &index));
    }
}

#[test]
fn control_files_are_told_by_their_last_component() {
    assert!(names_control_file("/repo/.git/index"));
    assert!(names_control_file("/repo/.git/HEAD"));
    assert!(names_control_file("index"));
    assert!(names_control_file("HEAD"));
    assert!(names_control_file("C:\\repo\\.git\\HEAD"));
    assert!(names_control_file("/r\u{e9}po/.git/index"));
    assert!(!names_control_file("/repo/.git/index.lock"));
    assert!(!names_control_file("/repo/.git/ORIG_HEAD"));
    assert!(!names_control_file("/repo/.git/reindex"));
    assert!(!names_control_file("/repo/.git/head"));
    assert!(!names_control_file("/repo/.git/index/"));
    assert!(!names_control_file(""));
    assert!(!names_control_file("ndex"));
}

#[test]
fn watch_task_stops_on_message_and_on_closed_channel() {
    assert!(keeps_watching(CancelPoll::Idle));
    assert!(!keeps_watching(CancelPoll::StopRequested));
    assert!(!keeps_watching(CancelPoll::Disconnected));
}
