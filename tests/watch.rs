use file_version_monitor::text::{canonical_path, decimal_text};
use file_version_monitor::watch::{accept_event, record_watch_failures, same_files, watch_dir, watch_plan, WatchFailure, WatchRefresh};
use file_version_monitor::{DBError, File, FileCreateParams, FileUpdateParams, FileWatcher, Files};

fn file(id: u128, path: &str, enabled: bool) -> File {
    File {
        id,
        name: format!("f{id}"),
        enabled,
        last_update_utc: String::new(),
        update_state: String::new(),
        last_version: String::new(),
        path: path.to_string(),
        mqtt_topic: "t".to_string(),
    }
}

#[test]
fn one_watch_per_directory() {
    let files = Files {
        entries: vec![
            file(1, "C:/a/one.exe", true),
            file(2, "C:/a/two.dll", true),
            file(3, "C:/b/three.txt", false),
            file(4, "C:/c/four.txt", true),
        ],
    };
    let plan = watch_plan(&files, "C:/store/db.kv");
    assert_eq!(plan.dirs, vec!["C:/a".to_string(), "C:/c".to_string()]);
    assert_eq!(
        plan.active,
        vec![
            "C:/a/one.exe".to_string(),
            "C:/a/two.dll".to_string(),
            "C:/c/four.txt".to_string(),
            "C:/store/db.kv".to_string()
        ]
    );
}

#[test]
fn one_watch_per_directory_whatever_the_separators() {
    let files = Files { entries: vec![file(1, "C:/a/x.exe", true), file(2, "C:\\a\\y.exe", true)] };
    let plan = watch_plan(&files, "C:/store/db.kv");
    assert_eq!(plan.dirs, vec!["C:/a".to_string()]);
    assert_eq!(watch_dir("C:\\a\\y.exe"), Some("C:/a".to_string()));
}

#[test]
fn failed_watch_disables_its_entries_only() {
    let mut files = Files {
        entries: vec![file(1, "C:/a/one.exe", true), file(2, "C:/b/two.exe", true), file(3, "C:/a/three", false)],
    };
    let failures = vec![WatchFailure { dir: "C:/a".to_string(), error: "no access".to_string() }];
    record_watch_failures(&mut files, &failures);
    assert!(!files.entries[0].enabled);
    assert_eq!(files.entries[0].update_state, "no access");
    assert!(files.entries[1].enabled);
    assert_eq!(files.entries[1].update_state, "");
    assert_eq!(files.entries[2].update_state, "");
}

#[test]
fn events_pass_only_for_active_paths() {
    let active = vec!["C:/a/one.exe".to_string()];
    assert_eq!(accept_event(&active, "C:\\a\\one.exe"), Some("C:/a/one.exe".to_string()));
    assert_eq!(accept_event(&active, "C:/a/sibling.exe"), None);
}

#[test]
fn unchanged_snapshot_keeps_watches() {
    let files = Files { entries: vec![file(1, "C:/a/one.exe", true)] };
    let mut watcher = FileWatcher::init(files.clone());
    let mut same = files.clone();
    same.entries[0].last_version = "1.0".to_string();
    assert!(same_files(&files, &same));
    assert!(matches!(watcher.refresh(same), WatchRefresh::Keep));
    assert_eq!(watcher.watcher_thread, 0);
    assert_eq!(watcher.current_file_config.entries[0].last_version, "");
}

#[test]
fn changed_snapshot_restarts_watches() {
    let files = Files { entries: vec![file(1, "C:/a/one.exe", false), file(2, "C:/a/two.exe", true)] };
    let mut watcher = FileWatcher::init(files.clone());
    let mut changed = files.clone();
    changed.entries[0].enabled = true;
    changed.insert(file(3, "C:/z/new.exe", true));
    match watcher.refresh(changed) {
        WatchRefresh::Restart { cancel, start, reread } => {
            assert_eq!(cancel, 0);
            assert_eq!(start, 1);
            assert_eq!(reread, vec!["C:/a/one.exe".to_string()]);
        }
        WatchRefresh::Keep => panic!("a changed snapshot must restart the watches"),
    }
    assert_eq!(watcher.current_file_config.entries.len(), 3);
}

#[test]
fn enabling_a_missing_path_is_rejected() {
    let mut files = Files::new();
    files.insert(file(7, "C:/missing/app.exe", false));
    let params = FileUpdateParams { enabled: Some(true), ..Default::default() };
    assert_eq!(params.target_path(&files.entries[0]), "C:/missing/app.exe");
    assert!(files.update(7, params, false).is_ok());
    assert!(!files.entries[0].enabled);
    let created = File::create(
        8,
        FileCreateParams { name: "x".to_string(), enabled: true, path: "C:/nope".to_string(), mqtt_topic: "t".to_string() },
        false,
    );
    assert!(!created.enabled);
    let params = FileUpdateParams { enabled: Some(true), ..Default::default() };
    assert!(files.update(7, params, true).is_ok());
    assert!(files.entries[0].enabled);
}

#[test]
fn unknown_ids_are_not_found() {
    let mut files = Files::new();
    files.insert(file(1, "C:/a", true));
    match files.update(2, FileUpdateParams::default(), true) {
        Err(DBError::KeyNotFound(m)) => assert_eq!(m, "key not found in storage"),
        _ => panic!("an unknown id must not be found"),
    }
    match files.remove(2) {
        Err(DBError::KeyNotFound(m)) => assert_eq!(m, "key not found in storage"),
        _ => panic!("an unknown id must not be found"),
    }
    assert_eq!(files.remove(1).unwrap().id, 1);
    assert!(files.entries.is_empty());
}

#[test]
fn insert_replaces_same_id() {
    let mut files = Files::new();
    files.insert(file(1, "C:/a", true));
    files.insert(file(1, "C:/b", true));
    assert_eq!(files.entries.len(), 1);
    assert_eq!(files.entries[0].path, "C:/b");
    assert_eq!(files.position(1), Some(0));
    assert_eq!(files.position(9), None);
}

#[test]
fn text_helpers() {
    assert_eq!(canonical_path("C:\\a\\b.exe"), "C:/a/b.exe");
    assert_eq!(canonical_path(""), "");
    assert_eq!(decimal_text(0), "0");
    assert_eq!(decimal_text(1883), "1883");
    assert_eq!(decimal_text(u64::MAX), "18446744073709551615");
}
