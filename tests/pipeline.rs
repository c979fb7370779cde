use file_version_monitor::pipeline::{priming_paths, record_version, update_and_publish, Stamps};
use file_version_monitor::resolve::{
    content_digest, get_file_meta_hash, get_file_version_from_file_properties, route_event, store_file_path,
    ReadFailure, Resolver, Route, resolver_for_ext,
};
use file_version_monitor::{Bouncer, Broker, File, Files};

fn file(id: u128, name: &str, path: &str, enabled: bool) -> File {
    File {
        id,
        name: name.to_string(),
        enabled,
        last_update_utc: String::new(),
        update_state: String::new(),
        last_version: "0.0.0.0".to_string(),
        path: path.to_string(),
        mqtt_topic: format!("topic/{name}"),
    }
}

fn broker(connected: bool) -> Broker {
    Broker {
        client_id: "client".to_string(),
        device_group: "group-a".to_string(),
        device_id: "device-7".to_string(),
        host: "localhost".to_string(),
        password: String::new(),
        port: 1883,
        protocol: "mqtt://".to_string(),
        username: String::new(),
        state: "Connected".to_string(),
        connected,
    }
}

fn stamps() -> Stamps {
    Stamps {
        display: "2024-01-02 03:04:05.000000006 UTC".to_string(),
        rfc3339: "2024-01-02T03:04:05.000Z".to_string(),
    }
}

#[test]
fn overwritten_executable_publishes_once() {
    let mut files = Files { entries: vec![file(1, "app.exe", "C:/a/app.exe", true)] };
    let store = store_file_path();
    assert_eq!(route_event("C:/a/app.exe", &store), Route::Resolve(Resolver::FileProperties));

    let mut bouncer: Bouncer<String> = Bouncer::new(500);
    assert!(bouncer.debounce("C:/a/app.exe".to_string(), "C:/a/app.exe".to_string(), 1_000).is_none());
    assert!(bouncer.pop_due(1_499).is_none());
    let (key, path) = bouncer.pop_due(1_500).unwrap();
    assert_eq!(key, "C:/a/app.exe");
    assert!(bouncer.pop_due(5_000).is_none());

    let version = get_file_version_from_file_properties(Some((1, 2, 3, 4)));
    assert_eq!(version, Ok("1.2.3.4".to_string()));
    let config = broker(true);
    let sent = update_and_publish(&mut files, &path, &version, Some(&config), &config, &stamps());
    assert_eq!(sent.len(), 1);
    assert_eq!(sent[0].name, "app.exe");
    assert_eq!(sent[0].version, "1.2.3.4");
    assert_eq!(sent[0].topic, "topic/app.exe");
    assert_eq!(sent[0].device_id, "device-7");
    assert_eq!(sent[0].group, "group-a");
    assert_eq!(sent[0].timestamp, "2024-01-02T03:04:05.000Z");
    assert_eq!(files.entries[0].last_version, "1.2.3.4");
    assert_eq!(files.entries[0].update_state, "Success");
    assert_eq!(files.entries[0].last_update_utc, "2024-01-02 03:04:05.000000006 UTC");
}

#[test]
fn disconnected_broker_updates_state_without_publish() {
    let mut files = Files { entries: vec![file(1, "app.exe", "C:/a/app.exe", true)] };
    let version = Ok("2.0.0.1".to_string());
    let stored = broker(false);
    let sent = update_and_publish(&mut files, "C:/a/app.exe", &version, Some(&stored), &stored, &stamps());
    assert!(sent.is_empty());
    assert_eq!(files.entries[0].last_version, "2.0.0.1");
    assert_eq!(files.entries[0].update_state, "MQTT broker connection failed");
}

#[test]
fn unreadable_broker_record_updates_without_publish() {
    let mut files = Files { entries: vec![file(1, "app.exe", "C:/a/app.exe", true)] };
    let version = Ok("2.0.0.1".to_string());
    let config = broker(true);
    let sent = update_and_publish(&mut files, "C:/a/app.exe", &version, None, &config, &stamps());
    assert!(sent.is_empty());
    assert_eq!(files.entries[0].update_state, "MQTT broker connection failed");
    assert_eq!(files.entries[0].last_version, "2.0.0.1");
}

#[test]
fn update_touches_only_entries_of_the_path() {
    let mut files = Files {
        entries: vec![
            file(1, "app.exe", "C:\\a\\app.exe", true),
            file(2, "other.dll", "C:/a/other.dll", true),
            file(3, "copy", "C:/a/app.exe", false),
        ],
    };
    let before = files.clone();
    let config = broker(true);
    let sent = update_and_publish(&mut files, "C:/a/app.exe", &Ok("9.9".to_string()), Some(&config), &config, &stamps());
    assert_eq!(sent.len(), 2);
    assert_eq!(sent[0].name, "app.exe");
    assert_eq!(sent[1].name, "copy");
    assert_eq!(files.entries[0].last_version, "9.9");
    assert_eq!(files.entries[2].last_version, "9.9");
    let other = &files.entries[1];
    let was = &before.entries[1];
    assert_eq!(other.last_version, was.last_version);
    assert_eq!(other.update_state, was.update_state);
    assert_eq!(other.last_update_utc, was.last_update_utc);
}

#[test]
fn resolver_error_is_recorded_and_not_published() {
    let mut files = Files { entries: vec![file(1, "data.cfg", "C:/a/data.cfg", true)] };
    let config = broker(true);
    let result = get_file_meta_hash(Err(ReadFailure::Open("file is gone".to_string())));
    assert_eq!(result, Err("[Get File Version] file is gone".to_string()));
    let sent = update_and_publish(&mut files, "C:/a/data.cfg", &result, Some(&config), &config, &stamps());
    assert!(sent.is_empty());
    assert_eq!(files.entries[0].update_state, "[Get File Version] file is gone");
    assert_eq!(files.entries[0].last_version, "0.0.0.0");
    assert!(files.entries[0].enabled);
}

#[test]
fn read_failure_text() {
    let result = get_file_meta_hash(Err(ReadFailure::Read("denied".to_string())));
    assert_eq!(result, Err("[Get File Version] Could not read file content: denied".to_string()));
}

#[test]
fn missing_version_resource_text() {
    assert_eq!(
        get_file_version_from_file_properties(None),
        Err("[Get File Version] Could not read version.".to_string())
    );
    assert_eq!(get_file_version_from_file_properties(Some((10, 0, 65535, 4294967295))), Ok("10.0.65535.4294967295".to_string()));
}

#[test]
fn content_digest_of_empty_and_small_files() {
    assert_eq!(content_digest(&[]), "4f53cda18c2baa0c0354bb5f9a3ecbe5ed12ab4d8e11ba873c2f11161202b945");
    assert_eq!(content_digest(&[1, 2, 3]), "a36b1f2c3f84522dd1005145646617d7054c0851e97c72a039c0bdfac9fa07f3");
    assert_eq!(
        get_file_meta_hash(Ok(b"hi".to_vec())),
        Ok("adfa7e087e6652cf06823468dcde88b03fedc047eb555e5191b141c8a4510f8c".to_string())
    );
}

#[test]
fn routes_by_store_path_and_extension() {
    let store = store_file_path();
    assert_eq!(store, "C:/ProgramData/Tauri/EH Version Scraper/application_db.kv");
    assert_eq!(route_event(&store, &store), Route::RefreshConfig);
    assert_eq!(route_event("C:/a/lib.dll", &store), Route::Resolve(Resolver::FileProperties));
    assert_eq!(route_event("C:/a/notes.txt", &store), Route::Resolve(Resolver::ContentHash));
    assert_eq!(route_event("C:/a/LICENSE", &store), Route::Resolve(Resolver::ContentHash));
}

#[test]
fn resolver_by_extension() {
    assert_eq!(resolver_for_ext("exe"), Resolver::FileProperties);
    assert_eq!(resolver_for_ext("dll"), Resolver::FileProperties);
    assert_eq!(resolver_for_ext("EXE"), Resolver::ContentHash);
    assert_eq!(resolver_for_ext("json"), Resolver::ContentHash);
    assert_eq!(resolver_for_ext(""), Resolver::ContentHash);
}

#[test]
fn priming_covers_enabled_entries() {
    let files = Files {
        entries: vec![
            file(1, "a", "C:/a/a.exe", true),
            file(2, "b", "C:/a/b.exe", false),
            file(3, "c", "C:/c/c.txt", true),
        ],
    };
    assert_eq!(priming_paths(&files), vec!["C:/a/a.exe".to_string(), "C:/c/c.txt".to_string()]);
}

#[test]
fn recorded_version_carries_the_clock_reading() {
    let mut files = Files { entries: vec![file(1, "app.exe", "C:/a/app.exe", true)] };
    let config = broker(true);
    let (sent, stamps) = record_version(&mut files, "C:/a/app.exe", &Ok("3.1".to_string()), Some(&config), &config);
    assert_eq!(sent.len(), 1);
    assert!(stamps.display.ends_with("UTC"));
    assert!(stamps.rfc3339.ends_with('Z'));
    assert_eq!(sent[0].timestamp, stamps.rfc3339);
    assert_eq!(files.entries[0].last_update_utc, stamps.display);
    assert_eq!(files.entries[0].last_version, "3.1");
}
