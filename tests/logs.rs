use file_version_monitor::logs::{get_filtered_log_lines, Info, LogFilterQuery, LogLevels, Logs};

fn entry(time: &str, level: &str, message: &str) -> Logs {
    Logs {
        time: time.to_string(),
        message: message.to_string(),
        module: "app::server".to_string(),
        file: "src/server/mod.rs".to_string(),
        line: 10,
        level: level.to_string(),
        target: "app".to_string(),
        thread: "main".to_string(),
        thread_id: 1,
    }
}

fn no_filter() -> LogFilterQuery {
    LogFilterQuery { level: None, message: None, start_date: None, end_date: None }
}

fn times(v: &[Logs]) -> Vec<&str> {
    v.iter().map(|l| l.time.as_str()).collect()
}

#[test]
fn no_log_files_is_an_error() {
    assert_eq!(get_filtered_log_lines(vec![], &no_filter()).unwrap_err(), "No logfiles found on the server");
}

#[test]
fn entries_of_all_files_newest_first() {
    let files = vec![
        Some(vec![entry("2023-02-28T07:00:00+00:00", "INFO", "a"), entry("2023-02-28T09:00:00+00:00", "INFO", "b")]),
        None,
        Some(vec![entry("2023-02-28T08:00:00+00:00", "WARN", "c")]),
    ];
    let out = get_filtered_log_lines(files, &no_filter()).unwrap();
    assert_eq!(
        times(&out),
        vec!["2023-02-28T09:00:00+00:00", "2023-02-28T08:00:00+00:00", "2023-02-28T07:00:00+00:00"]
    );
}

#[test]
fn unreadable_files_only_yield_nothing() {
    assert!(get_filtered_log_lines(vec![None], &no_filter()).unwrap().is_empty());
}

#[test]
fn level_and_message_filters() {
    let files = vec![Some(vec![
        entry("2023-02-28T07:00:00+00:00", "INFO", "Server Started"),
        entry("2023-02-28T08:00:00+00:00", "WARN", "server slow"),
        entry("2023-02-28T09:00:00+00:00", "INFO", "idle"),
    ])];
    let f = LogFilterQuery { level: Some(LogLevels::INFO), message: Some("SERVER".to_string()), ..no_filter() };
    let out = get_filtered_log_lines(files.clone(), &f).unwrap();
    assert_eq!(times(&out), vec!["2023-02-28T07:00:00+00:00"]);
    let all = LogFilterQuery { level: Some(LogLevels::ALL), ..no_filter() };
    assert_eq!(get_filtered_log_lines(files, &all).unwrap().len(), 3);
}

#[test]
fn date_bounds_are_inclusive_and_use_utc() {
    // 2023-02-28T12:00:00Z is 1677585600 seconds after the epoch
    let files = vec![Some(vec![
        entry("2023-02-28T12:00:00Z", "INFO", "at start"),
        entry("2023-02-28T13:00:00+02:00", "INFO", "before start"),
        entry("2023-02-28T12:30:00.5Z", "INFO", "inside"),
        entry("not a date", "INFO", "unreadable"),
    ])];
    let f = LogFilterQuery { start_date: Some((1677585600, 0)), end_date: Some((1677587400, 500_000_000)), ..no_filter() };
    let out = get_filtered_log_lines(files, &f).unwrap();
    let messages: Vec<&str> = out.iter().map(|l| l.message.as_str()).collect();
    assert_eq!(messages, vec!["inside", "at start"]);
}

#[test]
fn info_reports_running_version() {
    let info = Info::current("0.1.0");
    assert!(info.up);
    assert_eq!(info.version, "0.1.0");
}
