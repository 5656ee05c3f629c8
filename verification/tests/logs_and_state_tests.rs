use embypanel::auth::{
    auth_token, bearer_token, hash_token, random_token, validate_credentials, LoginFailures,
    LOGIN_FAILURE_LIMIT,
};
use embypanel::block_log::{
    backup_path, default_event_type, normalize_event_type, parse_log_line, path_type_label,
    render_log_line, rotation_due, sanitize_field, BlockLogEntry, BlockLogFilter, BlockLogInsert,
    BlockLogStore, MAX_BYTES,
};
use embypanel::connectivity::{check_outcome, ConnectivityMonitor, StatusChange, ConnectivityCheckStatus};
use embypanel::db::{
    data_dir, database_path, drop_is_reported, maintenance_due, sqlite_i64, RequestStatKind,
    SettingsStore,
};

fn entry(ts: u128, event_type: &str, detail: &str) -> BlockLogEntry {
    BlockLogEntry {
        id: ts as i64,
        event_type: event_type.to_string(),
        timestamp_ms: ts,
        server_id: "s1".to_string(),
        server_name: "Server One".to_string(),
        port: 18096,
        method: "GET".to_string(),
        path: "/videos/abc/stream".to_string(),
        path_type: "video_stream".to_string(),
        status_code: 403,
        outcome: "blocked".to_string(),
        duration_ms: 12,
        playback_user: "alice".to_string(),
        playback_ip: "203.0.113.5".to_string(),
        ip_location_text: String::new(),
        ip_location: None,
        cache_hit: false,
        blocked: true,
        detail: detail.to_string(),
    }
}

#[test]
fn block_log_lines_read_back_as_written() {
    let e = entry(1_700_000_000_123, "request", "rule hit");
    let line = render_log_line(&e, "UTC");
    assert_eq!(line.split('\t').count(), 18);
    assert!(line.starts_with("1700000000123\trequest\ts1\tServer One\t18096\talice\t203.0.113.5\t\tGET\t"));
    let back = parse_log_line(&line, None).unwrap();
    assert_eq!(back.timestamp_ms, e.timestamp_ms);
    assert_eq!(back.id, e.id);
    assert_eq!(back.path_type, "video_stream");
    assert_eq!(back.status_code, 403);
    assert_eq!(back.duration_ms, 12);
    assert!(!back.cache_hit);
    assert!(back.blocked);
    assert_eq!(back.detail, "rule hit");
}

#[test]
fn block_log_summary_is_readable() {
    let e = entry(0, "request", "d");
    let line = render_log_line(&e, "UTC");
    let summary = line.split('\t').last().unwrap().to_string();
    assert_eq!(
        summary,
        "1970/1/1 00:00:00 已拦截 服务器 Server One 用户 alice IP 203.0.113.5 GET /videos/abc/stream blocked 视频流 HTTP 403 12ms 未命中 d"
    );
    let block = entry(0, "block", "why");
    let line = render_log_line(&block, "Asia/Shanghai");
    assert!(line.ends_with("1970/1/1 08:00:00 封禁动作 服务器 Server One 用户 alice IP 203.0.113.5 方式 blocked why"));
}

#[test]
fn block_log_fields_lose_line_breaks() {
    assert_eq!(sanitize_field("a\tb\r\nc".to_string()), "a b  c");
    let e = entry(5, "request", "x\ty");
    let back = parse_log_line(&render_log_line(&e, "UTC"), None).unwrap();
    assert_eq!(back.detail, "x y");
}

#[test]
fn old_short_lines_take_defaults() {
    let e = parse_log_line("42\tblock\ts\tname\t99\tu\t1.2.3.4", None).unwrap();
    assert_eq!(e.id, 42);
    assert_eq!(e.event_type, "block");
    assert_eq!(e.port, 99);
    assert_eq!(e.ip_location_text, "");
    assert_eq!(e.method, "");
    assert_eq!(e.path_type, "proxy");
    assert_eq!(e.outcome, "--");
    assert!(e.blocked);
    assert!(parse_log_line("not-a-number\tx", None).is_none());
    assert_eq!(default_event_type(), "request");
    assert_eq!(normalize_event_type("unblock"), "unblock");
    assert_eq!(normalize_event_type("other"), "request");
    assert_eq!(path_type_label("system_info"), "系统信息");
    assert_eq!(path_type_label("x"), "普通代理");
}

#[test]
fn block_log_lists_newest_first_within_limit() {
    let store = BlockLogStore::new("data");
    assert_eq!(store.path(), "data/logs/block.log");
    let insert = BlockLogInsert {
        event_type: "block",
        timestamp_ms: 3000,
        server_id: "s1",
        server_name: "One",
        port: 1,
        method: "GET",
        path: "/p",
        path_type: "rate_limit_action",
        status_code: 429,
        outcome: "block_ip",
        duration_ms: 0,
        playback_user: "bob",
        playback_ip: "1.2.3.4",
        ip_location_text: "",
        cache_hit: false,
        detail: "too many",
    };
    let current = vec![
        (store.record(insert.clone(), "UTC"), None),
        (render_log_line(&entry(1000, "request", "a"), "UTC"), None),
        ("garbage".to_string(), None),
        (render_log_line(&entry(2000, "request", "b"), "UTC"), None),
    ];
    let older = vec![(render_log_line(&entry(5000, "request", "c"), "UTC"), None)];
    let all = store.list(vec![current.clone(), older.clone()], BlockLogFilter { limit: 10, ..Default::default() });
    let times = all.iter().map(|e| e.timestamp_ms).collect::<Vec<_>>();
    assert_eq!(times, vec![3000, 2000, 1000, 5000]);

    let limited = store.list(vec![current.clone(), older.clone()], BlockLogFilter { limit: 2, ..Default::default() });
    assert_eq!(limited.len(), 2);

    let filtered = store.list(
        vec![current, older],
        BlockLogFilter { keyword: Some("  TOO many "), limit: 0, ..Default::default() },
    );
    assert_eq!(filtered.len(), 1);
    assert_eq!(filtered[0].playback_user, "bob");

    let paths = store.log_paths();
    assert_eq!(paths.len(), 6);
    assert_eq!(paths[5], "data/logs/block.log.5");
    assert_eq!(backup_path("x.log", 2), "x.log.2");
    assert!(rotation_due(Some(MAX_BYTES)));
    assert!(!rotation_due(Some(MAX_BYTES - 1)));
    assert!(!rotation_due(None));
}

#[test]
fn login_failures_refuse_after_the_limit_within_the_window() {
    let mut failures = LoginFailures::new();
    for i in 0..LOGIN_FAILURE_LIMIT {
        assert!(failures.enforce_login_attempt_limit("1.2.3.4", 100).is_ok());
        failures.record_login_failure("1.2.3.4", 100 + i as i64);
    }
    assert_eq!(
        failures.enforce_login_attempt_limit("1.2.3.4", 110).unwrap_err(),
        "too many login attempts, please try again later"
    );
    assert!(failures.enforce_login_attempt_limit("5.6.7.8", 110).is_ok());
    assert!(failures.enforce_login_attempt_limit("1.2.3.4", 100 + 301 + 8).is_ok());
    failures.record_login_failure("9.9.9.9", 10);
    failures.clear_login_failures("9.9.9.9");
    assert!(failures.enforce_login_attempt_limit("9.9.9.9", 11).is_ok());
}

#[test]
fn credentials_and_bearer_tokens() {
    assert_eq!(validate_credentials("  ", "x").unwrap_err(), "username cannot be empty");
    assert_eq!(validate_credentials("admin", "").unwrap_err(), "password cannot be empty");
    assert!(validate_credentials("admin", "pw").is_ok());
    assert_eq!(bearer_token(Some("Bearer abc")).as_deref(), Some("abc"));
    assert_eq!(bearer_token(Some("bearer abc")), None);
    assert_eq!(auth_token(None).unwrap_err(), "missing authorization token");
    assert_eq!(hash_token("abc"), "ungWv48Bz-pBQUDeXa4iI7ADYaOWF3qctBD_YfIAFa0");
    assert_eq!(random_token().len(), 43);
}

#[test]
fn settings_cache_reads_back_writes() {
    let mut store = SettingsStore::new("data/embypanel.db");
    assert_eq!(store.settings_revision(), 0);
    assert_eq!(store.cached_setting("k"), None);
    store.remember_setting("k", None);
    assert_eq!(store.cached_setting("k"), Some(None));
    store.setting_saved("k", "{\"a\":1}".to_string());
    assert_eq!(store.cached_setting("k"), Some(Some("{\"a\":1}".to_string())));
    assert_eq!(store.settings_revision(), 1);
    store.setting_deleted("k");
    assert_eq!(store.cached_setting("k"), Some(None));
    assert_eq!(store.settings_revision(), 2);
}

#[test]
fn database_paths_and_counters() {
    assert_eq!(database_path(true), "/data/embypanel.db");
    assert_eq!(database_path(false), "data/embypanel.db");
    assert_eq!(data_dir(true), "/data");
    assert_eq!(data_dir(false), "data");
    assert_eq!(sqlite_i64(u128::MAX), i64::MAX);
    assert_eq!(sqlite_i64(7), 7);
    assert!(maintenance_due(7200, 3600));
    assert!(!maintenance_due(7199, 3600));
    assert!(maintenance_due(i64::MAX, i64::MIN));
    assert!(!maintenance_due(i64::MIN, i64::MAX));
    assert!(drop_is_reported(1));
    assert!(drop_is_reported(64));
    assert!(!drop_is_reported(0));
    assert!(!drop_is_reported(96));
    assert_eq!(RequestStatKind::CacheHit.delta(), (0, 0, 1, 0, 0));
    assert_eq!(RequestStatKind::Error.delta(), (0, 0, 0, 0, 1));
}

fn status(id: &str, ok: bool, error: Option<&str>) -> ConnectivityCheckStatus {
    ConnectivityCheckStatus {
        server_id: id.to_string(),
        server_name: "S".to_string(),
        port: 1,
        enabled: true,
        ok,
        emby_ok: ok,
        openlist_ok: None,
        proxy_ok: ok,
        checked_at_ms: 0,
        duration_ms: 0,
        failed_since_ms: None,
        auto_restarted_at_ms: None,
        last_error: error.map(str::to_string),
    }
}

#[test]
fn connectivity_reports_changes_once() {
    let mut monitor = ConnectivityMonitor::new();
    assert_eq!(monitor.status_change(&status("a", true, None)), StatusChange::Unchanged);
    assert_eq!(
        monitor.status_change(&status("a", false, Some("Emby: down"))),
        StatusChange::Failed("Emby: down".to_string())
    );
    assert_eq!(monitor.status_change(&status("a", false, Some("Emby: down"))), StatusChange::Unchanged);
    assert_eq!(monitor.status_change(&status("a", true, None)), StatusChange::Recovered);

    assert_eq!(monitor.update_proxy_failure_since("a", false, 100), Some(100));
    assert_eq!(monitor.update_proxy_failure_since("a", false, 200), Some(100));
    let mut failing = status("a", false, Some("x"));
    failing.failed_since_ms = Some(100);
    assert!(!monitor.auto_restart_due(&failing, 180, 100 + 179_999));
    assert!(monitor.auto_restart_due(&failing, 180, 100 + 180_000));
    monitor.update_restart_time("a", 180_100);
    assert!(!monitor.auto_restart_due(&failing, 180, 180_200));
    assert_eq!(monitor.update_proxy_failure_since("a", true, 300), None);

    let (ok, openlist_ok, error) = check_outcome(&Ok(()), &Err("连接 127.0.0.1:1 超时".to_string()), &Some(Err("t".to_string())));
    assert!(!ok);
    assert_eq!(openlist_ok, Some(false));
    assert_eq!(error.as_deref(), Some("反代端口: 连接 127.0.0.1:1 超时；OpenList: t"));
}

#[test]
fn settings_revision_counts_only_successful_writes() {
    let mut store = SettingsStore::new("data/embypanel.db");
    assert_eq!(store.settings_revision(), 0);
    assert!(store.finish_save("a", "1".to_string(), Ok(())).is_ok());
    assert_eq!(store.settings_revision(), 1);
    let refused = store.finish_save("b", "2".to_string(), Err(embypanel::error::AppError::Database("busy".to_string())));
    assert!(refused.is_err());
    assert_eq!(store.settings_revision(), 1);
    assert!(store.cached_setting("b").is_none());
    store.remember_setting("c", None);
    assert_eq!(store.settings_revision(), 1);
    assert!(store.finish_delete("a", Ok(())).is_ok());
    assert_eq!(store.settings_revision(), 2);
    assert_eq!(store.cached_setting("a"), Some(None));
    assert!(store.finish_delete("a", Err(embypanel::error::AppError::Database("locked".to_string()))).is_err());
    assert_eq!(store.settings_revision(), 2);
}
