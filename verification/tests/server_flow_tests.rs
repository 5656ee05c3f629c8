use embypanel::config::{Config, EmbyServerConfig};
use embypanel::db::{AuditLogEntry, ProxyRequestDetailFilter, RequestStatsDaily};
use embypanel::queries::{detail_query, filter_audit_logs, SqlParam};
use embypanel::monitoring::{complete_request_stats, image_answer, is_image_content_type, playback_image_url};
use embypanel::settings_api::{backup_restore_mode, ok_result, port_check, repeated_ports, validation_outcome};
use embypanel::activity_log::{ActivityKind, ActivityLevel, ActivityLogStore};
use embypanel::block_log::format_time;
use embypanel::gateway::{stream_next, MediaRoute, StreamEvent, StreamStep, CACHE_HIT_LOG_MESSAGE};
use embypanel::ip_location::{check_downloaded_bytes, download_sha256};
use embypanel::users_api::chosen_template;
use embypanel::auth::{check_new_password, current_password_outcome, login_decision, LoginEvent};
use embypanel::client_control::webhooks::webhook_target;
use embypanel::connectivity::{
    issue_text, issue_title, restart_detail, restart_log_detail, ConnectivityCheckStatus,
};
use embypanel::error::AppError;
use embypanel::gateway::{
    blocked_request_detail, body_read_error, guarded_by_client_control, request_detail,
    request_handler, RequestHandler,
};
use embypanel::ip_location::{
    check_announced_length, check_download, configured_ipdb_url, count_chunk,
    DEFAULT_IPDB_DOWNLOAD_URL,
};
use embypanel::proxy_manager::{bind_error, reconcile_proxies, unknown_server_error};

fn status(error: Option<&str>) -> ConnectivityCheckStatus {
    ConnectivityCheckStatus {
        server_id: "s1".to_string(),
        server_name: "客厅".to_string(),
        port: 8097,
        enabled: true,
        ok: error.is_none(),
        emby_ok: true,
        openlist_ok: None,
        proxy_ok: false,
        checked_at_ms: 1700000000123,
        duration_ms: 5,
        failed_since_ms: None,
        auto_restarted_at_ms: None,
        last_error: error.map(str::to_string),
    }
}

#[test]
fn connectivity_reports_name_port_time_and_error() {
    let s = status(Some("Emby: 超时"));
    assert_eq!(issue_title(&s), "客厅 连通性异常");
    assert_eq!(issue_text(&s), "服务器：客厅\n端口：8097\n检查时间：1700000000123\n异常：Emby: 超时");
    assert_eq!(issue_text(&status(None)), "服务器：客厅\n端口：8097\n检查时间：1700000000123\n异常：");
    assert_eq!(restart_detail(180), "连续无响应 180 秒");
    assert_eq!(restart_log_detail(&s), "客厅 :8097");
}

#[test]
fn ipdb_download_limits_and_digest() {
    assert_eq!(configured_ipdb_url(None).unwrap(), DEFAULT_IPDB_DOWNLOAD_URL);
    assert_eq!(configured_ipdb_url(Some("   ")).unwrap(), DEFAULT_IPDB_DOWNLOAD_URL);
    assert_eq!(configured_ipdb_url(Some(" https://x.example/a.ipdb ")).unwrap(), "https://x.example/a.ipdb");
    match configured_ipdb_url(Some("ftp://x.example/a")) {
        Err(AppError::Config(m)) => assert_eq!(m, "EMBYPANEL_IPDB_URL must use http or https"),
        other => panic!("unexpected {:?}", other),
    }
    assert!(matches!(configured_ipdb_url(Some("not a url")), Err(AppError::Url(_))));

    assert!(check_announced_length(None, 10).is_ok());
    assert!(check_announced_length(Some(10), 10).is_ok());
    match check_announced_length(Some(11), 10) {
        Err(AppError::BadGateway(m)) => assert_eq!(m, "IP database exceeds the configured 10 byte limit"),
        other => panic!("unexpected {:?}", other),
    }
    assert_eq!(count_chunk(4, 6, 10).unwrap(), 10);
    assert!(matches!(count_chunk(4, 7, 10), Err(AppError::BadGateway(_))));
    match count_chunk(u64::MAX, 1, u64::MAX) {
        Err(AppError::BadGateway(m)) => assert_eq!(m, "IP database is too large"),
        other => panic!("unexpected {:?}", other),
    }
    match check_download(0, "ab", None) {
        Err(AppError::BadGateway(m)) => assert_eq!(m, "downloaded IP database is empty"),
        other => panic!("unexpected {:?}", other),
    }
    match check_download(5, "ab", Some("cd")) {
        Err(AppError::BadGateway(m)) => assert_eq!(m, "downloaded IP database SHA-256 does not match"),
        other => panic!("unexpected {:?}", other),
    }
    assert!(check_download(5, "ab", Some("ab")).is_ok());
    assert!(check_download(5, "ab", None).is_ok());
}

#[test]
fn sign_in_counts_failures_and_clears_them_on_success() {
    let missing = login_decision(LoginEvent::AdminMissing);
    assert!(missing.record_failure && !missing.clear_failures);
    assert!(matches!(missing.error, Some(AppError::Unauthorized(ref m)) if m == "invalid username or password"));
    let wrong = login_decision(LoginEvent::PasswordChecked(Err(AppError::Unauthorized("invalid username or password".to_string()))));
    assert!(wrong.record_failure);
    let broken = login_decision(LoginEvent::PasswordChecked(Err(AppError::Internal("hash".to_string()))));
    assert!(!broken.record_failure);
    assert!(matches!(broken.error, Some(AppError::Internal(_))));
    let ok = login_decision(LoginEvent::PasswordChecked(Ok(())));
    assert!(ok.error.is_none() && !ok.record_failure && !ok.clear_failures);
    let refused = login_decision(LoginEvent::SessionCreated(false));
    assert!(refused.record_failure && refused.error.is_some());
    let created = login_decision(LoginEvent::SessionCreated(true));
    assert!(created.clear_failures && created.error.is_none() && !created.record_failure);

    assert!(check_new_password("x").is_ok());
    assert!(matches!(check_new_password(""), Err(AppError::Validation(ref m)) if m == "new password cannot be empty"));
    assert!(matches!(
        current_password_outcome(Err(AppError::Unauthorized("no".to_string()))),
        Err(AppError::Validation(ref m)) if m == "current password is incorrect"
    ));
    assert!(matches!(current_password_outcome(Err(AppError::Io("disk".to_string()))), Err(AppError::Io(_))));
    assert!(current_password_outcome(Ok(())).is_ok());
}

#[test]
fn webhook_targets_are_checked_before_sending() {
    let (url, secret) = webhook_target(" https://hook.example/x ", Some("  s3cret ")).unwrap();
    assert_eq!(url, "https://hook.example/x");
    assert_eq!(secret.as_deref(), Some("s3cret"));
    assert_eq!(webhook_target("http://h.example", Some("  ")).unwrap().1, None);
    assert!(matches!(webhook_target("  ", None), Err(AppError::Validation(ref m)) if m == "webhook url cannot be empty"));
    assert!(matches!(webhook_target("ftp://h.example", None), Err(AppError::Validation(ref m)) if m == "webhook url must use http or https"));
    match webhook_target("not a url", None) {
        Err(AppError::Validation(m)) => assert!(m.starts_with("invalid webhook url: ")),
        other => panic!("unexpected {:?}", other),
    }
}

#[test]
fn requests_are_dispatched_by_path() {
    assert_eq!(request_handler("/web/modules/htmlvideoplayer/basehtmlplayer.js", false), RequestHandler::BaseHtmlPlayer);
    assert_eq!(request_handler("/emby/System/Info", false), RequestHandler::SystemInfo);
    assert_eq!(request_handler("/Items/1/PlaybackInfo", false), RequestHandler::PlaybackInfo);
    assert_eq!(request_handler("/videos/1/stream.mkv", false), RequestHandler::VideoStream);
    assert_eq!(request_handler("/videos/1/stream.mkv", true), RequestHandler::Proxy);
    assert_eq!(request_handler("/Users/Me", false), RequestHandler::Proxy);
    assert!(guarded_by_client_control("/emby/videos/1/original.mp4"));
    assert!(guarded_by_client_control("/Items/1/PlaybackInfo"));
    assert!(!guarded_by_client_control("/System/Info"));
    assert!(matches!(body_read_error("Length Limit exceeded"), AppError::PayloadTooLarge(ref m) if m == "request body is too large"));
    assert!(matches!(body_read_error("reset"), AppError::Internal(ref m) if m == "failed to read request body: reset"));
    assert_eq!(request_detail("GET", "/Users?x=1"), "GET /Users?x=1");
    assert_eq!(blocked_request_detail("GET", "/videos/1/stream"), "GET /videos/1/stream 命中 UA 拦截规则");
}

fn pairs(items: &[(&str, u16)]) -> Vec<(String, u16)> {
    items.iter().map(|(id, port)| (id.to_string(), *port)).collect()
}

#[test]
fn proxy_listeners_follow_enabled_servers() {
    let (stop, start) = reconcile_proxies(
        &pairs(&[("a", 8097), ("b", 8098), ("gone", 9000)]),
        &pairs(&[("a", 8097), ("b", 8099), ("new", 8100)]),
    );
    assert_eq!(stop, vec!["gone".to_string()]);
    assert_eq!(start, pairs(&[("b", 8099), ("new", 8100)]));
    let (stop, start) = reconcile_proxies(&pairs(&[]), &pairs(&[("a", 1), ("a", 1)]));
    assert!(stop.is_empty());
    assert_eq!(start, pairs(&[("a", 1)]));
    assert!(matches!(bind_error(8097, "in use"), AppError::Config(ref m) if m == "failed to bind Emby proxy port 8097: in use"));
    assert!(matches!(unknown_server_error("x"), AppError::Config(ref m) if m == "server x is not enabled or does not exist"));
}

#[test]
fn request_stats_fill_missing_servers_and_sort_by_name() {
    fn row(id: &str, name: &str, requests: i64) -> RequestStatsDaily {
        RequestStatsDaily {
            date: "2026-01-02".to_string(),
            server_id: id.to_string(),
            server_name: name.to_string(),
            port: 1,
            requests,
            redirects: 0,
            cache_hits: 0,
            blocks: 0,
            errors: 0,
            updated_at_ms: 7,
        }
    }
    fn server(id: &str, name: &str, port: u16) -> EmbyServerConfig {
        let mut config = Config::default_runtime();
        config.port = port;
        EmbyServerConfig {
            id: id.to_string(),
            name: name.to_string(),
            emby_host: "http://e.test".to_string(),
            emby_api_key: "k".to_string(),
            port: config.port,
            enabled: true,
            block_web_ui: false,
            real_ip_mode: "auto".to_string(),
            real_ip_header: String::new(),
            trusted_proxy_cidrs: String::new(),
        }
    }
    let rows = vec![row("b", "Beta", 3), row("a", "Alpha", 5)];
    let servers = vec![server("a", "Alpha", 1), server("c", "Alpha", 8099), server("d", "Aardvark", 8100)];
    let out = complete_request_stats(&rows, &servers, "2026-01-02");
    let names: Vec<(&str, &str, i64)> = out.iter().map(|r| (r.server_id.as_str(), r.server_name.as_str(), r.requests)).collect();
    assert_eq!(names, vec![("d", "Aardvark", 0), ("a", "Alpha", 5), ("c", "Alpha", 0), ("b", "Beta", 3)]);
    assert_eq!(out[0].date, "2026-01-02");
    assert_eq!(out[0].port, 8100);
    assert_eq!(out[0].updated_at_ms, 0);
    assert_eq!(out[1].updated_at_ms, 7);
}

#[test]
fn playback_images_are_checked() {
    let mut config = Config::default_runtime();
    config.emby_host = "http://emby.test:8096".to_string();
    assert_eq!(
        playback_image_url(&config, "abc").unwrap(),
        "http://emby.test:8096/Items/abc/Images/Primary?maxWidth=640&quality=90"
    );
    assert_eq!(image_answer(404, "404 Not Found").unwrap(), false);
    assert_eq!(image_answer(200, "200 OK").unwrap(), true);
    assert!(matches!(image_answer(500, "500 Internal Server Error"), Err(AppError::BadGateway(ref m)) if m == "Emby playback image query failed with status 500 Internal Server Error"));
    assert!(is_image_content_type("  IMAGE/JPEG "));
    assert!(!is_image_content_type("text/html"));
}

#[test]
fn request_detail_query_follows_the_filter() {
    use_detail_query();
}

fn use_detail_query() {
    let q = detail_query(&ProxyRequestDetailFilter {
        server_id: Some("s1"),
        path_type: None,
        keyword: Some("  VLC "),
        since_ms: Some(5),
        until_ms: None,
        limit: 0,
    });
    assert!(q.where_clause.starts_with("WHERE server_id = ? AND timestamp_ms >= ? AND (lower(server_name) LIKE ?"));
    assert_eq!(q.params.len(), 10);
    assert_eq!(q.params[0], SqlParam::Text("s1".to_string()));
    assert_eq!(q.params[1], SqlParam::Int(5));
    assert_eq!(q.params[9], SqlParam::Text("%vlc%".to_string()));
    assert_eq!(q.limit, 1);
    let empty = detail_query(&ProxyRequestDetailFilter {
        server_id: None,
        path_type: None,
        keyword: Some("   "),
        since_ms: None,
        until_ms: None,
        limit: 9999,
    });
    assert_eq!(empty.where_clause, "");
    assert!(empty.params.is_empty());
    assert_eq!(empty.limit, 500);
}

fn audit(id: i64, user: &str, action: &str, summary: &str) -> AuditLogEntry {
    AuditLogEntry {
        id,
        timestamp_ms: id as u128,
        admin_user_id: Some(1),
        admin_username: user.to_string(),
        action: action.to_string(),
        summary: summary.to_string(),
        result: "success".to_string(),
    }
}

#[test]
fn audit_logs_filter_by_action_and_keyword() {
    let entries = || {
        vec![
            audit(1, "admin", "user.create", "创建 Emby 用户：a"),
            audit(2, "admin", "account.password", "修改管理员密码"),
            audit(3, "Root", "user.create", "创建 Emby 用户：b"),
        ]
    };
    let ids = |v: Vec<AuditLogEntry>| v.into_iter().map(|e| e.id).collect::<Vec<_>>();
    assert_eq!(ids(filter_audit_logs(entries(), Some("user.create"), None, 10)), vec![1, 3]);
    assert_eq!(ids(filter_audit_logs(entries(), Some("all"), Some("ROOT"), 10)), vec![3]);
    assert_eq!(ids(filter_audit_logs(entries(), None, None, 0)), vec![1]);
    assert_eq!(ids(filter_audit_logs(entries(), None, Some("admin "), 10)), vec![1, 2]);
    assert!(filter_audit_logs(entries(), None, Some(" admin"), 10).is_empty());
}

#[test]
fn settings_validation_checks_ports() {
    use_settings_checks();
}

fn use_settings_checks() {
    let mk = |port: u16| EmbyServerConfig {
        id: format!("s{port}"),
        name: format!("n{port}"),
        emby_host: "http://e.test".to_string(),
        emby_api_key: "k".to_string(),
        port,
        enabled: true,
        block_web_ui: false,
        real_ip_mode: "auto".to_string(),
        real_ip_header: String::new(),
        trusted_proxy_cidrs: String::new(),
    };
    let servers = vec![mk(8097), mk(8098), mk(8097), mk(8097)];
    assert_eq!(repeated_ports(&servers), vec![false, false, true, true]);
    let r = port_check("客厅", 8097, true, true, true);
    assert!(!r.ok);
    assert_eq!(r.message, "反代端口重复");
    assert_eq!(r.detail, "端口 8097");
    let r = port_check("客厅", 8097, false, true, false);
    assert!(r.ok);
    assert_eq!(r.message, "反代端口正在由当前服务监听");
    assert_eq!(r.detail, "0.0.0.0:8097");
    assert_eq!(port_check("x", 1, false, false, true).message, "反代端口可用");
    let taken = port_check("x", 1, false, false, false);
    assert!(!taken.ok);
    assert_eq!(taken.message, "反代端口已被占用");
    assert_eq!(validation_outcome(&vec![ok_result("a", "b", ""), taken]), (false, "warn"));
    assert_eq!(validation_outcome(&vec![ok_result("a", "b", "")]), (true, "success"));
    assert_eq!(backup_restore_mode(1).unwrap(), false);
    assert_eq!(backup_restore_mode(2).unwrap(), true);
    assert!(matches!(backup_restore_mode(3), Err(AppError::Validation(ref m)) if m == "unsupported backup schema version 3"));
}

#[test]
fn stream_steps_come_in_order() {
    use_stream_steps();
}

fn use_stream_steps() {
    let mut config = Config::default_runtime();
    assert!(matches!(stream_next(&config, StreamEvent::ItemParsed(false)), StreamStep::BadRequest));
    assert!(matches!(stream_next(&config, StreamEvent::ItemParsed(true)), StreamStep::CheckRate));
    assert!(matches!(stream_next(&config, StreamEvent::RateChecked(true)), StreamStep::TooManyRequests));
    assert!(matches!(stream_next(&config, StreamEvent::RateChecked(false)), StreamStep::LookUpCache));
    match stream_next(&config, StreamEvent::CacheLooked(Some("https://cdn.example/a.mkv".to_string()))) {
        StreamStep::RedirectCached(link) => assert_eq!(link, "https://cdn.example/a.mkv"),
        other => panic!("unexpected {:?}", other),
    }
    assert_eq!(CACHE_HIT_LOG_MESSAGE, "直链缓存命中");
    assert!(matches!(stream_next(&config, StreamEvent::CacheLooked(None)), StreamStep::ReadMediaPath));
    config.cache_ttl_seconds = 0;
    assert!(matches!(
        stream_next(&config, StreamEvent::CacheLooked(Some("https://cdn.example/a.mkv".to_string()))),
        StreamStep::ReadMediaPath
    ));
    assert!(matches!(stream_next(&config, StreamEvent::MediaPathRead(None)), StreamStep::ProxyToEmby));
    assert!(matches!(
        stream_next(&config, StreamEvent::MediaPathRead(Some("https://cdn.example/b.mkv".to_string()))),
        StreamStep::Route(MediaRoute::Redirect)
    ));
    assert!(matches!(
        stream_next(&config, StreamEvent::MediaPathRead(Some("/mnt/b.mkv".to_string()))),
        StreamStep::Route(MediaRoute::ProxyToEmby)
    ));
}

#[test]
fn downloaded_bytes_are_hashed_and_checked() {
    assert_eq!(
        download_sha256(b"abc"),
        "ba7816bf8f01cfea414140de5dae2223b00361a396177a9cb410ff61f20015ad"
    );
    assert!(check_downloaded_bytes(b"abc", Some("ba7816bf8f01cfea414140de5dae2223b00361a396177a9cb410ff61f20015ad")).is_ok());
    assert!(check_downloaded_bytes(b"abc", None).is_ok());
    assert!(matches!(check_downloaded_bytes(b"abc", Some("00")), Err(AppError::BadGateway(ref m)) if m == "downloaded IP database SHA-256 does not match"));
    assert!(matches!(check_downloaded_bytes(b"", None), Err(AppError::BadGateway(ref m)) if m == "downloaded IP database is empty"));
}

#[test]
fn new_users_start_from_the_named_template() {
    let templates = vec![
        ("s1".to_string(), "t1".to_string()),
        ("s2".to_string(), "t2".to_string()),
        ("s2".to_string(), "t2".to_string()),
    ];
    assert_eq!(chosen_template(&templates, "s2", Some(" t2 ")).unwrap(), Some(1));
    assert_eq!(chosen_template(&templates, "s2", None).unwrap(), None);
    assert_eq!(chosen_template(&templates, "s2", Some("  ")).unwrap(), None);
    assert!(matches!(chosen_template(&templates, "s1", Some("t2")), Err(AppError::Validation(ref m)) if m == "user template not found"));
}

#[test]
fn activity_log_ids_rise_and_the_latest_stay() {
    let mut log = ActivityLogStore::new(2);
    for i in 0..5 {
        log.record(ActivityKind::General, ActivityLevel::Info, None, "s", format!("m{i}"), String::new());
    }
    let entries = log.list_filtered(embypanel::activity_log::ActivityLogFilter {
        server_id: None,
        kind: None,
        level: None,
        keyword: None,
        since_ms: None,
        until_ms: None,
        limit: 10,
    });
    let ids: Vec<u64> = entries.iter().map(|e| e.id).collect();
    assert_eq!(ids, vec![5, 4]);
}

#[test]
fn moments_chrono_cannot_hold_format_as_1970() {
    assert_eq!(format_time(9_000_000_000_000_000, "UTC"), "1970/1/1 00:00:00");
    assert_eq!(format_time(0, "UTC"), "1970/1/1 00:00:00");
}
