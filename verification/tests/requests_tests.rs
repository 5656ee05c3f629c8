use embypanel::config::{Config, EmbyServerConfig};
use embypanel::db::{ProxyRequestDetailWrite, RequestStatKind};
use embypanel::emby::{
    clean_user_name, emby_api_url, find_user_by_name, playback_session_from, playback_sessions,
    user_lookup_from_value, user_name_of_device, NowPlaying, SessionReport,
};
use embypanel::error::{safe_reqwest_error_message, AppError, HttpFailure};
use embypanel::file_log::{rotation_steps, size_after_write, RotationStep};
use embypanel::gateway::{
    explicit_playback_user, media_route, playback_token, playback_user_id, stream_cache_key,
    MediaRoute,
};
use embypanel::internal_redirect::{check_probe_url, probe_user_agent, redirect_probe_result};
use embypanel::monitoring::{session_mode_source, ModeSource};
use embypanel::rewrite::{
    build_direct_stream_url, is_strm_media_source, patch_base_html_player, patch_playback_info,
    MediaSourceFields,
};
use embypanel::telemetry::{
    after_event, aggregate_request_stats, drop_reason, BatchAction, QueueEvent, SendOutcome,
    TelemetryWrite,
};

fn server(id: &str, name: &str) -> EmbyServerConfig {
    EmbyServerConfig {
        id: id.to_string(),
        name: name.to_string(),
        emby_host: "http://emby.test".to_string(),
        emby_api_key: "key".to_string(),
        port: 18096,
        enabled: true,
        block_web_ui: false,
        real_ip_mode: "auto".to_string(),
        real_ip_header: String::new(),
        trusted_proxy_cidrs: String::new(),
    }
}

#[test]
fn api_url_adds_key_without_dropping_path() {
    let mut config = Config::default_runtime();
    config.emby_host = "http://emby.example.test/base".to_string();
    config.emby_api_key = "secret key".to_string();

    let url = emby_api_url(&config, "/Users").expect("valid Emby URL");
    let url = url::Url::parse(&url).unwrap();
    assert_eq!(url.path(), "/Users");
    assert_eq!(
        url.query_pairs()
            .find(|(key, _)| key == "api_key")
            .map(|(_, value)| value.into_owned()),
        Some("secret key".to_string())
    );
}

#[test]
fn api_url_keeps_existing_query_and_reports_bad_host() {
    let mut config = Config::default_runtime();
    config.emby_host = "http://emby.example.test".to_string();
    config.emby_api_key = "k".to_string();
    assert_eq!(
        emby_api_url(&config, "/Sessions?Limit=5").unwrap(),
        "http://emby.example.test/Sessions?Limit=5&api_key=k"
    );
    config.emby_host = "not a url".to_string();
    assert!(matches!(emby_api_url(&config, "/Users"), Err(AppError::Url(_))));
}

#[test]
fn detects_strm_media_source() {
    assert!(is_strm_media_source(Some(true), Some(false)));
    assert!(!is_strm_media_source(Some(true), Some(true)));
    assert!(!is_strm_media_source(Some(false), None));
    assert!(is_strm_media_source(Some(true), None));
    assert!(!is_strm_media_source(None, None));
}

#[test]
fn patches_playback_info_for_strm_sources() {
    let sources = vec![MediaSourceFields {
        id: Some("source1".to_string()),
        is_remote: Some(true),
        is_infinite_stream: Some(false),
    }];
    let patched = patch_playback_info(&sources, "/Items/item1/PlaybackInfo", Some("DeviceId=d1"));
    let source = patched[0].as_ref().expect("strm source is patched");
    assert!(source.supports_direct_play);
    assert!(source.supports_direct_stream);
    assert!(!source.supports_transcoding);
    assert_eq!(
        source.direct_stream_url.as_deref(),
        Some("/videos/item1/stream?DeviceId=d1&MediaSourceId=source1&Static=true&api_key=")
    );
}

#[test]
fn playback_info_leaves_other_sources_and_paths_alone() {
    let sources = vec![
        MediaSourceFields { id: Some("a".to_string()), is_remote: Some(false), is_infinite_stream: None },
        MediaSourceFields { id: None, is_remote: Some(true), is_infinite_stream: None },
    ];
    let patched = patch_playback_info(&sources, "/Items/item1/PlaybackInfo", None);
    assert!(patched[0].is_none());
    let second = patched[1].as_ref().unwrap();
    assert!(second.direct_stream_url.is_none());
    let unpatched = patch_playback_info(&sources, "/System/Info", None);
    assert!(unpatched.iter().all(|p| p.is_none()));
}

#[test]
fn direct_stream_url_replaces_source_and_keeps_tokens() {
    assert_eq!(
        build_direct_stream_url("i", "s", Some("static=false&MediaSourceId=old&api_key=abc&x=1 2")),
        "/videos/i/stream?api_key=abc&x=1+2&MediaSourceId=s&Static=true"
    );
    assert_eq!(
        build_direct_stream_url("i", "s", Some("X-Emby-Token=t")),
        "/videos/i/stream?X-Emby-Token=t&MediaSourceId=s&Static=true"
    );
    assert_eq!(build_direct_stream_url("i", "s", None), "/videos/i/stream?MediaSourceId=s&Static=true&api_key=");
}

#[test]
fn base_html_player_drops_anonymous_cross_origin() {
    let body = r#"a=mediaSource.IsRemote && "DirectPlay" === playMethod ? null : "anonymous";b"#;
    assert_eq!(patch_base_html_player(body), "a=null;b");
    assert_eq!(patch_base_html_player("nothing"), "nothing");
}

#[test]
fn errors_answer_with_status_and_safe_message() {
    let db = AppError::Database("disk I/O error at /data/x".to_string());
    assert_eq!(db.status(), 500);
    assert_eq!(db.client_message(), "internal server error");
    assert_eq!(db.safe_log_message(), "database error: disk I/O error at /data/x");

    let http = AppError::Http(HttpFailure::Status("404 Not Found".to_string()));
    assert_eq!(http.status(), 502);
    assert_eq!(http.client_message(), "bad gateway");
    assert_eq!(http.safe_log_message(), "http client status error: 404 Not Found");

    let v = AppError::Validation("invalid item_id".to_string());
    assert_eq!(v.status(), 400);
    assert_eq!(v.client_message(), "invalid item_id");

    let u = AppError::Unauthorized("session expired".to_string());
    assert_eq!(u.status(), 401);
    assert_eq!(u.client_message(), "unauthorized");
    assert_eq!(u.safe_log_message(), "session expired");

    assert_eq!(AppError::PayloadTooLarge("big".to_string()).status(), 413);
    assert_eq!(AppError::RateLimited("slow".to_string()).status(), 429);
    assert_eq!(AppError::Url("bad".to_string()).safe_log_message(), "url error: bad");
    assert_eq!(AppError::Json("x".to_string()).safe_log_message(), "json error: x");
    assert_eq!(AppError::Io("y".to_string()).safe_log_message(), "io error: y");
    assert_eq!(safe_reqwest_error_message(&HttpFailure::Timeout), "http client timeout");
    assert_eq!(safe_reqwest_error_message(&HttpFailure::Other), "http client error");
}

fn stat(id: &str, name: &str, port: u16, kind: RequestStatKind) -> TelemetryWrite {
    TelemetryWrite::RequestStat {
        server_id: id.to_string(),
        server_name: name.to_string(),
        port,
        kind,
    }
}

fn detail() -> TelemetryWrite {
    TelemetryWrite::ProxyRequestDetail(ProxyRequestDetailWrite {
        timestamp_ms: 1,
        server_id: "a".to_string(),
        server_name: "A".to_string(),
        port: 1,
        method: "GET".to_string(),
        path: "/".to_string(),
        path_type: "general".to_string(),
        status_code: 200,
        outcome: "ok".to_string(),
        duration_ms: 1,
        playback_user: "--".to_string(),
        playback_ip: "--".to_string(),
        cache_hit: false,
        blocked: false,
        detail: String::new(),
    })
}

#[test]
fn telemetry_batch_sums_counters_per_server() {
    let writes = vec![
        stat("a", "A", 8097, RequestStatKind::Request),
        detail(),
        stat("b", "B", 8098, RequestStatKind::Block),
        stat("a", "A2", 8099, RequestStatKind::Request),
        stat("a", "A2", 8099, RequestStatKind::CacheHit),
        stat("b", "B", 8098, RequestStatKind::Error),
    ];
    let deltas = aggregate_request_stats(&writes);
    assert_eq!(deltas.len(), 2);
    assert_eq!(deltas[0].server_id, "a");
    assert_eq!(deltas[0].server_name, "A2");
    assert_eq!(deltas[0].port, 8099);
    assert_eq!(
        (deltas[0].requests, deltas[0].redirects, deltas[0].cache_hits, deltas[0].blocks, deltas[0].errors),
        (2, 0, 1, 0, 0)
    );
    assert_eq!(deltas[1].server_id, "b");
    assert_eq!(
        (deltas[1].requests, deltas[1].redirects, deltas[1].cache_hits, deltas[1].blocks, deltas[1].errors),
        (0, 0, 0, 1, 1)
    );
    assert!(aggregate_request_stats(&[detail()]).is_empty());
}

#[test]
fn telemetry_writer_batches_and_drops() {
    assert_eq!(after_event(0, QueueEvent::Write), BatchAction::Collect);
    assert_eq!(after_event(62, QueueEvent::Write), BatchAction::Collect);
    assert_eq!(after_event(63, QueueEvent::Write), BatchAction::Flush);
    assert_eq!(after_event(5, QueueEvent::Empty), BatchAction::Flush);
    assert_eq!(after_event(5, QueueEvent::Shutdown), BatchAction::FlushAndStop);
    assert_eq!(drop_reason(true, SendOutcome::Sent), Some("writer shutting down"));
    assert_eq!(drop_reason(false, SendOutcome::Sent), None);
    assert_eq!(drop_reason(false, SendOutcome::Full), Some("queue full"));
    assert_eq!(drop_reason(false, SendOutcome::Disconnected), Some("writer stopped"));
}

#[test]
fn log_rotation_shifts_backups_oldest_first() {
    assert_eq!(
        rotation_steps(3),
        vec![RotationStep::Remove(3), RotationStep::Shift(2), RotationStep::Shift(1), RotationStep::ShiftLive]
    );
    assert_eq!(rotation_steps(0), vec![RotationStep::Remove(1), RotationStep::ShiftLive]);
    assert_eq!(rotation_steps(500).len(), 100);
    assert_eq!(rotation_steps(500)[0], RotationStep::Remove(99));
    assert_eq!(size_after_write(10, 5), 15);
    assert_eq!(size_after_write(u64::MAX - 1, 5), u64::MAX);
}

#[test]
fn internal_redirect_probe_outcomes() {
    assert!(check_probe_url("http://a.example/x").is_ok());
    assert!(matches!(check_probe_url("relative/path"), Err(AppError::Url(_))));
    assert_eq!(
        redirect_probe_result("http://a.example/dir/file", 302, "302 Found", Some("../other?x=1"), "http://a.example/dir/file").unwrap(),
        "http://a.example/other?x=1"
    );
    assert_eq!(
        redirect_probe_result("http://a.example/f", 301, "301 Moved Permanently", Some("https://cdn.example/v.mkv"), "http://a.example/f").unwrap(),
        "https://cdn.example/v.mkv"
    );
    assert_eq!(
        redirect_probe_result("http://a.example/f", 200, "200 OK", None, "http://a.example/final").unwrap(),
        "http://a.example/final"
    );
    assert_eq!(
        redirect_probe_result("http://a.example/f", 304, "304 Not Modified", None, "http://a.example/f").unwrap(),
        "http://a.example/f"
    );
    match redirect_probe_result("http://a.example/f", 404, "404 Not Found", Some("/x"), "http://a.example/f") {
        Err(AppError::BadGateway(m)) => assert_eq!(m, "internal redirect probe returned 404 Not Found"),
        other => panic!("unexpected {:?}", other),
    }
    assert_eq!(probe_user_agent("  VLC/3  "), Some("VLC/3".to_string()));
    assert_eq!(probe_user_agent("   "), None);
}

fn report(device: &str, user: Option<&str>, playing: bool) -> SessionReport {
    SessionReport {
        id: Some(format!("s-{device}")),
        user_name: user.map(str::to_string),
        client: Some("Infuse".to_string()),
        device_name: None,
        device_id: Some(device.to_string()),
        application_version: Some("7.0".to_string()),
        playback_ip: Some("203.0.113.9".to_string()),
        now_playing: if playing {
            Some(NowPlaying {
                id: Some("item1".to_string()),
                series_id: None,
                name: None,
                series_name: Some("Show".to_string()),
                season_number: Some(1),
                episode_number: Some(2),
                item_type: Some("Episode".to_string()),
                runtime_ticks: Some(100),
            })
        } else {
            None
        },
        position_ticks: Some(50),
        play_method: Some("directplay".to_string()),
        media_source_id: None,
        has_transcoding_info: false,
        percent: Some(50),
    }
}

#[test]
fn sessions_are_built_from_playing_reports() {
    let s = playback_session_from(&report("d1", Some("alice"), true), &"srv".to_string(), &"Main".to_string())
        .expect("a playing session");
    assert_eq!(s.server_id, "srv");
    assert_eq!(s.id, "s-d1");
    assert_eq!(s.item_id, "item1");
    assert_eq!(s.user_name, "alice");
    assert_eq!(s.device_name, "Unknown");
    assert_eq!(s.item_name, "Unknown");
    assert_eq!(s.user_agent, "Infuse/7.0");
    assert_eq!(s.playback_mode, "emby_direct_play");
    assert!(!s.transcoding);
    assert_eq!(s.percent, Some(50));
    assert!(playback_session_from(&report("d2", None, false), &"srv".to_string(), &"Main".to_string()).is_none());

    let mut transcoding = report("d3", None, true);
    transcoding.has_transcoding_info = true;
    let t = playback_session_from(&transcoding, &"x".to_string(), &"y".to_string()).unwrap();
    assert!(t.transcoding);
    assert_eq!(t.playback_mode, "transcode");
    assert_eq!(t.user_name, "Unknown");

    let mut config = Config::default_runtime();
    config.servers = vec![server("main", "主服务器")];
    let reports = vec![report("a", Some("u1"), false), report("b", Some("u2"), true), report("c", Some("u3"), true)];
    let sessions = playback_sessions(&config, &reports);
    assert_eq!(sessions.len(), 2);
    assert_eq!(sessions[0].user_name, "u2");
    assert_eq!(sessions[1].user_name, "u3");
    assert_eq!(sessions[0].server_name, "主服务器");
    config.servers.clear();
    assert_eq!(playback_sessions(&config, &reports)[0].server_id, "default");
}

#[test]
fn user_lookups_by_device_and_name() {
    let reports = vec![report("d1", Some("  "), true), report("d2", Some(" bob "), false), report("d2", Some("carol"), true)];
    assert_eq!(user_name_of_device(&reports, " d2 "), Some("bob".to_string()));
    assert_eq!(user_name_of_device(&reports, "d1"), None);
    assert_eq!(user_name_of_device(&reports, "  "), None);
    assert_eq!(user_name_of_device(&reports, "zz"), None);

    assert_eq!(clean_user_name(Some("  x ")), Some("x".to_string()));
    assert_eq!(clean_user_name(Some("  ")), None);

    assert_eq!(user_lookup_from_value(Some(" Alice "), Some(" id1 "), "alice").unwrap().id, "id1");
    assert!(user_lookup_from_value(Some("Alice"), Some("  "), "alice").is_none());
    assert!(user_lookup_from_value(Some("Bob"), Some("id"), "alice").is_none());
    assert!(user_lookup_from_value(None, Some("id"), "alice").is_none());

    let users = vec![
        (Some("Alice".to_string()), None),
        (None, Some("x".to_string())),
        (Some("ALICE".to_string()), Some("id2".to_string())),
        (Some("alice".to_string()), Some("id3".to_string())),
    ];
    assert_eq!(find_user_by_name(&users, " alice ").unwrap().id, "id2");
    assert!(find_user_by_name(&users, "  ").is_none());
    assert!(find_user_by_name(&users, "dave").is_none());
}

#[test]
fn video_stream_routes_by_media_path() {
    let mut config = Config::default_runtime();
    config.openlist_addr = None;
    assert!(matches!(media_route(&config, "https://cdn.example/a.mkv"), MediaRoute::Redirect));
    match media_route(&config, "http://ol.example/d/movies/a%20b.mkv") {
        MediaRoute::Redirect => {}
        _ => panic!("direct links are followed without OpenList"),
    }
    assert!(matches!(media_route(&config, "/mnt/media/a.mkv"), MediaRoute::ProxyToEmby));
    config.openlist_addr = Some("http://ol.example".to_string());
    match media_route(&config, "http://ol.example/d/movies/a%20b.mkv") {
        MediaRoute::OpenList(p) => assert_eq!(p, "/movies/a b.mkv"),
        _ => panic!("OpenList links go through OpenList"),
    }
    assert!(matches!(media_route(&config, "https://cdn.example/a.mkv"), MediaRoute::Redirect));
    assert!(matches!(media_route(&config, "/mnt/media/a.mkv"), MediaRoute::ProxyToEmby));
    assert!(matches!(media_route(&config, "ftp://ol.example/d/a.mkv"), MediaRoute::OpenList(_)));
    config.openlist_addr = None;
    assert!(matches!(media_route(&config, "ftp://ol.example/d/a.mkv"), MediaRoute::ProxyToEmby));
    assert_eq!(stream_cache_key(None, "i", None, "UA"), "default:i:default:UA");
    assert_eq!(stream_cache_key(Some("p1"), "i", Some("s"), ""), "p1:i:s:");
}

#[test]
fn playback_user_sources_in_order() {
    assert_eq!(explicit_playback_user("UserName=%20bob&x=1"), Some(" bob".to_string()));
    assert_eq!(explicit_playback_user("UserName=%20%20"), None);
    assert_eq!(playback_user_id("UserId=q", Some("h"), None, None), Some("q".to_string()));
    assert_eq!(playback_user_id("", Some(" h "), None, None), Some("h".to_string()));
    assert_eq!(
        playback_user_id("", None, Some(r#"Client="x", UserId="u1", Token="t""#), None),
        Some("u1".to_string())
    );
    assert_eq!(playback_token("key", "api_key=%20tok%20", None, None, None, None, None), Some("tok".to_string()));
    assert_eq!(playback_token("key", "X-Emby-Token=key", None, None, None, None, None), None);
    assert_eq!(playback_token("key", "", None, Some("mb"), None, None, Some("Bearer b")), Some("mb".to_string()));
    assert_eq!(playback_token("key", "", None, None, None, None, Some("Bearer b")), Some("b".to_string()));
    assert_eq!(playback_token("key", "", None, None, None, None, None), None);
}

#[test]
fn session_modes_settle_in_order() {
    assert!(matches!(session_mode_source(true, Some("direct_link"), "transcode"), ModeSource::Keep));
    match session_mode_source(false, Some("direct_link"), "emby_direct_play") {
        ModeSource::Recorded(m) => assert_eq!(m, "direct_link"),
        _ => panic!("a recorded mode wins"),
    }
    assert!(matches!(session_mode_source(false, None, "emby_direct_stream"), ModeSource::Infer));
    assert!(matches!(session_mode_source(false, None, "unknown"), ModeSource::Keep));
}
