use embypanel::config::Config;
use embypanel::gateway::{
    cache_decision, cache_filter_entries, cache_ttl_label, emby_authorization_value,
    emby_token_from_authorization, forwarded_header_value, header_value, is_direct_url,
    media_browser_auth_value, param_in_pairs, parse_utc_offset, playback_device_id,
    playback_stream_query, playback_user_key, proxy_base_url, query_param,
    redirect_log_message, should_cache_direct_link, should_record_general_request,
    tz_offset_seconds, wildcard_match,
};

fn test_config() -> Config {
    let mut config = Config::default_runtime();
    config.emby_host = "http://emby.test".to_string();
    config.emby_api_key = "emby-key".to_string();
    config.openlist_addr = Some("http://openlist.test".to_string());
    config.openlist_token = Some("openlist-token".to_string());
    config.port = 18096;
    config.cache_ttl_seconds = 180;
    config.cache_max_capacity = 10_000;
    config.cache_domain_filter_mode = "off".to_string();
    config
}

#[test]
fn query_param_finds_case_insensitive_keys() {
    assert_eq!(
        query_param("MediaSourceId=abc&DeviceId=d", "mediasourceid").as_deref(),
        Some("abc")
    );
}

#[test]
fn media_browser_auth_value_extracts_token_fields() {
    let value = r#"MediaBrowser Client="Emby Web", DeviceId="device-1", Token="token-1", UserId="user-1""#;
    assert_eq!(media_browser_auth_value(value, "deviceid").as_deref(), Some("device-1"));
    assert_eq!(media_browser_auth_value(value, "Token").as_deref(), Some("token-1"));
    assert_eq!(media_browser_auth_value(value, "UserId").as_deref(), Some("user-1"));
}

#[test]
fn playback_stream_query_carries_auth_context_from_headers() {
    let auth = r#"MediaBrowser Client="Emby Web", DeviceId="device-1", UserId="user-1""#;

    let query = playback_stream_query("MediaSourceId=source-1", None, None, Some(auth), None).unwrap();
    assert_eq!(query_param(&query, "UserId").as_deref(), Some("user-1"));
    assert_eq!(query_param(&query, "DeviceId").as_deref(), Some("device-1"));
}

#[test]
fn direct_url_detection_accepts_http_and_https_only() {
    assert!(is_direct_url("http://cdn.example.test/a.mkv"));
    assert!(is_direct_url("https://cdn.example.test/a.mkv"));
    assert!(!is_direct_url("/media/a.mkv"));
}

#[test]
fn cache_domain_filters_match_host_only() {
    let mut config = test_config();
    config.cache_domain_filter_mode = "whitelist".to_string();
    config.cache_domain_whitelist = "*.115cdn.*".to_string();
    assert!(should_cache_direct_link(&config, "https://video.115cdn.com/path/file.mkv"));
    assert!(!should_cache_direct_link(&config, "https://example.com/path/115cdn/file.mkv"));

    config.cache_domain_filter_mode = "blacklist".to_string();
    config.cache_domain_whitelist = "sharepoint\n115".to_string();
    assert!(!should_cache_direct_link(&config, "https://hope.sharepoint.cn/download.aspx"));
    assert!(should_cache_direct_link(&config, "https://cdn.example.com/a.mkv"));
}

#[test]
fn proxy_base_url_uses_forwarded_headers_first() {
    assert_eq!(
        proxy_base_url(Some("https"), Some("media.example.com"), Some("10.0.0.74:8096"), 8096),
        "https://media.example.com"
    );
}

#[test]
fn proxy_base_url_falls_back_to_host_header() {
    assert_eq!(proxy_base_url(None, None, Some("10.0.0.74:8096"), 8096), "http://10.0.0.74:8096");
}

#[test]
fn log_timer_respects_common_tz_values() {
    assert_eq!(tz_offset_seconds("Asia/Shanghai"), 8 * 3600);
    assert_eq!(tz_offset_seconds("UTC+08:00"), 8 * 3600);
    assert_eq!(tz_offset_seconds("UTC"), 0);
}

#[test]
fn utc_offsets_parse_signs_hours_and_minutes() {
    assert_eq!(parse_utc_offset("+05:30"), Some(5 * 3600 + 30 * 60));
    assert_eq!(parse_utc_offset("GMT-3"), Some(-3 * 3600));
    assert_eq!(parse_utc_offset("+24"), None);
    assert_eq!(parse_utc_offset("8"), None);
    assert_eq!(tz_offset_seconds("Europe/Berlin"), 0);
    assert_eq!(tz_offset_seconds(" prc "), 8 * 3600);
}

#[test]
fn general_requests_skip_web_client_and_assets() {
    assert!(should_record_general_request("/Items/abc/PlaybackInfo"));
    assert!(!should_record_general_request("/web/index.html"));
    assert!(!should_record_general_request("/emby/Web/app.js"));
    assert!(!should_record_general_request("/Items/abc/Images/Primary.PNG"));
}

#[test]
fn cache_labels_and_redirect_messages() {
    assert_eq!(cache_ttl_label(180), "3m");
    assert_eq!(cache_ttl_label(90), "90s");
    assert_eq!(cache_ttl_label(0), "0s");
    let config = test_config();
    assert_eq!(redirect_log_message(&config, false), "重定向 strm");
    assert_eq!(redirect_log_message(&config, true), "重定向 strm(缓存3m)");
}

#[test]
fn wildcard_patterns_anchor_at_ends() {
    assert!(wildcard_match("video.115cdn.com", "*.115cdn.*"));
    assert!(wildcard_match("abc", "a*c"));
    assert!(!wildcard_match("xabc", "a*c"));
    assert!(!wildcard_match("abcx", "a*c"));
    assert!(wildcard_match("same", "same"));
}

#[test]
fn cache_filter_entries_keep_hosts_in_lower_case() {
    assert_eq!(
        cache_filter_entries(" https://CDN.Example.com/x \n\nSharePoint\n"),
        vec!["cdn.example.com", "sharepoint"]
    );
    assert!(!cache_decision(0, "off", &vec![], Some("a.test".to_string())));
    assert!(!cache_decision(60, "off", &vec![], None));
    assert!(!cache_decision(60, "whitelist", &vec![], Some("a.test".to_string())));
    assert!(cache_decision(60, "blacklist", &vec![], Some("a.test".to_string())));
}

#[test]
fn header_values_and_tokens() {
    assert_eq!(header_value(Some("  abc ")).as_deref(), Some("abc"));
    assert_eq!(header_value(Some("   ")), None);
    assert_eq!(header_value(None), None);
    assert_eq!(emby_token_from_authorization(Some("Bearer  tok ")).as_deref(), Some("tok"));
    assert_eq!(
        emby_token_from_authorization(Some(r#"MediaBrowser Client="x", Token="t-1""#)).as_deref(),
        Some("t-1")
    );
    assert_eq!(emby_token_from_authorization(Some("Bearer ")), None);
    assert_eq!(emby_token_from_authorization(Some("Basic abc")), None);
    assert_eq!(
        emby_authorization_value(None, Some(r#"MediaBrowser Client="x", UserId="u-2""#), "userid").as_deref(),
        Some("u-2")
    );
    assert_eq!(forwarded_header_value(Some(" a.test , b.test")).as_deref(), Some("a.test"));
}

#[test]
fn playback_device_prefers_query_then_headers() {
    assert_eq!(
        playback_device_id("DeviceId=q", Some("h"), Some(r#"MediaBrowser Client="x", DeviceId="a""#), None).as_deref(),
        Some("q")
    );
    assert_eq!(
        playback_device_id("x=1", Some(" h "), Some(r#"MediaBrowser Client="x", DeviceId="a""#), None).as_deref(),
        Some("h")
    );
    assert_eq!(
        playback_device_id("x=1", None, Some(r#"MediaBrowser Client="x", DeviceId="a""#), None).as_deref(),
        Some("a")
    );
    assert_eq!(playback_stream_query("", None, None, None, None), None);
}

#[test]
fn playback_user_keys_name_the_first_server() {
    let config = test_config();
    assert_eq!(playback_user_key(&config, " dev "), "default:dev");
    let pairs = vec![("a".to_string(), "1".to_string()), ("A".to_string(), "2".to_string())];
    assert_eq!(param_in_pairs(&pairs, "a").as_deref(), Some("1"));
}
