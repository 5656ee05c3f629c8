use embypanel::activity_log::{ActivityKind, ActivityLevel, ActivityLogStore};
use embypanel::emby::emby_playback_mode;
use embypanel::ip_location::{is_private_or_local_ip, sha256_hex, IpAddress, IpLocation};
use embypanel::monitoring::{csv_escape, is_valid_item_id};
use embypanel::openlist::{cache_key, ensure_raw_url, extract_openlist_path};
use embypanel::rewrite::parse_item_id;
use embypanel::url_mapping::{apply_rules, parse_rules};
use embypanel::users_api::{normalize_user_policies, UserPoliciesDocument, UserPolicyRecord};

#[test]
fn keeps_latest_entries_with_filters() {
    let mut store = ActivityLogStore::new(2);
    store.record(ActivityKind::General, ActivityLevel::Info, Some("a"), "A", "one".to_string(), "".to_string());
    store.record(ActivityKind::Playback, ActivityLevel::Info, Some("b"), "B", "two".to_string(), "".to_string());
    store.record(ActivityKind::General, ActivityLevel::Warn, Some("a"), "A", "three".to_string(), "".to_string());

    let all = store.list(None, None, 10);
    assert_eq!(all.len(), 2);
    assert_eq!(all[0].message, "three");
    assert_eq!(all[1].message, "two");
    assert_eq!(store.list(Some("a"), Some(ActivityKind::General), 10).len(), 1);
}

#[test]
fn playback_mode_normalizes_emby_methods_and_transcoding() {
    assert_eq!(emby_playback_mode(Some("DirectPlay"), false), "emby_direct_play");
    assert_eq!(emby_playback_mode(Some("DirectStream"), false), "emby_direct_stream");
    assert_eq!(emby_playback_mode(Some("Transcode"), false), "transcode");
    assert_eq!(emby_playback_mode(Some("DirectPlay"), true), "transcode");
    assert_eq!(emby_playback_mode(None, false), "unknown");
}

#[test]
fn private_location_display_is_clean() {
    let location = IpLocation {
        country_name: "IANA".to_string(),
        region_name: "局域网IP".to_string(),
        city_name: "Private-Use".to_string(),
        district_name: String::new(),
        isp_domain: String::new(),
    };

    assert_eq!(location.display_text(), "内网 IP");
}

#[test]
fn detects_private_and_local_ips() {
    assert!(is_private_or_local_ip(&IpAddress::V4([10, 0, 0, 3])));
    assert!(is_private_or_local_ip(&IpAddress::V4([192, 168, 1, 2])));
    assert!(is_private_or_local_ip(&IpAddress::V4([172, 16, 0, 1])));
    assert!(is_private_or_local_ip(&IpAddress::V4([127, 0, 0, 1])));
    assert!(is_private_or_local_ip(&IpAddress::V6([0xfc00, 0, 0, 0, 0, 0, 0, 1])));
    assert!(!is_private_or_local_ip(&IpAddress::V4([192, 0, 2, 1])));
}

#[test]
fn playback_image_item_id_validation_is_strict() {
    assert!(is_valid_item_id("item-123_ABC"));
    assert!(is_valid_item_id(&"a".repeat(128)));
    assert!(!is_valid_item_id(""));
    assert!(!is_valid_item_id(&"a".repeat(129)));
    assert!(!is_valid_item_id("item/123"));
    assert!(!is_valid_item_id("媒体-123"));
}

#[test]
fn extracts_and_decodes_openlist_path() {
    let path = extract_openlist_path("http://openlist.local/d/movie/%E6%B5%8B%E8%AF%95.mkv");
    assert_eq!(path.as_deref(), Some("/movie/测试.mkv"));
}

#[test]
fn rejects_non_openlist_download_path() {
    assert_eq!(extract_openlist_path("http://openlist.local/file/a.mkv"), None);
}

#[test]
fn cache_key_uses_default_source() {
    assert_eq!(cache_key("abc", None, "ua"), "abc:default:ua".to_string());
}

#[test]
fn ensure_raw_url_requires_http_or_https() {
    assert!(ensure_raw_url(Some("https://cdn.example.test/a.mkv".to_string())).is_ok());
    assert!(ensure_raw_url(Some("file:///etc/passwd".to_string())).is_err());
    assert!(ensure_raw_url(Some("/relative/path".to_string())).is_err());
}

#[test]
fn parses_item_ids_from_video_and_item_paths() {
    assert_eq!(parse_item_id("/videos/abc/stream").as_deref(), Some("abc"));
    assert_eq!(parse_item_id("/Items/xyz/PlaybackInfo").as_deref(), Some("xyz"));
}

#[test]
fn parses_and_applies_url_mapping_rules() {
    let rules = parse_rules("https://source.example.com => http://media-gateway.local:5244").unwrap();
    let mapped = apply_rules("https://source.example.com/d/videos/movie.mkv", &rules);

    assert_eq!(mapped, "http://media-gateway.local:5244/d/videos/movie.mkv");
}

#[test]
fn keeps_compatibility_with_escaped_dot_literal_rules() {
    let rules = parse_rules("https://source\\.example\\.com => http://media-gateway.local:5244").unwrap();
    let mapped = apply_rules("https://source.example.com/d/videos/movie.mkv", &rules);

    assert_eq!(mapped, "http://media-gateway.local:5244/d/videos/movie.mkv");
}

#[test]
fn supports_explicit_regex_rules() {
    let rules = parse_rules(
        "regex:https://(source|mirror)\\.example\\.test => http://media-gateway.local:5244",
    )
    .unwrap();
    let mapped = apply_rules("https://mirror.example.test/d/videos/movie.mkv", &rules);

    assert_eq!(mapped, "http://media-gateway.local:5244/d/videos/movie.mkv");
}

#[test]
fn ignores_blank_and_comment_lines() {
    let rules = parse_rules("\n# comment\n").unwrap();
    assert!(rules.is_empty());
}

#[test]
fn rejects_invalid_mapping_lines() {
    assert!(parse_rules("https://example.test").is_err());
}

#[test]
fn mapping_errors_name_the_line() {
    assert_eq!(
        parse_rules("# x\nhttps://example.test").unwrap_err(),
        "invalid strm_url_mappings line 2: expected `from => to`"
    );
    assert_eq!(
        parse_rules("a => ").unwrap_err(),
        "invalid strm_url_mappings line 1: from and to cannot be empty"
    );
    assert!(parse_rules("regex:( => x").unwrap_err().starts_with("invalid strm_url_mappings regex at line 1: "));
}

#[test]
fn normalize_user_policies_deduplicates_and_clamps_records() {
    let mut document = UserPoliciesDocument {
        policies: vec![
            UserPolicyRecord {
                server_id: " server ".to_string(),
                user_id: " user ".to_string(),
                rate_limit_window_seconds: 0,
                concurrent_playback_limit_max: u64::MAX,
                ..Default::default()
            },
            UserPolicyRecord {
                server_id: "server".to_string(),
                user_id: "user".to_string(),
                ..Default::default()
            },
        ],
    };
    normalize_user_policies(&mut document);
    assert_eq!(document.policies.len(), 1);
    assert_eq!(document.policies[0].rate_limit_window_seconds, 1);
    assert_eq!(document.policies[0].concurrent_playback_limit_max, 64);
}

#[test]
fn csv_fields_double_their_quotes() {
    assert_eq!(csv_escape("a\"b"), "\"a\"\"b\"");
    assert_eq!(csv_escape(""), "\"\"");
}

#[test]
fn digests_print_as_lower_case_hex() {
    assert_eq!(sha256_hex(&[0x00, 0x0f, 0xab, 0xff]), "000fabff");
}
