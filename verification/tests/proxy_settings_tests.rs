use embypanel::config::{Config, EmbyServerConfig};
use embypanel::crypto_api::{check_field_iv, check_request_key, missing_field_error};
use embypanel::ip_location::{
    configured_ipdb_max_bytes, configured_ipdb_sha256, location_from_fields, lookup_step, IpAddress,
    LookupStep,
};
use embypanel::monitoring::{activity_kind_filter, unless_all};
use embypanel::proxy::{
    canonical_ip, connection_header_names, filtered_proxy_cookie, forwarded_chain,
    header_ip_candidates, header_list_names, is_hop_by_hop_header, real_ip_source,
    should_copy_response_header, should_forward_request_header, x_forwarded_for_at, RealIpSource,
};
use embypanel::settings_api::{
    check_backup_key_material, keep_saved_secrets, redact_config_secrets, required_server_id,
    set_server_enabled, validate_backup_password, validate_backup_text_size,
};
use embypanel::users_api::{
    normalize_rate_action, normalized_policy_list, user_policy_for, validate_password,
    validate_template_id, validate_template_name, validate_user_name, UserPoliciesDocument,
    UserPolicyRecord,
};

fn server(real_ip_mode: &str, real_ip_header: &str) -> EmbyServerConfig {
    EmbyServerConfig {
        id: "server-1".to_string(),
        name: "server".to_string(),
        emby_host: "http://emby.test".to_string(),
        emby_api_key: "key".to_string(),
        port: 18096,
        enabled: true,
        block_web_ui: false,
        real_ip_mode: real_ip_mode.to_string(),
        real_ip_header: real_ip_header.to_string(),
        trusted_proxy_cidrs: "192.0.2.0/24".to_string(),
    }
}

fn test_config(real_ip_mode: &str, real_ip_header: &str) -> Config {
    let mut config = Config::default_runtime();
    config.emby_host = "http://emby.test".to_string();
    config.emby_api_key = "key".to_string();
    config.servers = vec![server(real_ip_mode, real_ip_header)];
    config.port = 18096;
    config
}

#[test]
fn compression_headers_are_not_forwarded_after_reqwest_decodes_body() {
    let config = test_config("auto", "");
    assert!(!should_forward_request_header("accept-encoding", &Vec::new(), &config));
    assert!(!should_copy_response_header("content-encoding", &Vec::new(), false));
    assert!(should_copy_response_header("content-encoding", &Vec::new(), true));
}

#[test]
fn proxy_cookie_filter_removes_panel_session_token() {
    assert_eq!(
        filtered_proxy_cookie(Some("a=1; embypanel_token=secret; b=2")).as_deref(),
        Some("a=1; b=2")
    );
    assert_eq!(filtered_proxy_cookie(Some("embypanel_token=secret")), None);
}

#[test]
fn configured_real_ip_accepts_forwarded_ip_formats() {
    assert_eq!(
        header_ip_candidates("for=\"[2001:db8::1]:443\", for=198.51.100.7:1234"),
        vec!["2001:db8::1".to_string(), "198.51.100.7".to_string()]
    );
}

#[test]
fn trusted_proxy_preserves_a_bounded_normalized_forwarded_chain() {
    let chain = vec![IpAddress::V4([198, 51, 100, 1]), IpAddress::V4([198, 51, 100, 2])];
    let real = x_forwarded_for_at(&chain, 1).unwrap();
    let peer = IpAddress::V4([192, 0, 2, 10]);
    assert_eq!(
        forwarded_chain(true, chain, real, peer),
        vec![IpAddress::V4([198, 51, 100, 1]), IpAddress::V4([198, 51, 100, 2]), peer]
    );
}

#[test]
fn untrusted_peer_forwarding_chain_is_replaced() {
    let chain = vec![IpAddress::V4([198, 51, 100, 1]), IpAddress::V4([198, 51, 100, 2])];
    let peer = IpAddress::V4([203, 0, 113, 20]);
    assert_eq!(forwarded_chain(false, chain, peer, peer), vec![peer]);
}

#[test]
fn forwarded_chains_stay_bounded() {
    let chain: Vec<IpAddress> = (0..20u8).map(|i| IpAddress::V4([10, 0, 0, i])).collect();
    let real = IpAddress::V4([203, 0, 113, 1]);
    let peer = IpAddress::V4([192, 0, 2, 1]);
    let out = forwarded_chain(true, chain, real, peer);
    assert_eq!(out.len(), 16);
    assert_eq!(out[0], real);
    assert_eq!(out[15], peer);
    assert_eq!(out[1], IpAddress::V4([10, 0, 0, 6]));
}

#[test]
fn headers_that_are_kept_to_one_hop() {
    assert!(is_hop_by_hop_header("transfer-encoding"));
    assert!(!is_hop_by_hop_header("Transfer-Encoding"));
    let names = connection_header_names(&vec!["X-Remove-Me, keep-alive".to_string(), " ".to_string()]);
    assert_eq!(names, vec!["x-remove-me", "keep-alive"]);
    let config = test_config("header", "CF-Connecting-IP");
    assert!(!should_forward_request_header("X-Remove-Me", &names, &config));
    assert!(!should_forward_request_header("cf-connecting-ip", &names, &config));
    assert!(!should_forward_request_header("Host", &names, &config));
    assert!(should_forward_request_header("User-Agent", &names, &config));
    assert!(!should_copy_response_header("Connection", &names, true));
    assert!(should_copy_response_header("Set-Cookie", &names, false));
}

#[test]
fn real_ip_modes_and_addresses() {
    assert_eq!(real_ip_source("xff_second_last", ""), RealIpSource::ForwardedFromEnd(2));
    assert_eq!(real_ip_source("auto", "x"), RealIpSource::Peer);
    assert_eq!(real_ip_source("header", "CF-Connecting-IP"), RealIpSource::Header("CF-Connecting-IP".to_string()));
    assert_eq!(header_list_names(" \n"), embypanel::proxy::forwarded_ip_headers());
    assert_eq!(header_list_names("A\n B "), vec!["A", "B"]);
    assert_eq!(
        canonical_ip(IpAddress::V6([0, 0, 0, 0, 0, 0xffff, 0xc000, 0x020a])),
        IpAddress::V4([192, 0, 2, 10])
    );
    let ips = vec![IpAddress::V4([1, 1, 1, 1]), IpAddress::V4([2, 2, 2, 2])];
    assert_eq!(x_forwarded_for_at(&ips, 2), Some(IpAddress::V4([1, 1, 1, 1])));
    assert_eq!(x_forwarded_for_at(&ips, 3), None);
    assert_eq!(x_forwarded_for_at(&ips, 0), None);
}

#[test]
fn settings_responses_redact_all_runtime_secrets() {
    let mut config = Config::default_runtime();
    config.emby_api_key = "top-level-key".to_string();
    config.openlist_addr = Some("https://openlist.example.test".to_string());
    config.openlist_token = Some("openlist-token".to_string());
    config.servers.push(EmbyServerConfig {
        id: "server-a".to_string(),
        name: "Server A".to_string(),
        emby_host: "https://emby.example.test".to_string(),
        emby_api_key: "server-key".to_string(),
        port: 18096,
        enabled: true,
        block_web_ui: false,
        real_ip_mode: "auto".to_string(),
        real_ip_header: String::new(),
        trusted_proxy_cidrs: String::new(),
    });

    let redacted = redact_config_secrets(config);

    assert!(redacted.emby_api_key.is_empty());
    assert!(redacted.servers.iter().all(|server| server.emby_api_key.is_empty()));
    assert!(redacted.openlist_token.is_none());
}

#[test]
fn saved_forms_keep_blank_secrets() {
    let mut existing = test_config("auto", "");
    existing.openlist_addr = Some("http://o.test".to_string());
    existing.openlist_token = Some("tok".to_string());
    let mut payload = test_config("auto", "");
    payload.servers[0].emby_api_key = " ".to_string();
    payload.emby_api_key = String::new();
    payload.openlist_addr = Some("http://o.test".to_string());
    payload.openlist_token = Some("  ".to_string());
    keep_saved_secrets(&mut payload, &existing);
    assert_eq!(payload.servers[0].emby_api_key, "key");
    assert_eq!(payload.emby_api_key, "key");
    assert_eq!(payload.openlist_token.as_deref(), Some("tok"));

    let mut cleared = test_config("auto", "");
    cleared.servers.clear();
    keep_saved_secrets(&mut cleared, &existing);
    assert!(cleared.emby_host.is_empty());
    assert_eq!(cleared.openlist_token, None);
}

#[test]
fn proxy_switches_and_backup_checks() {
    let mut config = test_config("auto", "");
    assert_eq!(set_server_enabled(&mut config, "server-1", false).unwrap(), "server");
    assert!(!config.servers[0].enabled);
    assert_eq!(set_server_enabled(&mut config, "nope", true).unwrap_err(), "server_id does not exist");
    assert_eq!(required_server_id("  ").unwrap_err(), "server_id is required");
    assert_eq!(required_server_id(" a ").unwrap(), "a");
    assert!(validate_backup_password("abc").is_err());
    assert!(validate_backup_password("abcd").is_ok());
    assert!(validate_backup_text_size(&"x".repeat(8 * 1024 * 1024)).is_ok());
    assert_eq!(
        validate_backup_text_size(&"x".repeat(8 * 1024 * 1024 + 1)).unwrap_err(),
        "backup file is larger than 8 MiB"
    );
    assert_eq!(check_backup_key_material(15, 12).unwrap_err(), "invalid backup salt length");
    assert_eq!(check_backup_key_material(16, 11).unwrap_err(), "invalid backup nonce length");
    assert!(check_backup_key_material(16, 12).is_ok());
    assert!(check_request_key(32).is_ok());
    assert_eq!(check_field_iv(11).unwrap_err(), "encrypted field iv must be 12 bytes");
    assert_eq!(missing_field_error("settings"), "missing encrypted field `settings`");
}

#[test]
fn user_validation_rules() {
    assert!(validate_template_name(" Home ").is_ok());
    assert!(validate_template_name(&"a".repeat(129)).is_err());
    assert!(validate_template_name("bad\u{7}").is_err());
    assert!(validate_user_name("").is_err());
    assert!(validate_password("abc").is_err());
    assert!(validate_password("abcd").is_ok());
    assert!(validate_template_id("template-a_1").is_ok());
    assert!(validate_template_id("bad id").is_err());
    assert!(validate_template_id("").is_err());
    assert_eq!(normalize_rate_action(" mixed "), "mixed");
    assert_eq!(normalize_rate_action("nope"), "block_ip");
    assert_eq!(
        normalized_policy_list(&vec![" a ".to_string(), " ".to_string(), "b".to_string()]),
        vec!["a", "b"]
    );
    let document = UserPoliciesDocument {
        policies: vec![UserPolicyRecord {
            server_id: "s".to_string(),
            user_id: "u".to_string(),
            user_name: "Alice".to_string(),
            ..Default::default()
        }],
    };
    assert!(user_policy_for(&document, "s", "alice").is_some());
    assert!(user_policy_for(&document, "t", "alice").is_none());
}

#[test]
fn ip_database_settings_and_lookups() {
    assert_eq!(configured_ipdb_max_bytes(None).unwrap(), 64 * 1024 * 1024);
    assert_eq!(configured_ipdb_max_bytes(Some(" 10 ")).unwrap(), 10);
    assert_eq!(
        configured_ipdb_max_bytes(Some("0")).unwrap_err(),
        "EMBYPANEL_IPDB_MAX_BYTES must be a positive integer"
    );
    assert_eq!(configured_ipdb_sha256(Some("  ")).unwrap(), None);
    let digest = "AB".repeat(32);
    assert_eq!(configured_ipdb_sha256(Some(&digest)).unwrap(), Some("ab".repeat(32)));
    assert!(configured_ipdb_sha256(Some("abc")).is_err());
    assert!(matches!(lookup_step(" -- ", None), LookupStep::Skip));
    assert!(matches!(lookup_step("10.0.0.1", Some(IpAddress::V4([10, 0, 0, 1]))), LookupStep::Private(_)));
    match lookup_step(" 8.8.8.8 ", Some(IpAddress::V4([8, 8, 8, 8]))) {
        LookupStep::Query(ip) => assert_eq!(ip, "8.8.8.8"),
        _ => panic!("expected a query"),
    }
    assert!(location_from_fields(None, Some(""), None, None, None).is_none());
    assert_eq!(location_from_fields(Some("中国"), None, None, None, None).unwrap().country_name, "中国");
    assert_eq!(activity_kind_filter(Some("playback")), Some(embypanel::activity_log::ActivityKind::Playback));
    assert_eq!(unless_all(Some("all")), None);
}
