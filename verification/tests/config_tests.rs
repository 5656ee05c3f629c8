use embypanel::config::{Config, EmbyServerConfig};

fn config_with(
    emby_host: &str,
    emby_api_key: &str,
    openlist_addr: Option<&str>,
    openlist_token: Option<&str>,
    port: u16,
) -> Config {
    Config {
        emby_host: emby_host.to_string(),
        emby_api_key: emby_api_key.to_string(),
        servers: Vec::new(),
        openlist_addr: openlist_addr.map(str::to_string),
        openlist_token: openlist_token.map(str::to_string),
        port,
        cache_ttl_seconds: 180,
        cache_max_capacity: 10_000,
        cache_enabled: true,
        cache_domain_filter_mode: "off".to_string(),
        cache_domain_whitelist: String::new(),
        cache_domain_blacklist: String::new(),
        enable_internal_redirect: false,
        internal_redirect_timeout_seconds: 15,
        strm_url_mappings: String::new(),
        strm_url_mapping_enabled: true,
        connectivity_check_enabled: true,
        connectivity_check_interval_seconds: 60,
        connectivity_check_timeout_seconds: 5,
        connectivity_auto_restart_seconds: 180,
        strm_url_mapping_rules: Vec::new(),
    }
}

#[test]
fn config_allows_zero_cache_ttl_to_disable_cache() {
    let mut config = config_with("http://localhost:8096", "key", Some("http://localhost:5244"), Some("token"), 18096);
    config.cache_ttl_seconds = 0;

    assert!(config.normalize_and_validate().is_ok());
}

#[test]
fn config_requires_positive_cache_max_capacity() {
    let mut config = config_with("http://localhost:8096", "key", None, None, 18096);
    config.cache_max_capacity = 0;

    assert!(config.normalize_and_validate().is_err());
}

#[test]
fn config_trims_base_urls() {
    let mut config = config_with("http://localhost:8096/", "key", Some("http://localhost:5244/"), Some("token"), 18096);

    config.normalize_and_validate().unwrap();

    assert_eq!(config.emby_host, "http://localhost:8096");
    assert_eq!(config.openlist_addr.as_deref(), Some("http://localhost:5244"));
}

#[test]
fn config_allows_direct_url_mode_without_openlist() {
    let mut config = config_with("http://localhost:8096", "key", None, None, 18096);

    assert!(config.normalize_and_validate().is_ok());
}

#[test]
fn config_allows_empty_server_list_when_top_level_emby_is_empty() {
    let mut config = config_with("", "", None, None, 8096);

    config.normalize_and_validate().unwrap();

    assert!(config.servers.is_empty());
    assert!(config.emby_host.is_empty());
    assert!(config.emby_api_key.is_empty());
}

#[test]
fn config_requires_openlist_pair_when_partially_configured() {
    let mut config = config_with("http://localhost:8096", "key", Some("http://localhost:5244"), None, 18096);

    assert!(config.normalize_and_validate().is_err());
}

#[test]
fn config_requires_positive_internal_redirect_timeout() {
    let mut config = config_with("http://localhost:8096", "key", None, None, 18096);
    config.enable_internal_redirect = true;
    config.internal_redirect_timeout_seconds = 0;

    assert!(config.normalize_and_validate().is_err());
}

#[test]
fn config_parses_strm_url_mapping_rules() {
    let mut config = config_with("http://localhost:8096", "key", None, None, 18096);
    config.strm_url_mappings = "https://openlist.example.test => http://localhost:5244".to_string();

    config.normalize_and_validate().unwrap();

    assert_eq!(config.strm_url_mapping_rules.len(), 1);
}

#[test]
fn default_runtime_enables_feature_switches() {
    let config = Config::default_runtime();

    assert!(config.cache_enabled);
    assert!(config.strm_url_mapping_enabled);
}

fn server(id: &str, port: u16, enabled: bool, key: &str) -> EmbyServerConfig {
    EmbyServerConfig {
        id: id.to_string(),
        name: format!("Server {id}"),
        emby_host: format!("http://{}.test", id.trim()),
        emby_api_key: key.to_string(),
        port,
        enabled,
        block_web_ui: false,
        real_ip_mode: "auto".to_string(),
        real_ip_header: String::new(),
        trusted_proxy_cidrs: String::new(),
    }
}

#[test]
fn normalizes_servers_and_takes_first_enabled_as_primary() {
    let mut config = config_with("", "", None, None, 8096);
    config.servers.push(server(" a ", 18096, false, "ka"));
    config.servers.push(server("b", 18097, true, "kb"));

    config.normalize_and_validate().unwrap();

    assert_eq!(config.servers[0].id, "a");
    assert_eq!(config.emby_host, "http://b.test");
    assert_eq!(config.emby_api_key, "kb");
    assert_eq!(config.port, 18097);
}

#[test]
fn rejects_duplicate_server_ports() {
    let mut config = config_with("", "", None, None, 8096);
    config.servers.push(server("a", 18096, true, "ka"));
    config.servers.push(server("b", 18096, true, "kb"));

    let err = config.normalize_and_validate().unwrap_err();
    assert_eq!(err, "proxy port 18096 is configured more than once");
}

#[test]
fn proxy_configs_cover_usable_servers_only() {
    let mut config = config_with("http://a.test", "ka", None, None, 18096);
    config.servers.push(server("a", 18096, true, "ka"));
    config.servers.push(server("b", 18097, false, "kb"));
    config.servers.push(server("c", 18098, true, "  "));
    config.servers.push(server("d", 18099, true, "kd"));

    let configs = config.proxy_configs();
    assert_eq!(configs.len(), 2);
    assert_eq!(configs[0].servers.len(), 1);
    assert_eq!(configs[0].servers[0].id, "a");
    assert_eq!(configs[1].emby_host, "http://d.test");
    assert_eq!(configs[1].port, 18099);

    let picked = config.proxy_config_for_server(Some("b"));
    assert_eq!(picked.servers[0].id, "b");
    let fallback = config.proxy_config_for_server(Some("missing"));
    assert_eq!(fallback.servers[0].id, "a");
}

#[test]
fn trusted_proxy_items_split_on_commas_and_lines() {
    let items = embypanel::config::trusted_proxy_items(" 192.0.2.9, 10.0.0.42/8\n2001:db8::7/32\n192.0.2.9 ");
    assert_eq!(items, vec!["192.0.2.9", "10.0.0.42/8", "2001:db8::7/32", "192.0.2.9"]);

    let parsed = vec![
        Ok("192.0.2.9/32".to_string()),
        Ok("10.0.0.0/8".to_string()),
        Ok("2001:db8::/32".to_string()),
        Ok("192.0.2.9/32".to_string()),
    ];
    assert_eq!(
        embypanel::config::normalize_trusted_networks(&items, &parsed).unwrap(),
        "192.0.2.9/32\n10.0.0.0/8\n2001:db8::/32"
    );

    let bad = vec!["not-an-address".to_string()];
    let err = embypanel::config::normalize_trusted_networks(&bad, &vec![Err("invalid IP address syntax".to_string())]).unwrap_err();
    assert_eq!(
        err,
        "server.trusted_proxy_cidrs contains invalid IP or CIDR not-an-address: invalid IP address syntax"
    );
}

#[test]
fn emby_url_joins_path_and_query() {
    let config = config_with("http://emby.test:8096/base", "key", None, None, 8096);
    assert_eq!(
        config.emby_url("/Items/abc?Fields=Path").unwrap(),
        "http://emby.test:8096/Items/abc?Fields=Path"
    );
    assert!(config.openlist_url("/api/fs/get").is_err());
}

#[test]
fn trusted_proxy_cidrs_are_validated_and_normalized() {
    let normalized = embypanel::config::normalize_trusted_proxy_cidrs(
        " 192.0.2.9, 10.0.0.42/8\n2001:db8::7/32\n192.0.2.9 ",
    )
    .unwrap();

    assert_eq!(normalized, "192.0.2.9/32\n10.0.0.0/8\n2001:db8::/32");
    assert_eq!(normalized.lines().count(), 3);
    let mut s = server("a", 18096, true, "ka");
    s.trusted_proxy_cidrs = "10.0.0.0/8".to_string();
    assert!(s.is_trusted_proxy("10.20.30.40"));
    assert!(embypanel::config::normalize_trusted_proxy_cidrs("10.0.0.0/99").is_err());
    assert!(embypanel::config::normalize_trusted_proxy_cidrs("not-an-address").is_err());
}

#[test]
fn trusted_proxy_error_names_the_item() {
    let err = embypanel::config::normalize_trusted_proxy_cidrs("10.0.0.1, bad").unwrap_err();
    assert!(err.starts_with("server.trusted_proxy_cidrs contains invalid IP or CIDR bad: "));
    assert_eq!(embypanel::config::parse_trusted_item("192.0.2.9").unwrap(), "192.0.2.9/32");
    assert_eq!(embypanel::config::parse_trusted_item("2001:db8::7/32").unwrap(), "2001:db8::/32");
}

#[test]
fn trusted_proxy_check_maps_ipv4_in_ipv6_and_rejects_outsiders() {
    let mut s = server("a", 18096, true, "ka");
    s.trusted_proxy_cidrs = "192.0.2.0/24\n2001:db8::/32".to_string();
    assert!(s.is_trusted_proxy("::ffff:192.0.2.7"));
    assert!(s.is_trusted_proxy("2001:db8::1"));
    assert!(!s.is_trusted_proxy("198.51.100.1"));
    assert!(!s.is_trusted_proxy("not-an-ip"));
    let mut config = config_with("", "", None, None, 8096);
    assert!(!embypanel::proxy::first_server_trusts(&config, "192.0.2.7"));
    config.servers.push(s);
    assert!(embypanel::proxy::first_server_trusts(&config, "192.0.2.7"));
}

#[test]
fn normalize_reads_each_servers_trusted_proxies() {
    let mut config = config_with("", "", None, None, 8096);
    let mut s = server("a", 18096, true, "ka");
    s.trusted_proxy_cidrs = " 10.0.0.42/8, 10.1.0.0/8 ".to_string();
    config.servers.push(s);
    config.normalize_and_validate().unwrap();
    assert_eq!(config.servers[0].trusted_proxy_cidrs, "10.0.0.0/8");

    let mut bad = config_with("", "", None, None, 8096);
    let mut s = server("b", 18097, true, "kb");
    s.trusted_proxy_cidrs = "nope".to_string();
    bad.servers.push(s);
    assert!(bad.normalize_and_validate().unwrap_err().contains("nope"));
}
