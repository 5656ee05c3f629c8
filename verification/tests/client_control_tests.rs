use embypanel::client_control::backup::prepare_backup_config;
use embypanel::client_control::blocks::make_room_for_rate_state;
use embypanel::client_control::sessions::{
    count_active_playback_sessions, effective_concurrent_playback_limit,
};
use embypanel::client_control::{
    action_blocks_ip, action_disables_user, action_requires_user, action_uses_user_key,
    default_config, normalize_auto_user_agent_rule, normalize_client_control_limits,
    normalize_client_rule_records, normalize_manual_user_agent_rule,
    normalize_playback_rate_limit_action, rule_matches, ClientControlConfig, ClientRuleRecord,
    ClientRuleSource, PlaybackRateBlockRecord, WebhookNotifyConfig, CONCURRENT_PLAYBACK_MAX,
    PLAYBACK_RATE_MAX_BLOCK_SECONDS, PLAYBACK_RATE_MAX_REQUESTS, PLAYBACK_RATE_MAX_WINDOW_SECONDS,
    PLAYBACK_RATE_STATE_CAPACITY,
};
use embypanel::emby::PlaybackSession;
use embypanel::strmap::StrMap;

fn playback_session(item_id: &str, device_id: Option<&str>) -> PlaybackSession {
    PlaybackSession {
        server_id: "server-a".to_string(),
        server_name: "Server A".to_string(),
        id: format!("session-{item_id}-{}", device_id.unwrap_or("none")),
        item_id: item_id.to_string(),
        series_id: None,
        season_number: None,
        episode_number: None,
        item_type: None,
        media_source_id: None,
        device_id: device_id.map(str::to_string),
        user_name: "alice".to_string(),
        client: "test".to_string(),
        device_name: "device".to_string(),
        user_agent: "test".to_string(),
        playback_ip: None,
        ip_location: None,
        item_name: item_id.to_string(),
        series_name: None,
        position_ticks: None,
        runtime_ticks: None,
        percent: None,
        play_method: None,
        playback_mode: "unknown".to_string(),
        transcoding: false,
    }
}

fn rule(user_agent: &str, client_name: &str) -> ClientRuleRecord {
    ClientRuleRecord {
        id: "rule-1".to_string(),
        client_name: client_name.to_string(),
        device_name: "--".to_string(),
        user_name: "--".to_string(),
        user_agent: user_agent.to_string(),
        source: ClientRuleSource::Manual,
        enabled: true,
        created_at: "0".to_string(),
        updated_at: "0".to_string(),
        note: String::new(),
    }
}

#[test]
fn ua_rule_matches_case_insensitive_keyword() {
    let record = rule("infuse-library", "Infuse-Direct");

    assert!(rule_matches(&record, "Mozilla/5.0 Infuse-Library/8.0"));
}

#[test]
fn ua_rule_does_not_match_client_name_only() {
    let record = rule("infuse-library", "Infuse-Direct");

    assert!(!rule_matches(&record, "Infuse-Direct/8.0"));
}

#[test]
fn ua_rule_does_not_match_device_or_user_only() {
    let record = ClientRuleRecord {
        id: "rule-1".to_string(),
        client_name: "网易爆米花 iOS".to_string(),
        device_name: "AppleTV14".to_string(),
        user_name: "jhoupeng".to_string(),
        user_agent: "网易爆米花 iOS/2.6.9".to_string(),
        source: ClientRuleSource::Auto,
        enabled: true,
        created_at: "0".to_string(),
        updated_at: "0".to_string(),
        note: String::new(),
    };

    assert!(!rule_matches(&record, "AppleTV14"));
    assert!(!rule_matches(&record, "jhoupeng"));
}

#[test]
fn normalizes_auto_versioned_client_user_agents() {
    assert_eq!(normalize_auto_user_agent_rule("Infuse-Direct/8.4.5"), "Infuse-Direct");
    assert_eq!(normalize_auto_user_agent_rule("VidHub/2.3.0"), "VidHub");
    assert_eq!(normalize_auto_user_agent_rule("AndroidTv/2.0.95g"), "AndroidTv");
    assert_eq!(normalize_auto_user_agent_rule("网易爆米花 iOS/2.6.9"), "网易爆米花 iOS");
    assert_eq!(
        normalize_auto_user_agent_rule("Emby for Apple TV/1.9.8 (2)"),
        "Emby for Apple TV"
    );
    assert_eq!(normalize_auto_user_agent_rule("Filmly/2.5.13-340"), "Filmly");
    assert_eq!(normalize_auto_user_agent_rule("Filmly/2.9.21-395"), "Filmly");
    assert_eq!(normalize_auto_user_agent_rule("Mozilla/5.0"), "Mozilla");
    assert_eq!(normalize_auto_user_agent_rule("CustomClient/beta"), "CustomClient");
}

#[test]
fn keeps_manual_versioned_user_agent_rules_precise() {
    assert_eq!(normalize_manual_user_agent_rule("VidHub/2.2.9"), "VidHub/2.2.9");
    let precise = rule("VidHub/2.2.9", "VidHub");
    assert!(rule_matches(&precise, "VidHub/2.2.9"));
    assert!(!rule_matches(&precise, "VidHub/2.3.0"));

    let family = rule("VidHub", "VidHub");
    assert!(rule_matches(&family, "VidHub/2.2.9"));
    assert!(rule_matches(&family, "VidHub/2.3.0"));
}

#[test]
fn merges_versioned_client_rule_records() {
    let mut config = default_config();
    config.records.push(ClientRuleRecord {
        id: "old".to_string(),
        client_name: "Infuse-Direct".to_string(),
        device_name: "Apple TV".to_string(),
        user_name: "Lucifinil".to_string(),
        user_agent: "Infuse-Direct/8.4.5".to_string(),
        source: ClientRuleSource::Auto,
        enabled: false,
        created_at: "100".to_string(),
        updated_at: "100".to_string(),
        note: "自动记录播放设备".to_string(),
    });
    config.records.push(ClientRuleRecord {
        id: "new".to_string(),
        client_name: "Infuse-Direct".to_string(),
        device_name: "Apple TV".to_string(),
        user_name: "王德发".to_string(),
        user_agent: "Infuse-Direct/8.4.3".to_string(),
        source: ClientRuleSource::Auto,
        enabled: true,
        created_at: "90".to_string(),
        updated_at: "200".to_string(),
        note: "自动记录播放设备".to_string(),
    });

    assert!(normalize_client_rule_records(&mut config));
    assert_eq!(config.records.len(), 1);
    assert_eq!(config.records[0].user_agent, "Infuse-Direct");
    assert_eq!(config.records[0].user_name, "王德发");
    assert!(config.records[0].enabled);
}

#[test]
fn normalizes_client_control_resource_limits() {
    let mut config = default_config();
    config.playback_rate_limit_window_seconds = u64::MAX;
    config.playback_rate_limit_max_requests = u64::MAX;
    config.playback_rate_limit_block_seconds = u64::MAX;
    config.concurrent_playback_limit_max = u64::MAX;

    assert!(normalize_client_control_limits(&mut config));
    assert_eq!(config.playback_rate_limit_window_seconds, PLAYBACK_RATE_MAX_WINDOW_SECONDS);
    assert_eq!(config.playback_rate_limit_max_requests, PLAYBACK_RATE_MAX_REQUESTS);
    assert_eq!(config.playback_rate_limit_block_seconds, PLAYBACK_RATE_MAX_BLOCK_SECONDS);
    assert_eq!(config.concurrent_playback_limit_max, CONCURRENT_PLAYBACK_MAX);
}

#[test]
fn rate_limit_runtime_state_stays_bounded() {
    let mut entries: StrMap<usize> = StrMap::new();
    for index in 0..PLAYBACK_RATE_STATE_CAPACITY {
        entries.insert(format!("client-{index}"), index);
    }

    make_room_for_rate_state(&mut entries, "new-client");
    entries.insert("new-client".to_string(), usize::MAX);

    assert_eq!(entries.len(), PLAYBACK_RATE_STATE_CAPACITY);
    assert_eq!(entries.get("new-client"), Some(&usize::MAX));
}

#[test]
fn concurrent_limit_excludes_only_current_device() {
    let sessions = vec![
        playback_session("item-1", Some("device-a")),
        playback_session("item-1", Some("device-b")),
        playback_session("item-2", Some("device-c")),
    ];

    assert_eq!(
        count_active_playback_sessions(&sessions, "server-a", "alice", "item-1", Some("device-a")),
        2
    );
}

#[test]
fn concurrent_limit_without_device_excludes_only_one_same_item() {
    let sessions = vec![
        playback_session("item-1", Some("device-a")),
        playback_session("item-1", Some("device-b")),
        playback_session("item-2", Some("device-c")),
    ];

    assert_eq!(
        count_active_playback_sessions(&sessions, "server-a", "alice", "item-1", None),
        2
    );
}

#[test]
fn concurrent_limit_uses_lowest_enabled_value() {
    assert_eq!(effective_concurrent_playback_limit(Some(3), Some(10)), Some(3));
    assert_eq!(effective_concurrent_playback_limit(Some(10), Some(3)), Some(3));
    assert_eq!(effective_concurrent_playback_limit(Some(3), None), Some(3));
    assert_eq!(effective_concurrent_playback_limit(None, Some(10)), Some(10));
    assert_eq!(effective_concurrent_playback_limit(None, None), None);
}

#[test]
fn user_concurrent_action_is_not_an_ip_action() {
    assert_eq!(normalize_playback_rate_limit_action("block_user"), "block_user");
    assert!(action_requires_user("block_user"));
    assert!(action_uses_user_key("block_user"));
    assert!(!action_blocks_ip("block_user"));
    assert!(!action_disables_user("block_user"));
}

fn test_client_control() -> ClientControlConfig {
    ClientControlConfig {
        enabled: true,
        notify_enabled: false,
        playback_rate_limit_enabled: true,
        playback_rate_limit_window_seconds: 60,
        playback_rate_limit_max_requests: 20,
        playback_rate_limit_block_seconds: 1800,
        playback_rate_limit_action: "block_ip".to_string(),
        concurrent_playback_limit_enabled: true,
        concurrent_playback_limit_max: 3,
        rate_limit_blocks: Vec::new(),
        webhook: WebhookNotifyConfig::default(),
        webhooks: Vec::new(),
        records: Vec::new(),
    }
}

fn block(id: &str, action: &str, ip: &str, user: &str, until: String, enabled: bool, note: &str) -> PlaybackRateBlockRecord {
    PlaybackRateBlockRecord {
        id: id.to_string(),
        server_id: "server-a".to_string(),
        server_name: "a".to_string(),
        action: action.to_string(),
        ip: ip.to_string(),
        user_name: user.to_string(),
        blocked_until: until,
        created_at: "1".to_string(),
        enabled,
        note: note.to_string(),
        ip_location: None,
    }
}

#[test]
fn backup_client_control_keeps_only_active_rules_and_blocks() {
    let now = 1_000;
    let active_until = now + 60;
    let mut config = test_client_control();
    config.records.push(ClientRuleRecord {
        id: "blocked".to_string(),
        client_name: "Infuse".to_string(),
        device_name: "--".to_string(),
        user_name: "--".to_string(),
        user_agent: "Infuse-Library".to_string(),
        source: ClientRuleSource::Manual,
        enabled: true,
        created_at: "1".to_string(),
        updated_at: "1".to_string(),
        note: "禁用".to_string(),
    });
    config.records.push(ClientRuleRecord {
        id: "allowed-auto".to_string(),
        client_name: "Auto".to_string(),
        device_name: "--".to_string(),
        user_name: "--".to_string(),
        user_agent: "Allowed-UA".to_string(),
        source: ClientRuleSource::Auto,
        enabled: false,
        created_at: "1".to_string(),
        updated_at: "1".to_string(),
        note: "自动记录播放设备".to_string(),
    });
    config.records.push(ClientRuleRecord {
        id: "allowed-manual".to_string(),
        client_name: "Manual".to_string(),
        device_name: "--".to_string(),
        user_name: "--".to_string(),
        user_agent: "Manual-UA".to_string(),
        source: ClientRuleSource::Manual,
        enabled: false,
        created_at: "1".to_string(),
        updated_at: "1".to_string(),
        note: "手动保留".to_string(),
    });
    config.rate_limit_blocks.push(block("active-block", "block_ip", "10.0.0.1", "user-a", active_until.to_string(), true, "active"));
    config.rate_limit_blocks.push(block("expired-block", "block_ip", "10.0.0.2", "user-b", "1".to_string(), true, "expired"));
    config.rate_limit_blocks.push(block("disabled-block", "disable_user", "10.0.0.3", "user-c", active_until.to_string(), false, "disabled"));

    let backup = prepare_backup_config(config, now);
    let record_ids = backup.records.iter().map(|record| record.id.as_str()).collect::<Vec<_>>();

    assert_eq!(record_ids, vec!["blocked", "allowed-manual"]);
    assert_eq!(backup.rate_limit_blocks.len(), 1);
    assert_eq!(backup.rate_limit_blocks[0].id, "active-block");
}

#[test]
fn failed_session_lookup_earns_no_concurrent_block() {
    let input = embypanel::client_control::limiter::ConcurrentPlaybackLimitInput {
        server_id: "s1".to_string(),
        server_name: "Server".to_string(),
        playback_user: " alice ".to_string(),
        playback_ip: "10.0.0.1".to_string(),
        item_id: "item".to_string(),
        device_id: None,
    };
    let none = embypanel::client_control::limiter::concurrent_block_plan(None, &input, 0, true, 60, 1000);
    assert!(none.is_none());
    let empty: Vec<embypanel::emby::PlaybackSession> = Vec::new();
    let block = embypanel::client_control::limiter::concurrent_block_plan(Some(&empty), &input, 0, true, 60, 1000)
        .unwrap();
    assert_eq!(block.user, "alice");
    assert_eq!(block.blocked_until, 1060);
    let under = embypanel::client_control::limiter::concurrent_block_plan(Some(&empty), &input, 1, true, 60, 1000);
    assert!(under.is_none());
}
