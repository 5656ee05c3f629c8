use embypanel::error::AppError;
use embypanel::users_api::{is_valid_access_schedule, validate_policy_update, UserAccessSchedule, UserPolicyUpdate};

fn schedule(day: &str, start: f64, end: f64) -> UserAccessSchedule {
    UserAccessSchedule { day_of_week: day.to_string(), start_hour_bits: start.to_bits(), end_hour_bits: end.to_bits() }
}

fn error_of(p: &UserPolicyUpdate) -> String {
    match validate_policy_update(p) {
        Err(AppError::Validation(m)) => m,
        other => panic!("expected a validation error, got {other:?}"),
    }
}

#[test]
fn empty_policy_update_is_valid() {
    assert!(validate_policy_update(&UserPolicyUpdate::default()).is_ok());
}

#[test]
fn invalid_schedules_are_rejected() {
    let payload = UserPolicyUpdate {
        max_parental_rating_enabled: Some(false),
        access_schedules: Some(vec![schedule("Everyday", 22.0, 8.0)]),
        ..Default::default()
    };
    assert_eq!(
        error_of(&payload),
        "access schedule must use a supported day and a time range between 0 and 24"
    );
    assert!(is_valid_access_schedule(&schedule(" Weekend ", 0.0, 24.0)));
    assert!(is_valid_access_schedule(&schedule("Monday", -0.0, 0.5)));
    assert!(!is_valid_access_schedule(&schedule("Monday", 8.0, 24.5)));
    assert!(!is_valid_access_schedule(&schedule("Monday", 24.0, 24.0)));
    assert!(!is_valid_access_schedule(&schedule("Monday", -1.0, 2.0)));
    assert!(!is_valid_access_schedule(&schedule("Monday", f64::NAN, 2.0)));
    assert!(!is_valid_access_schedule(&schedule("Funday", 1.0, 2.0)));
}

#[test]
fn policy_lists_and_ranges_are_checked_in_order() {
    let lists = UserPolicyUpdate { blocked_tags: Some(vec!["  ".to_string()]), ..Default::default() };
    assert_eq!(error_of(&lists), "policy list contains an invalid entry");
    let long = UserPolicyUpdate { enabled_devices: Some(vec!["x".repeat(129)]), ..Default::default() };
    assert_eq!(error_of(&long), "policy list contains an invalid entry");
    let unrated = UserPolicyUpdate { block_unrated_items: Some(vec!["Movie".to_string(), "Podcast".to_string()]), ..Default::default() };
    assert_eq!(error_of(&unrated), "block_unrated_items contains an unsupported item type");
    let rating = UserPolicyUpdate { max_parental_rating: Some(10001), ..Default::default() };
    assert_eq!(error_of(&rating), "max parental rating is out of range");
    let quality = UserPolicyUpdate { remote_client_bitrate_limit: Some(u64::from(u32::MAX) + 1), ..Default::default() };
    assert_eq!(error_of(&quality), "remote playback quality limit is out of range");
    let streams = UserPolicyUpdate { concurrent_playback_limit_max: Some(65), ..Default::default() };
    assert_eq!(error_of(&streams), "simultaneous stream limit must be between 0 and 64");
    let window = UserPolicyUpdate { rate_limit_window_seconds: Some(0), ..Default::default() };
    assert_eq!(error_of(&window), "user rate limit values are out of range");
    let action = UserPolicyUpdate { rate_limit_action: Some("ban".to_string()), ..Default::default() };
    assert_eq!(error_of(&action), "invalid user rate limit action");
    let ok = UserPolicyUpdate {
        rate_limit_action: Some(" mixed ".to_string()),
        simultaneous_stream_limit: Some(64),
        max_parental_rating: Some(0),
        ..Default::default()
    };
    assert!(validate_policy_update(&ok).is_ok());
}

use embypanel::strmap::StrMap;
use embypanel::users_api::{apply_policy_update, policy_update_from_value, PolicyItem, PolicyValue};

fn bool_at(policy: &StrMap<PolicyValue>, key: &str) -> Option<bool> {
    match policy.get(key) {
        Some(PolicyValue::Bool(b)) => Some(*b),
        _ => None,
    }
}

#[test]
fn extended_policy_fields_round_trip_without_dropping_unknown_values() {
    let mut policy: StrMap<PolicyValue> = StrMap::new();
    policy.insert("UnknownFuturePermission".to_string(), PolicyValue::Bool(true));
    let payload = UserPolicyUpdate {
        is_hidden: Some(true),
        is_hidden_remotely: Some(true),
        is_hidden_from_unused_devices: Some(true),
        enable_user_preference_access: Some(true),
        enable_content_downloading: Some(true),
        enable_audio_playback_transcoding: Some(false),
        max_parental_rating_enabled: Some(true),
        max_parental_rating: Some(12),
        blocked_tags: Some(vec!["adult".to_string()]),
        block_unrated_items: Some(vec!["Movie".to_string(), "Series".to_string()]),
        access_schedules: Some(vec![schedule("Weekend", 8.0, 22.5)]),
        ..Default::default()
    };
    apply_policy_update(&mut policy, &payload);

    assert_eq!(bool_at(&policy, "UnknownFuturePermission"), Some(true));
    assert_eq!(bool_at(&policy, "IsHidden"), Some(true));
    assert_eq!(bool_at(&policy, "EnableContentDownloading"), Some(true));
    assert!(matches!(policy.get("MaxParentalRating"), Some(PolicyValue::Unsigned(12))));
    match policy.get("AccessSchedules") {
        Some(PolicyValue::Array(items)) => match &items[0] {
            PolicyItem::Schedule(s) => assert_eq!(s.day_of_week, "Weekend"),
            other => panic!("unexpected {other:?}"),
        },
        other => panic!("unexpected {other:?}"),
    }

    let projected = policy_update_from_value(&policy);
    assert_eq!(projected.is_hidden, Some(true));
    assert_eq!(projected.enable_content_downloading, Some(true));
    assert_eq!(projected.max_parental_rating_enabled, Some(true));
    assert_eq!(projected.max_parental_rating, Some(12));
    assert_eq!(f64::from_bits(projected.access_schedules.unwrap()[0].end_hour_bits), 22.5);
}

#[test]
fn disabling_parental_rating_writes_null_and_invalid_schedules_are_rejected() {
    let mut policy: StrMap<PolicyValue> = StrMap::new();
    policy.insert("MaxParentalRating".to_string(), PolicyValue::Unsigned(12));
    let payload = UserPolicyUpdate {
        max_parental_rating_enabled: Some(false),
        access_schedules: Some(vec![schedule("Everyday", 22.0, 8.0)]),
        ..Default::default()
    };
    apply_policy_update(&mut policy, &payload);
    assert!(matches!(policy.get("MaxParentalRating"), Some(PolicyValue::Null)));
    assert!(validate_policy_update(&payload).is_err());
}

#[test]
fn policy_lists_are_written_normalized_and_read_back_as_strings() {
    let mut policy: StrMap<PolicyValue> = StrMap::new();
    let payload = UserPolicyUpdate {
        enabled_folders: Some(vec![" a ".to_string(), "".to_string(), "a".to_string(), "b".to_string()]),
        is_administrator: Some(false),
        ..Default::default()
    };
    apply_policy_update(&mut policy, &payload);
    let projected = policy_update_from_value(&policy);
    assert_eq!(projected.enabled_folders, Some(vec!["a".to_string(), "a".to_string(), "b".to_string()]));
    assert_eq!(projected.is_administrator, Some(false));
    assert_eq!(projected.rate_limit_enabled, None);
}

#[test]
fn policy_fields_fall_back_to_their_own_names() {
    let mut policy: StrMap<PolicyValue> = StrMap::new();
    policy.insert("IsDisabled".to_string(), PolicyValue::Other("\"yes\"".to_string()));
    policy.insert("is_disabled".to_string(), PolicyValue::Bool(true));
    policy.insert("AutoRemoteQuality".to_string(), PolicyValue::Int(-5));
    policy.insert(
        "BlockedTags".to_string(),
        PolicyValue::Array(vec![PolicyItem::Text("x".to_string()), PolicyItem::Other("1".to_string())]),
    );
    policy.insert(
        "AccessSchedules".to_string(),
        PolicyValue::Array(vec![PolicyItem::Other("{}".to_string())]),
    );
    let projected = policy_update_from_value(&policy);
    assert_eq!(projected.is_disabled, Some(true));
    assert_eq!(projected.auto_remote_quality, Some(-5));
    assert_eq!(projected.blocked_tags, Some(vec!["x".to_string()]));
    assert!(projected.access_schedules.is_none());
    assert_eq!(projected.max_parental_rating_enabled, None);
}

use embypanel::users_api::{update_saved_user_policy, UserPoliciesDocument};

#[test]
fn saved_policy_is_created_only_for_panel_limits() {
    let mut doc = UserPoliciesDocument { policies: vec![] };
    let plain = UserPolicyUpdate { is_disabled: Some(true), ..Default::default() };
    update_saved_user_policy(&mut doc, "s1", "u1", "Alice", &plain);
    assert!(doc.policies.is_empty());

    let limits = UserPolicyUpdate {
        rate_limit_enabled: Some(true),
        rate_limit_action: Some(" mixed ".to_string()),
        ..Default::default()
    };
    update_saved_user_policy(&mut doc, "s1", "u1", "Alice", &limits);
    assert_eq!(doc.policies.len(), 1);
    let p = &doc.policies[0];
    assert_eq!(p.user_name, "Alice");
    assert!(p.rate_limit_enabled);
    assert_eq!(p.rate_limit_action, "mixed");
    assert_eq!(p.rate_limit_window_seconds, 60);
    assert_eq!(p.concurrent_playback_limit_max, 3);

    let rename = UserPolicyUpdate { concurrent_playback_limit_max: Some(2), ..Default::default() };
    update_saved_user_policy(&mut doc, "s1", "u1", "Alicia", &rename);
    assert_eq!(doc.policies.len(), 1);
    assert_eq!(doc.policies[0].user_name, "Alicia");
    assert_eq!(doc.policies[0].concurrent_playback_limit_max, 2);
    assert!(doc.policies[0].rate_limit_enabled);

    update_saved_user_policy(&mut doc, "s1", "u1", "Al", &plain);
    assert_eq!(doc.policies[0].user_name, "Al");
}

use embypanel::users_api::{merge_policy_defaults, policy_has_emby_fields, policy_has_panel_fields};

#[test]
fn template_fills_only_the_missing_fields() {
    let mut target = UserPolicyUpdate {
        is_disabled: Some(false),
        blocked_tags: Some(vec!["mine".to_string()]),
        ..Default::default()
    };
    let template = UserPolicyUpdate {
        is_disabled: Some(true),
        enable_remote_access: Some(false),
        blocked_tags: Some(vec!["theirs".to_string()]),
        enabled_folders: Some(vec!["f1".to_string()]),
        rate_limit_action: Some("mixed".to_string()),
        access_schedules: Some(vec![schedule("Weekday", 8.0, 18.0)]),
        ..Default::default()
    };
    merge_policy_defaults(&mut target, &template);
    assert_eq!(target.is_disabled, Some(false));
    assert_eq!(target.enable_remote_access, Some(false));
    assert_eq!(target.blocked_tags, Some(vec!["mine".to_string()]));
    assert_eq!(target.enabled_folders, Some(vec!["f1".to_string()]));
    assert_eq!(target.rate_limit_action.as_deref(), Some("mixed"));
    assert_eq!(target.access_schedules.unwrap()[0].day_of_week, "Weekday");
}

#[test]
fn policy_change_kinds_are_told_apart() {
    let emby = UserPolicyUpdate { enable_all_devices: Some(true), ..Default::default() };
    let panel = UserPolicyUpdate { concurrent_playback_limit_max: Some(2), ..Default::default() };
    assert!(policy_has_emby_fields(&emby) && !policy_has_panel_fields(&emby));
    assert!(!policy_has_emby_fields(&panel) && policy_has_panel_fields(&panel));
    assert!(!policy_has_emby_fields(&UserPolicyUpdate::default()));
}

use embypanel::users_api::{normalize_policy_update, normalize_user_templates, UserTemplate, UserTemplatesDocument};

#[test]
fn normalize_user_templates_isolated_and_safe() {
    let mut document = UserTemplatesDocument {
        templates: vec![
            UserTemplate {
                id: " template-a ".to_string(),
                server_id: "server-a".to_string(),
                name: " Home ".to_string(),
                policy: UserPolicyUpdate {
                    rate_limit_window_seconds: Some(0),
                    concurrent_playback_limit_max: Some(u64::MAX),
                    rate_limit_action: Some("invalid".to_string()),
                    ..Default::default()
                },
            },
            UserTemplate {
                id: "template-a".to_string(),
                server_id: "server-a".to_string(),
                name: "Duplicate".to_string(),
                policy: UserPolicyUpdate::default(),
            },
            UserTemplate {
                id: "bad id".to_string(),
                server_id: "server-b".to_string(),
                name: "Invalid".to_string(),
                policy: UserPolicyUpdate::default(),
            },
        ],
    };
    normalize_user_templates(&mut document);
    assert_eq!(document.templates.len(), 1);
    assert_eq!(document.templates[0].name, "Home");
    assert_eq!(document.templates[0].policy.rate_limit_window_seconds, Some(1));
    assert_eq!(document.templates[0].policy.concurrent_playback_limit_max, Some(64));
    assert_eq!(document.templates[0].policy.rate_limit_action.as_deref(), Some("block_ip"));
}

#[test]
fn policy_update_normalization_clamps_and_filters() {
    let mut p = UserPolicyUpdate {
        block_unrated_items: Some(vec![" Movie ".to_string(), "Podcast".to_string(), " ".to_string()]),
        access_schedules: Some(vec![schedule(" Monday ", 8.0, 9.0), schedule("Monday", 9.0, 8.0)]),
        max_parental_rating: Some(-3),
        remote_client_bitrate_limit: Some(u64::MAX),
        is_disabled: Some(true),
        ..Default::default()
    };
    normalize_policy_update(&mut p);
    assert_eq!(p.block_unrated_items, Some(vec!["Movie".to_string()]));
    let windows = p.access_schedules.unwrap();
    assert_eq!(windows.len(), 1);
    assert_eq!(windows[0].day_of_week, "Monday");
    assert_eq!(p.max_parental_rating, Some(0));
    assert_eq!(p.remote_client_bitrate_limit, Some(u64::from(u32::MAX)));
    assert_eq!(p.is_disabled, Some(true));
}
