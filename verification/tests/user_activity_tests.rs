use embypanel::error::AppError;
use embypanel::user_list::{order_by_name, user_list_order, user_status_filter, UserListKey, UserStatusFilter};
use embypanel::user_activity::{
    access_options, activity_for_user, device_options_for_user, session_matches_user,
    OptionSource, SessionActivity,
};

fn session(
    user_id: Option<&str>,
    user_name: Option<&str>,
    device: &str,
    playing: bool,
    last: Option<&str>,
) -> SessionActivity {
    SessionActivity {
        user_id: user_id.map(str::to_string),
        user_name: user_name.map(str::to_string),
        playing,
        last_activity: last.map(str::to_string),
        device: Some(device.to_string()),
        option_id: Some(device.to_string()),
        option_name: Some(device.to_string()),
    }
}

#[test]
fn activity_matches_user_id_and_deduplicates_devices() {
    let sessions = vec![
        session(Some("u1"), None, "TV", true, Some("2026-01-02")),
        session(None, Some("Alice"), "TV", true, Some("2026-01-03")),
        session(Some("u2"), Some("Alice"), "Other", true, None),
        session(Some("u1"), None, "Phone", false, Some("2026-01-04")),
    ];
    let (last, count, devices) = activity_for_user(&sessions, "u1", "Alice");
    assert_eq!(last.as_deref(), Some("2026-01-04"));
    assert_eq!(count, 2);
    assert_eq!(devices, vec!["TV", "Phone"]);
    assert_eq!(device_options_for_user(&sessions, "u1", "Alice").len(), 2);
    assert!(!session_matches_user(&sessions[2], "u1", "Alice"));
}

#[test]
fn sessions_without_user_id_match_by_name_ignoring_case() {
    let s = session(None, Some("ALICE"), "TV", false, None);
    assert!(session_matches_user(&s, "", "alice"));
    let with_id = session(Some("u1"), Some("alice"), "TV", false, None);
    assert!(!session_matches_user(&with_id, "", "alice"));
    let nobody = SessionActivity {
        user_id: None,
        user_name: None,
        playing: true,
        last_activity: None,
        device: None,
        option_id: None,
        option_name: None,
    };
    assert!(!session_matches_user(&nobody, "u1", "alice"));
    let (last, count, devices) = activity_for_user(&vec![nobody], "u1", "alice");
    assert!(last.is_none());
    assert_eq!(count, 0);
    assert!(devices.is_empty());
}

fn source(id: Option<&str>, name: Option<&str>) -> OptionSource {
    OptionSource { id: id.map(str::to_string), name: name.map(str::to_string) }
}

#[test]
fn access_options_dedupe_and_sort_by_lowercase_name() {
    let options = access_options(&vec![
        source(Some("3"), Some("beta")),
        source(None, Some("skipped")),
        source(Some("1"), Some("Alpha")),
        source(Some("3"), Some("duplicate id")),
        source(Some("2"), None),
        source(Some("4"), Some("BETA")),
    ]);
    let pairs: Vec<(String, String)> = options.into_iter().map(|o| (o.id, o.name)).collect();
    assert_eq!(
        pairs,
        vec![
            ("2".to_string(), "2".to_string()),
            ("1".to_string(), "Alpha".to_string()),
            ("3".to_string(), "beta".to_string()),
            ("4".to_string(), "BETA".to_string()),
        ]
    );
    assert!(access_options(&vec![]).is_empty());
}

fn key(name: &str, server: &str, disabled: bool) -> UserListKey {
    UserListKey { name: name.to_string(), server_name: server.to_string(), is_disabled: disabled }
}

#[test]
fn user_list_filters_and_orders_by_server_then_name() {
    let users = vec![
        key("bob", "Home", false),
        key("Alice", "Home", true),
        key("carol", "Attic", false),
        key("alice", "Home", false),
        key("dave", "Zoo", false),
    ];
    assert_eq!(user_list_order(&users, None, UserStatusFilter::All), vec![2, 1, 3, 0, 4]);
    assert_eq!(user_list_order(&users, Some("  ALI "), UserStatusFilter::All), vec![1, 3]);
    assert_eq!(user_list_order(&users, Some("home"), UserStatusFilter::Enabled), vec![3, 0]);
    assert_eq!(user_list_order(&users, None, UserStatusFilter::Disabled), vec![1]);
    assert_eq!(user_status_filter(None).unwrap(), UserStatusFilter::All);
    assert_eq!(user_status_filter(Some("  ")).unwrap(), UserStatusFilter::All);
    assert_eq!(user_status_filter(Some(" enabled ")).unwrap(), UserStatusFilter::Enabled);
    assert_eq!(user_status_filter(Some("disabled")).unwrap(), UserStatusFilter::Disabled);
    assert!(matches!(user_status_filter(Some("Enabled")), Err(AppError::Validation(ref m)) if m == "status must be all, enabled, or disabled"));
    let names = vec!["b".to_string(), "a".to_string(), "b".to_string(), "A".to_string()];
    assert_eq!(order_by_name(&names), vec![3, 1, 0, 2]);
}
