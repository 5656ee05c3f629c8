use embypanel::activity_log::{ActivityKind, ActivityLevel, ActivityLogStore};
use embypanel::internal_redirect::internal_redirect_choice;
use embypanel::rewrite::{patch_system_info, SystemInfoValue};
use embypanel::strmap::StrMap;

fn text_at(info: &StrMap<SystemInfoValue>, key: &str) -> String {
    match info.get(key) {
        Some(SystemInfoValue::Text(t)) => t.clone(),
        other => panic!("unexpected {other:?}"),
    }
}

fn texts_at(info: &StrMap<SystemInfoValue>, key: &str) -> Vec<String> {
    match info.get(key) {
        Some(SystemInfoValue::Texts(t)) => t.clone(),
        other => panic!("unexpected {other:?}"),
    }
}

fn number_at(info: &StrMap<SystemInfoValue>, key: &str) -> u64 {
    match info.get(key) {
        Some(SystemInfoValue::Number(n)) => *n,
        other => panic!("unexpected {other:?}"),
    }
}

#[test]
fn patches_system_info_to_proxy_address() {
    let mut patched: StrMap<SystemInfoValue> = StrMap::new();
    patched.insert("HttpServerPortNumber".to_string(), SystemInfoValue::Number(8096));
    patched.insert("WebSocketPortNumber".to_string(), SystemInfoValue::Number(8096));
    patched.insert("LocalAddress".to_string(), SystemInfoValue::Text("http://10.0.0.10:8096".to_string()));
    patched.insert("LocalAddresses".to_string(), SystemInfoValue::Texts(vec!["http://10.0.0.10:8096".to_string()]));
    patched.insert("RemoteAddresses".to_string(), SystemInfoValue::Texts(vec!["https://example.com:8920".to_string()]));
    patch_system_info(&mut patched, 8097, "http://panel.lan:8097");

    assert_eq!(number_at(&patched, "HttpServerPortNumber"), 8097);
    assert_eq!(number_at(&patched, "WebSocketPortNumber"), 8097);
    assert_eq!(text_at(&patched, "LocalAddress"), "http://panel.lan:8097");
    assert_eq!(texts_at(&patched, "LocalAddresses"), vec!["http://panel.lan:8097"]);
    assert_eq!(texts_at(&patched, "RemoteAddresses"), vec!["http://panel.lan:8097"]);
}

#[test]
fn system_info_patch_keeps_other_fields() {
    let mut info: StrMap<SystemInfoValue> = StrMap::new();
    info.insert("ServerName".to_string(), SystemInfoValue::Other("\"home\"".to_string()));
    patch_system_info(&mut info, 1, "http://g");
    assert!(matches!(info.get("ServerName"), Some(SystemInfoValue::Other(t)) if t == "\"home\""));
    assert_eq!(text_at(&info, "WanAddress"), "http://g");
    assert_eq!(text_at(&info, "RemoteAddress"), "http://g");
}

#[test]
fn internal_redirect_uses_the_probe_only_when_enabled_and_successful() {
    assert_eq!(internal_redirect_choice(true, "http://a/x", Some("http://b/y".to_string())), "http://b/y");
    assert_eq!(internal_redirect_choice(true, "http://a/x", None), "http://a/x");
    assert_eq!(internal_redirect_choice(false, "http://a/x", Some("http://b/y".to_string())), "http://a/x");
}

#[test]
fn log_holds_the_latest_records_numbered_from_one() {
    let mut store = ActivityLogStore::new(3);
    for i in 0..5 {
        store.record(ActivityKind::General, ActivityLevel::Info, None, "S", format!("m{i}"), String::new());
    }
    let held = store.list(None, None, 10);
    let ids: Vec<u64> = held.iter().map(|e| e.id).collect();
    assert_eq!(ids, vec![5, 4, 3]);
    let mut one = ActivityLogStore::new(0);
    one.record(ActivityKind::General, ActivityLevel::Info, None, "S", "first".to_string(), String::new());
    assert_eq!(one.list(None, None, 10)[0].id, 1);
}
