use domain_suggest::credentials::{
    credentials_file_text, credentials_from_text, delete_credential, load_credential, save_credential, KEY_OPENROUTER,
    KEY_WHOISFREAKS,
};
use domain_suggest::strmap::StringMap;

#[test]
fn load_after_save() {
    let mut store = StringMap::new();
    save_credential(&mut store, KEY_OPENROUTER, "sk-123");
    assert_eq!(load_credential(&store, KEY_OPENROUTER), Some("sk-123".to_string()));
    assert_eq!(load_credential(&store, KEY_WHOISFREAKS), None);
}

#[test]
fn empty_credential_loads_as_none() {
    let mut store = StringMap::new();
    save_credential(&mut store, KEY_WHOISFREAKS, "");
    assert_eq!(load_credential(&store, KEY_WHOISFREAKS), None);
    assert!(store.contains_key(KEY_WHOISFREAKS));
}

#[test]
fn load_after_delete() {
    let mut store = StringMap::new();
    save_credential(&mut store, KEY_OPENROUTER, "a");
    save_credential(&mut store, KEY_WHOISFREAKS, "b");
    delete_credential(&mut store, KEY_OPENROUTER);
    assert_eq!(load_credential(&store, KEY_OPENROUTER), None);
    assert_eq!(load_credential(&store, KEY_WHOISFREAKS), Some("b".to_string()));
}

#[test]
fn save_overwrites() {
    let mut store = StringMap::new();
    save_credential(&mut store, "k", "one");
    save_credential(&mut store, "k", "two");
    assert_eq!(load_credential(&store, "k"), Some("two".to_string()));
    assert_eq!(store.to_entries().len(), 1);
}

#[test]
fn entries_round_trip_later_wins() {
    let entries = vec![
        ("a".to_string(), "1".to_string()),
        ("b".to_string(), "2".to_string()),
        ("a".to_string(), "3".to_string()),
    ];
    let store = StringMap::from_entries(&entries);
    assert_eq!(store.get("a"), Some(&"3".to_string()));
    assert_eq!(store.get("b"), Some(&"2".to_string()));
    let mut back = store.to_entries();
    back.sort();
    assert_eq!(back, vec![("a".to_string(), "3".to_string()), ("b".to_string(), "2".to_string())]);
}

#[test]
fn credentials_read_from_text() {
    let m = credentials_from_text(r#"{"openrouter_api_key": "sk-1", "whoisfreaks_api_key": ""}"#);
    assert_eq!(load_credential(&m, KEY_OPENROUTER), Some("sk-1".to_string()));
    assert_eq!(load_credential(&m, KEY_WHOISFREAKS), None);
    assert!(m.contains_key(KEY_WHOISFREAKS));
    let dup = credentials_from_text(r#"{"k": "a", "k": "b"}"#);
    assert_eq!(dup.get("k"), Some(&"b".to_string()));
    for bad in ["", "not json", "[\"a\"]", r#"{"k": 1}"#, r#"{"a": "x", "k": null}"#] {
        let m = credentials_from_text(bad);
        assert!(!m.contains_key("a") && !m.contains_key("k"), "{bad}");
    }
}

#[test]
fn credentials_file_round_trip() {
    let mut store = StringMap::new();
    save_credential(&mut store, KEY_WHOISFREAKS, "wf \"quoted\"");
    save_credential(&mut store, KEY_OPENROUTER, "sk-1");
    let text = credentials_file_text(&store);
    assert_eq!(
        text,
        "{\n  \"openrouter_api_key\": \"sk-1\",\n  \"whoisfreaks_api_key\": \"wf \\\"quoted\\\"\"\n}"
    );
    let back = credentials_from_text(&text);
    assert_eq!(load_credential(&back, KEY_OPENROUTER), Some("sk-1".to_string()));
    assert_eq!(load_credential(&back, KEY_WHOISFREAKS), Some("wf \"quoted\"".to_string()));
    assert_eq!(credentials_file_text(&StringMap::new()), "{}");
}
