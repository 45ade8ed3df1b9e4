use blackbird::bridge::{
    get_sdk_script, sanitize_app_id, sanitize_key, storage_clear, storage_delete, storage_get,
    storage_keys, storage_set, AppStorage,
};

#[test]
fn test_sanitize_app_id() {
    assert_eq!(sanitize_app_id("my-app"), "my-app");
    assert_eq!(sanitize_app_id("my app!@#"), "my_app___");
    assert_eq!(sanitize_app_id("/path/to/file.html"), "_path_to_file_html");
}

#[test]
fn test_sanitize_key() {
    assert_eq!(sanitize_key("todos"), "todos");
    assert_eq!(sanitize_key("user:preferences"), "user_preferences");
}

#[test]
fn sanitize_key_cuts_to_64_characters() {
    let long = "k".repeat(100);
    assert_eq!(sanitize_key(&long), "k".repeat(64));
    let exact = "é".repeat(64);
    assert_eq!(sanitize_key(&exact), "_".repeat(64));
    assert_eq!(sanitize_key(""), "");
}

#[test]
fn test_storage_set_and_get() {
    let mut storage = AppStorage::new();
    let app_id = "test-app-1";
    let key = "test_key";
    let value = r#"{"name": "test", "count": 42}"#;

    storage_set(&mut storage, app_id, key, value).expect("Failed to set storage");

    let retrieved = storage_get(&storage, app_id, key);
    assert_eq!(retrieved, Some(value.to_string()));

    storage_delete(&mut storage, app_id, key).expect("Failed to delete");
}

#[test]
fn test_storage_get_nonexistent() {
    let storage = AppStorage::new();
    let app_id = "test-app-nonexistent";
    let result = storage_get(&storage, app_id, "nonexistent_key");
    assert_eq!(result, None);
}

#[test]
fn test_storage_delete() {
    let mut storage = AppStorage::new();
    let app_id = "test-app-delete";
    let key = "to_delete";

    storage_set(&mut storage, app_id, key, "value").expect("Failed to set");
    assert!(storage_get(&storage, app_id, key).is_some());

    storage_delete(&mut storage, app_id, key).expect("Failed to delete");
    assert!(storage_get(&storage, app_id, key).is_none());
}

#[test]
fn test_storage_keys() {
    let mut storage = AppStorage::new();
    let app_id = "test-app-keys";

    storage_set(&mut storage, app_id, "key1", "value1").expect("Failed to set key1");
    storage_set(&mut storage, app_id, "key2", "value2").expect("Failed to set key2");
    storage_set(&mut storage, app_id, "key3", "value3").expect("Failed to set key3");

    let keys = storage_keys(&storage, app_id);
    assert!(keys.contains(&"key1".to_string()));
    assert!(keys.contains(&"key2".to_string()));
    assert!(keys.contains(&"key3".to_string()));

    storage_clear(&mut storage, app_id).expect("Failed to clear");
}

#[test]
fn test_storage_clear() {
    let mut storage = AppStorage::new();
    let app_id = "test-app-clear";

    storage_set(&mut storage, app_id, "key1", "value1").expect("Failed to set");
    storage_set(&mut storage, app_id, "key2", "value2").expect("Failed to set");

    storage_clear(&mut storage, app_id).expect("Failed to clear");

    assert!(storage_get(&storage, app_id, "key1").is_none());
    assert!(storage_get(&storage, app_id, "key2").is_none());
    assert!(storage_keys(&storage, app_id).is_empty());
}

#[test]
fn test_storage_isolation() {
    let mut storage = AppStorage::new();
    let app1 = "test-app-isolation-1";
    let app2 = "test-app-isolation-2";

    storage_set(&mut storage, app1, "shared_key", "app1_value").expect("Failed to set app1");
    storage_set(&mut storage, app2, "shared_key", "app2_value").expect("Failed to set app2");

    assert_eq!(
        storage_get(&storage, app1, "shared_key"),
        Some("app1_value".to_string())
    );
    assert_eq!(
        storage_get(&storage, app2, "shared_key"),
        Some("app2_value".to_string())
    );

    storage_clear(&mut storage, app1).expect("Failed to clear app1");
    storage_clear(&mut storage, app2).expect("Failed to clear app2");
}

#[test]
fn test_storage_special_characters_in_key() {
    let mut storage = AppStorage::new();
    let app_id = "test-app-special";
    let key = "user:preferences:theme";
    let value = "dark";

    storage_set(&mut storage, app_id, key, value).expect("Failed to set");

    let keys = storage_keys(&storage, app_id);
    assert!(!keys.is_empty());

    storage_clear(&mut storage, app_id).expect("Failed to clear");
}

#[test]
fn storage_set_overwrites_and_keys_stay_unique() {
    let mut storage = AppStorage::new();
    storage_set(&mut storage, "app", "k", "one").unwrap();
    storage_set(&mut storage, "app", "k", "two").unwrap();
    storage_set(&mut storage, "app", "other", "x").unwrap();
    assert_eq!(storage_get(&storage, "app", "k"), Some("two".to_string()));
    let mut keys = storage_keys(&storage, "app");
    keys.sort();
    assert_eq!(keys, vec!["k".to_string(), "other".to_string()]);
}

#[test]
fn storage_clear_leaves_other_apps() {
    let mut storage = AppStorage::new();
    storage_set(&mut storage, "a", "k", "1").unwrap();
    storage_set(&mut storage, "b", "k", "2").unwrap();
    storage_clear(&mut storage, "a").unwrap();
    assert_eq!(storage_get(&storage, "a", "k"), None);
    assert_eq!(storage_get(&storage, "b", "k"), Some("2".to_string()));
    storage_delete(&mut storage, "b", "missing").unwrap();
    assert_eq!(storage_keys(&storage, "b"), vec!["k".to_string()]);
}

#[test]
fn test_sdk_script_contains_app_id() {
    let app_id = "my-test-app";
    let script = get_sdk_script(app_id);

    assert!(script.contains("my-test-app"));
    assert!(script.contains("const APP_ID"));
    assert!(script.contains("window.blackbird"));
}

#[test]
fn test_sdk_script_has_storage_api() {
    let script = get_sdk_script("test");

    assert!(script.contains("storage:"));
    assert!(script.contains("get(key)"));
    assert!(script.contains("set(key, value)"));
    assert!(script.contains("delete(key)"));
    assert!(script.contains("keys()"));
    assert!(script.contains("clear()"));
}

#[test]
fn test_sdk_script_has_ai_api() {
    let script = get_sdk_script("test");

    assert!(script.contains("ai:"));
    assert!(script.contains("chat(prompt)"));
    assert!(script.contains("chatWithHistory(prompt, history)"));
}

#[test]
fn test_sdk_script_has_ready_event() {
    let script = get_sdk_script("test");

    assert!(script.contains("blackbird:ready"));
    assert!(script.contains("dispatchEvent"));
}

#[test]
fn test_sdk_script_is_wrapped_in_script_tag() {
    let script = get_sdk_script("test");

    assert!(script.starts_with("<script>"));
    assert!(script.ends_with("</script>"));
}

#[test]
fn test_sdk_storage_prefix() {
    let script = get_sdk_script("my-app");

    assert!(script.contains("STORAGE_PREFIX"));
    assert!(script.contains("blackbird_app_"));
}

#[test]
fn sdk_script_writes_the_identifier_once_between_quotes() {
    let script = get_sdk_script("abc-123");
    assert!(script.contains("const APP_ID = 'abc-123';"));
    assert_eq!(script.matches("abc-123").count(), 1);
    assert!(script.contains("(function() {"));
    assert!(script.contains("})();"));
}
