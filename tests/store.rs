use woasobi::store::{Message, Setting, Store, StoreError, Thread};

fn thread(id: &str) -> Thread {
    Thread {
        id: id.to_string(),
        title: format!("title of {}", id),
        workspace_id: None,
        model: Some("model-a".to_string()),
        mode: None,
        created_at: "2024-01-01 00:00:00".to_string(),
        updated_at: "2024-01-01 00:00:00".to_string(),
    }
}

fn message(id: &str, thread_id: &str) -> Message {
    Message {
        id: id.to_string(),
        thread_id: thread_id.to_string(),
        role: "user".to_string(),
        content: Some("hi".to_string()),
        tool_calls: None,
        timestamp: "2024-01-01 00:00:00".to_string(),
    }
}

fn setting(key: &str, value: &str) -> Setting {
    Setting {
        key: key.to_string(),
        value: value.to_string(),
        updated_at: "2024-01-01 00:00:00".to_string(),
    }
}

fn message_ids(s: &Store) -> Vec<String> {
    s.messages.iter().map(|m| m.id.clone()).collect()
}

fn thread_ids(s: &Store) -> Vec<String> {
    s.threads.iter().map(|t| t.id.clone()).collect()
}

#[test]
fn new_store_is_empty() {
    let s = Store::new();
    assert!(s.threads.is_empty());
    assert!(s.messages.is_empty());
    assert!(s.settings.is_empty());
}

#[test]
fn insert_thread_then_duplicate_is_rejected() {
    let mut s = Store::new();
    assert_eq!(s.insert_thread(thread("t1")), Ok(()));
    assert!(s.contains_thread(&"t1".to_string()));
    assert_eq!(s.insert_thread(thread("t1")), Err(StoreError::DuplicateKey));
    assert_eq!(thread_ids(&s), vec!["t1".to_string()]);
}

#[test]
fn message_for_missing_thread_is_rejected_and_store_unchanged() {
    let mut s = Store::new();
    s.insert_thread(thread("t1")).unwrap();
    s.insert_message(message("m1", "t1")).unwrap();
    assert_eq!(
        s.insert_message(message("m2", "nope")),
        Err(StoreError::ForeignKeyViolation)
    );
    assert_eq!(message_ids(&s), vec!["m1".to_string()]);
    assert_eq!(thread_ids(&s), vec!["t1".to_string()]);
    assert!(!s.contains_message(&"m2".to_string()));
}

#[test]
fn message_on_empty_store_is_rejected() {
    let mut s = Store::new();
    assert_eq!(
        s.insert_message(message("m1", "t1")),
        Err(StoreError::ForeignKeyViolation)
    );
    assert!(s.messages.is_empty());
}

#[test]
fn duplicate_message_id_is_rejected() {
    let mut s = Store::new();
    s.insert_thread(thread("t1")).unwrap();
    s.insert_thread(thread("t2")).unwrap();
    assert_eq!(s.insert_message(message("m1", "t1")), Ok(()));
    assert_eq!(s.insert_message(message("m1", "t2")), Err(StoreError::DuplicateKey));
    assert_eq!(s.messages.len(), 1);
    assert_eq!(s.messages[0].thread_id, "t1");
}

#[test]
fn second_setting_with_same_key_fails() {
    let mut s = Store::new();
    assert_eq!(s.insert_setting(setting("theme", "dark")), Ok(()));
    assert_eq!(s.insert_setting(setting("theme", "light")), Err(StoreError::DuplicateKey));
    assert_eq!(s.settings.len(), 1);
    assert_eq!(s.settings[0].value, "dark");
    assert_eq!(s.insert_setting(setting("lang", "en")), Ok(()));
    assert_eq!(s.settings.len(), 2);
}

#[test]
fn delete_thread_cascades_to_its_messages_only() {
    let mut s = Store::new();
    s.insert_thread(thread("t1")).unwrap();
    s.insert_thread(thread("t2")).unwrap();
    s.insert_message(message("m1", "t1")).unwrap();
    s.insert_message(message("m2", "t2")).unwrap();
    s.insert_message(message("m3", "t1")).unwrap();
    s.insert_message(message("m4", "t2")).unwrap();
    s.insert_setting(setting("k", "v")).unwrap();
    assert!(s.delete_thread(&"t1".to_string()));
    assert_eq!(thread_ids(&s), vec!["t2".to_string()]);
    assert_eq!(message_ids(&s), vec!["m2".to_string(), "m4".to_string()]);
    assert_eq!(s.settings.len(), 1);
    // a message may no longer name the deleted thread
    assert_eq!(
        s.insert_message(message("m5", "t1")),
        Err(StoreError::ForeignKeyViolation)
    );
}

#[test]
fn delete_missing_thread_changes_nothing() {
    let mut s = Store::new();
    s.insert_thread(thread("t1")).unwrap();
    s.insert_message(message("m1", "t1")).unwrap();
    assert!(!s.delete_thread(&"t9".to_string()));
    assert_eq!(thread_ids(&s), vec!["t1".to_string()]);
    assert_eq!(message_ids(&s), vec!["m1".to_string()]);
}

#[test]
fn deleted_thread_id_can_be_reused() {
    let mut s = Store::new();
    s.insert_thread(thread("t1")).unwrap();
    assert!(s.delete_thread(&"t1".to_string()));
    assert!(s.threads.is_empty());
    assert_eq!(s.insert_thread(thread("t1")), Ok(()));
}
