use std::path::Path;
use terax_agents::legacy::{
    truncate_preview, LegacyEntry, LegacyFileState, LegacyMessage, LegacySessionStore,
};

#[test]
fn missing_file_returns_none() {
    let store = LegacySessionStore::open(Path::new("/nonexistent/terax-sessions.json"), LegacyFileState::Missing)
        .unwrap();
    assert!(store.is_none());
}

#[test]
fn existing_path_opens() {
    let store = LegacySessionStore::open(Path::new("/"), LegacyFileState::Readable).unwrap();
    assert!(store.is_some());
    assert_eq!(store.unwrap().path(), Path::new("/"));
}

#[test]
fn preview_truncation() {
    assert_eq!(truncate_preview("hello", 120), "hello");
    let long = "a".repeat(200);
    let preview = truncate_preview(&long, 120);
    // 120 chars + '…' (3 bytes UTF-8) = 123 bytes
    assert_eq!(preview.len(), 123);
    assert!(preview.ends_with('…'));
}

#[test]
fn preview_trims_and_counts_bytes() {
    assert_eq!(truncate_preview("  hi \n", 120), "hi");
    // 3 characters, 6 bytes: over a 4-byte limit, cut to 4 characters (all of them).
    assert_eq!(truncate_preview("\u{e9}\u{e9}\u{e9}", 4), "\u{e9}\u{e9}\u{e9}\u{2026}");
    assert_eq!(truncate_preview("abcdef", 3), "abc\u{2026}");
}

fn msg(c: Option<&str>) -> LegacyMessage {
    LegacyMessage { content: c.map(|s| s.to_string()) }
}

#[test]
fn entry_summary_counts_and_previews_last_message() {
    let entry = LegacyEntry {
        title: Some("My old session".into()),
        created_at: Some("2025-01-01T00:00:00Z".into()),
        updated_at: None,
        messages: Some(vec![msg(Some("Hello world")), msg(Some("  How are you?  "))]),
    };
    let s = entry.summarize("abc-123".into());
    assert_eq!(s.id, "abc-123");
    assert_eq!(s.title.as_deref(), Some("My old session"));
    assert_eq!(s.created_at.as_deref(), Some("2025-01-01T00:00:00Z"));
    assert!(s.updated_at.is_none());
    assert_eq!(s.message_count, 2);
    assert_eq!(s.last_preview.as_deref(), Some("How are you?"));
}

#[test]
fn entry_without_messages_or_last_content() {
    let entry = LegacyEntry { title: None, created_at: None, updated_at: None, messages: None };
    let s = entry.summarize("x".into());
    assert_eq!(s.message_count, 0);
    assert!(s.last_preview.is_none());
    assert!(entry.message_texts().is_none());
    let entry = LegacyEntry {
        title: None,
        created_at: None,
        updated_at: None,
        messages: Some(vec![msg(Some("a")), msg(None)]),
    };
    let s = entry.summarize("y".into());
    assert_eq!(s.message_count, 2);
    assert!(s.last_preview.is_none());
    assert_eq!(entry.message_texts().unwrap(), vec!["a".to_string()]);
}

#[test]
fn message_texts_keep_order() {
    let entry = LegacyEntry {
        title: None,
        created_at: None,
        updated_at: None,
        messages: Some(vec![msg(Some("msg1")), msg(None), msg(Some("msg2"))]),
    };
    assert_eq!(entry.message_texts().unwrap(), vec!["msg1".to_string(), "msg2".to_string()]);
}

#[test]
fn unreadable_file_is_an_error() {
    let e = std::io::Error::new(std::io::ErrorKind::InvalidData, "not JSON");
    let r = LegacySessionStore::open(Path::new("/tmp/x.json"), LegacyFileState::Unreadable(e));
    match r {
        Err(e) => assert_eq!(e.to_string(), "not JSON"),
        Ok(_) => panic!("expected an error"),
    }
}
