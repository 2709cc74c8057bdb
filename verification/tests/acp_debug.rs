use terax_agents::acp_debug::{redact_for_debug, try_redact_for_debug, AcpDebugBuffer, MessageDirection, DEFAULT_MAX_BYTES};

#[test]
fn debug_buffer_evicts_on_overflow() {
    let mut buffer = AcpDebugBuffer::new(Some(100)); // 100 bytes max
    buffer.enable();

    // Add 200 bytes worth of messages
    for _ in 0..10 {
        buffer.record(MessageDirection::Sent, &"x".repeat(20), "test", None);
    }

    let stats = buffer.stats();
    assert!(stats.byte_count <= 100);
    assert!(stats.message_count < 10);
}

#[test]
fn debug_buffer_disabled_ignores_records() {
    let mut buffer = AcpDebugBuffer::new(None);
    // Not enabled
    buffer.record(MessageDirection::Sent, "test", "test", None);
    assert_eq!(buffer.get_messages().len(), 0);
}

#[test]
fn eviction_keeps_newest_messages_in_order() {
    let mut buffer = AcpDebugBuffer::new(Some(10));
    buffer.enable();
    buffer.record(MessageDirection::Sent, "aaaa", "agent", Some("s1"));
    buffer.record(MessageDirection::Received, "bbbb", "agent", None);
    buffer.record(MessageDirection::Error, "cccc", "agent", None);
    let msgs = buffer.get_messages();
    assert_eq!(msgs.len(), 2);
    assert_eq!(msgs[0].raw_content, "bbbb");
    assert_eq!(msgs[1].raw_content, "cccc");
    assert_eq!(msgs[1].direction, MessageDirection::Error);
    assert_eq!(buffer.stats().byte_count, 8);
}

#[test]
fn oversized_message_is_kept_alone() {
    let mut buffer = AcpDebugBuffer::new(Some(5));
    buffer.enable();
    buffer.record(MessageDirection::Sent, "ab", "agent", None);
    buffer.record(MessageDirection::Sent, "0123456789", "agent", Some("s"));
    let msgs = buffer.get_messages();
    assert_eq!(msgs.len(), 1);
    assert_eq!(msgs[0].byte_size, 10);
    assert_eq!(msgs[0].session_id.as_deref(), Some("s"));
    assert_eq!(buffer.stats().byte_count, 10);
}

#[test]
fn byte_size_counts_utf8_bytes() {
    let mut buffer = AcpDebugBuffer::new(None);
    buffer.enable();
    buffer.record(MessageDirection::Received, "h\u{e9}", "agent", None);
    assert_eq!(buffer.get_messages()[0].byte_size, 3);
    assert_eq!(buffer.stats().max_bytes, DEFAULT_MAX_BYTES);
}

#[test]
fn disable_clears_and_stops_recording() {
    let mut buffer = AcpDebugBuffer::new(Some(100));
    buffer.enable();
    buffer.record(MessageDirection::Sent, "one", "agent", None);
    assert!(buffer.is_enabled());
    buffer.disable();
    assert!(!buffer.is_enabled());
    assert_eq!(buffer.get_messages().len(), 0);
    assert_eq!(buffer.stats().byte_count, 0);
    buffer.record(MessageDirection::Sent, "two", "agent", None);
    assert_eq!(buffer.stats().message_count, 0);
}

#[test]
fn clear_keeps_enabled_state() {
    let mut buffer = AcpDebugBuffer::new(Some(100));
    buffer.enable();
    buffer.record(MessageDirection::Sent, "one", "agent", None);
    buffer.clear();
    assert!(buffer.is_enabled());
    assert_eq!(buffer.stats().message_count, 0);
}

#[test]
fn redaction_leaves_ordinary_text() {
    let raw = r#"{"user": "alice", "count": 3}"#;
    assert_eq!(redact_for_debug(raw), raw);
}

#[test]
fn redaction_hides_secrets() {
    let raw = r#"{"api_key": "abc123", "token": "xyz789"}"#;
    let out = redact_for_debug(raw);
    assert_eq!(out, r#"{"api_key": "REDACTED", "token": "REDACTED"}"#);
    assert!(!out.contains("abc123"));
    assert!(!out.contains("xyz789"));
    let spaced = r#"{"token"  :   "t-1", "api_key":"k"}"#;
    assert_eq!(redact_for_debug(spaced), r#"{"token": "REDACTED", "api_key": "REDACTED"}"#);
}

#[test]
fn redaction_truncates_long_messages() {
    let raw = "a".repeat(10250);
    let out = redact_for_debug(&raw);
    assert_eq!(out, format!("{}...(truncated 10)", "a".repeat(10240)));
    let exact = "b".repeat(10240);
    assert_eq!(redact_for_debug(&exact), exact);
}

#[test]
fn try_redaction_refuses_a_split_character() {
    let raw = format!("{}\u{e9}{}", "a".repeat(10239), "b".repeat(20));
    assert!(try_redact_for_debug(&raw).is_none());
    let ok = r#"{"token": "t"}"#;
    assert_eq!(try_redact_for_debug(ok).unwrap(), redact_for_debug(ok));
    let long = "a".repeat(10250);
    assert_eq!(try_redact_for_debug(&long).unwrap(), format!("{}...(truncated 10)", "a".repeat(10240)));
}
