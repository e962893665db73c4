use aerial::envelope::{message_payload, now_unix_millis, stamp_from_reading, AgentId, Envelope, MessageKind};

#[test]
fn replies_keep_lineage() {
    let sender = AgentId::new();
    let recipient = AgentId::new();
    let parent = uuid::Uuid::new_v4().as_u128();

    let envelope = Envelope::new(sender, recipient, MessageKind::Message, "{\"ok\":true}".to_string())
        .reply_to(parent);

    assert_eq!(envelope.in_reply_to, Some(parent));
}

#[test]
fn new_envelope_has_random_id_and_no_names() {
    let sender = AgentId::new();
    let recipient = AgentId::new();
    let envelope = Envelope::new(sender, recipient, MessageKind::Resume, "{}".to_string());
    assert_eq!((envelope.id >> 76) & 0xf, 4);
    assert_eq!((envelope.id >> 62) & 0x3, 2);
    assert_eq!(envelope.from, sender);
    assert_eq!(envelope.to, recipient);
    assert_eq!(envelope.kind, MessageKind::Resume);
    assert_eq!(envelope.from_name, None);
    assert_eq!(envelope.to_name, None);
    assert_eq!(envelope.in_reply_to, None);
    assert!(envelope.sent_at > 0);
}

#[test]
fn with_names_sets_both_names() {
    let envelope = Envelope::new(AgentId(1), AgentId(2), MessageKind::Message, "{}".to_string())
        .with_names("engineer".to_string(), "researcher".to_string());
    assert_eq!(envelope.from_name.as_deref(), Some("engineer"));
    assert_eq!(envelope.to_name.as_deref(), Some("researcher"));
}

#[test]
fn agent_id_texts_match_uuid_forms() {
    let value: u128 = 0x0123_4567_89ab_cdef_fedc_ba98_7654_3210;
    let id = AgentId(value);
    assert_eq!(id.short(), "0123456789ab");
    assert_eq!(id.to_text(), "01234567-89ab-cdef-fedc-ba9876543210");
    assert_eq!(id.to_text(), uuid::Uuid::from_u128(value).to_string());
    assert_eq!(id.as_uuid(), value);
}

#[test]
fn fresh_agent_ids_are_version_four() {
    let id = AgentId::new().as_uuid();
    assert_eq!((id >> 76) & 0xf, 4);
    assert_eq!((id >> 62) & 0x3, 2);
    let default_id = AgentId::default().as_uuid();
    assert_eq!((default_id >> 76) & 0xf, 4);
}

#[test]
fn message_payload_is_a_body_object() {
    let payload = message_payload("status?");
    assert_eq!(payload, "{\"body\":\"status?\"}");
    let value: serde_json::Value = serde_json::from_str(&payload).expect("json");
    assert_eq!(value["body"], "status?");
}

#[test]
fn body_reads_the_body_member() {
    let envelope = Envelope::new(AgentId(1), AgentId(2), MessageKind::Message, message_payload("hi \"there\""));
    assert_eq!(envelope.body(), "hi \"there\"");
    let numeric = Envelope::new(AgentId(1), AgentId(2), MessageKind::Message, "{\"body\":5}".to_string());
    assert_eq!(numeric.body(), "");
    let not_json = Envelope::new(AgentId(1), AgentId(2), MessageKind::Message, "body".to_string());
    assert_eq!(not_json.body(), "");
    let other = Envelope::new(AgentId(1), AgentId(2), MessageKind::Message, "{\"ok\":true}".to_string());
    assert_eq!(other.body(), "");
}

#[test]
fn stamped_envelope_carries_its_time() {
    let e = Envelope::stamped(AgentId(1), AgentId(2), MessageKind::Ack, message_payload("x"), 42, 1_700_000_000_000);
    assert_eq!(e.id, 42);
    assert_eq!(e.sent_at, 1_700_000_000_000);
    assert_eq!(e.kind, MessageKind::Ack);
    assert_eq!(e.from_name, None);
    assert_eq!(e.in_reply_to, None);
}

#[test]
fn clock_readings_become_stamps() {
    assert_eq!(stamp_from_reading(Some(1_700_000_000_123)), 1_700_000_000_123);
    assert_eq!(stamp_from_reading(Some(u64::MAX as u128)), u64::MAX);
    assert_eq!(stamp_from_reading(Some(u64::MAX as u128 + 1)), 0);
    assert_eq!(stamp_from_reading(None), 0);
    assert!(now_unix_millis() > 1_600_000_000_000);
}

#[test]
fn message_payload_is_compact_json_with_escapes() {
    assert_eq!(message_payload("hi"), "{\"body\":\"hi\"}");
    assert_eq!(message_payload("a\"b\\c\nd\u{1}é"), "{\"body\":\"a\\\"b\\\\c\\nd\\u0001é\"}");
    assert_eq!(message_payload("\t\r\u{8}\u{c}\u{1f}"), "{\"body\":\"\\t\\r\\b\\f\\u001f\"}");
}
