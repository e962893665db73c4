use aerial::envelope::{message_payload, AgentId, Envelope, MessageKind};
use aerial::transcript::{summarize_body, Transcript, TranscriptMessage};

fn message(body: &str, from: &str, to: &str) -> TranscriptMessage {
    TranscriptMessage {
        envelope: Envelope::new(AgentId::new(), AgentId::new(), MessageKind::Message, message_payload(body)),
        from_name: from.to_owned(),
        to_name: to.to_owned(),
    }
}

#[test]
fn summary_truncates_body_to_history_view() {
    let message = message("abcdefghijklmnopqrstuvwxyzABCDEFGHIJKLMNOPQRSTUVWXYZ", "engineer", "researcher");

    assert!(message
        .render_summary()
        .ends_with("\"abcdefghijklmnopqrstuvwxyzABCDEFGHIJKLMNOPQRSTUVWX ....\""));
    assert!(message.render_summary().starts_with("Agent engineer -> Agent researcher"));
}

#[test]
fn transcript_tails_messages() {
    let mut transcript = Transcript::new("history.jsonl".to_string());

    for body in ["first", "second", "third"] {
        transcript.append(&message(body, "a", "b"));
    }

    let tail = transcript.tail(Some(2));

    assert_eq!(tail.len(), 2);
    assert_eq!(tail[0].envelope.body(), "second");
    assert_eq!(tail[1].envelope.body(), "third");
}

#[test]
fn tail_without_limit_or_with_a_large_one_is_everything() {
    let mut transcript = Transcript::new("h.jsonl".to_string());
    transcript.append(&message("one", "a", "b"));
    transcript.append(&message("two", "a", "b"));
    assert_eq!(transcript.tail(None), transcript.messages());
    assert_eq!(transcript.tail(Some(10)).len(), 2);
    assert!(transcript.tail(Some(0)).is_empty());
    assert_eq!(transcript.path(), "h.jsonl");
}

#[test]
fn summary_escapes_quotes_backslashes_and_line_breaks() {
    assert_eq!(summarize_body("say \"hi\"\\now\nok"), "say \\\"hi\\\"\\\\now ok");
    let exact: String = "x".repeat(50);
    assert_eq!(summarize_body(&exact), exact);
    let long: String = "é".repeat(51);
    assert_eq!(summarize_body(&long), format!("{} ....", "é".repeat(50)));
}

#[test]
fn summary_of_message_without_string_body_is_empty() {
    let m = TranscriptMessage {
        envelope: Envelope::new(AgentId(1), AgentId(2), MessageKind::Message, "{\"ok\":true}".to_string()),
        from_name: "a".to_string(),
        to_name: "b".to_string(),
    };
    assert_eq!(m.render_summary(), "Agent a -> Agent b \"\"");
}
