use aerial::envelope::{message_payload, AgentId, Envelope, MessageKind};
use aerial::mailbox::{Mailbox, MailboxRecord};

fn envelope(body: &str) -> Envelope {
    Envelope::new(AgentId::new(), AgentId::new(), MessageKind::Message, message_payload(body))
}

#[test]
fn pending_messages_survive_reopen_until_acked() {
    let path = "researcher.jsonl".to_string();
    let sender = AgentId::new();
    let recipient = AgentId::new();
    let first = Envelope::new(sender, recipient, MessageKind::Message, message_payload("first"));
    let second = Envelope::new(sender, recipient, MessageKind::Message, message_payload("second"));

    let mut mailbox = Mailbox::new(path.clone());
    mailbox.enqueue(&first);
    mailbox.enqueue(&second);
    mailbox.ack(first.id);

    let reopened = Mailbox::from_records(path, mailbox.records().clone());
    let pending = reopened.pending();

    assert_eq!(pending, vec![second]);
}

#[test]
fn enqueue_and_ack_return_the_records_to_store() {
    let e = envelope("x");
    let mut mailbox = Mailbox::new("m.jsonl".to_string());
    assert_eq!(mailbox.path(), "m.jsonl");
    let record = mailbox.enqueue(&e);
    assert_eq!(record, MailboxRecord::Envelope { envelope: e.clone() });
    let ack = mailbox.ack(e.id);
    assert_eq!(ack, MailboxRecord::Ack { id: e.id });
    assert_eq!(mailbox.records().len(), 2);
    assert!(mailbox.pending().is_empty());
}

#[test]
fn pending_keeps_delivery_order() {
    let a = envelope("a");
    let b = envelope("b");
    let c = envelope("c");
    let mut mailbox = Mailbox::new("m.jsonl".to_string());
    mailbox.enqueue(&a);
    mailbox.enqueue(&b);
    mailbox.enqueue(&c);
    mailbox.ack(b.id);
    assert_eq!(mailbox.pending(), vec![a, c]);
}

#[test]
fn redelivered_envelope_is_pending_once() {
    let a = envelope("a");
    let b = envelope("b");
    let mut mailbox = Mailbox::new("m.jsonl".to_string());
    mailbox.enqueue(&a);
    mailbox.enqueue(&b);
    mailbox.enqueue(&a);
    assert_eq!(mailbox.pending(), vec![a, b]);
}

#[test]
fn acked_envelope_never_returns() {
    let a = envelope("a");
    let mut mailbox = Mailbox::new("m.jsonl".to_string());
    mailbox.ack(a.id);
    mailbox.enqueue(&a);
    assert!(mailbox.pending().is_empty());

    let b = envelope("b");
    mailbox.enqueue(&b);
    mailbox.ack(b.id);
    mailbox.enqueue(&b);
    assert!(mailbox.pending().is_empty());
}

#[test]
fn acking_twice_or_unknown_ids_changes_nothing() {
    let a = envelope("a");
    let b = envelope("b");
    let mut mailbox = Mailbox::new("m.jsonl".to_string());
    mailbox.enqueue(&a);
    mailbox.enqueue(&b);
    mailbox.ack(a.id);
    mailbox.ack(a.id);
    mailbox.ack(12345);
    assert_eq!(mailbox.pending(), vec![b]);
}

#[test]
fn acking_every_pending_id_empties_the_mailbox() {
    let mut mailbox = Mailbox::new("m.jsonl".to_owned());
    let a = Envelope::stamped(AgentId(1), AgentId(2), MessageKind::Message, message_payload("a"), 1, 0);
    let b = Envelope::stamped(AgentId(1), AgentId(2), MessageKind::Message, message_payload("b"), 2, 0);
    mailbox.enqueue(&a);
    mailbox.enqueue(&b);
    mailbox.enqueue(&a);
    for envelope in mailbox.pending() {
        mailbox.ack(envelope.id);
    }
    assert!(mailbox.pending().is_empty());
    assert_eq!(mailbox.records().len(), 5);
}
