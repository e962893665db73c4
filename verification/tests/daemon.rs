use aerial::daemon::{
    agent_listing, agent_statuses, arrival_event, connect_error, history_path, join_path, jsonl_stem, mailbox_path, mailboxes_dir, replay_events,
    restore_state, socket_path, DaemonError, DaemonState, MailboxFile,
};
use aerial::envelope::{message_payload, AgentId, Envelope, MessageKind};
use aerial::mailbox::{Mailbox, MailboxError};
use aerial::protocol::WatchEvent;
use aerial::registry::RegisteredAgent;
use aerial::transcript::{Transcript, TranscriptError, TranscriptMessage};
use aerial::watch::{WatchOpening, Watchers};

#[test]
fn daemon_sends_to_named_mailbox_and_acks() {
    let mut state = DaemonState::new();
    let envelope = state
        .send("engineer".to_owned(), "researcher".to_owned(), "status?", None, true)
        .expect("send");

    assert_eq!(envelope.from_name.as_deref(), Some("engineer"));
    assert_eq!(envelope.to_name.as_deref(), Some("researcher"));

    let mut mailbox = Mailbox::new(mailbox_path(".aerial", "researcher"));
    mailbox.enqueue(&envelope);
    assert_eq!(mailbox.pending(), vec![envelope.clone()]);

    mailbox.ack(envelope.id);
    assert!(mailbox.pending().is_empty());
}

#[test]
fn daemon_rejects_unknown_recipient_without_create() {
    let mut state = DaemonState::new();
    let error = state
        .send("engineer".to_owned(), "ghost".to_owned(), "hello?", None, false)
        .expect_err("unknown recipient should fail");

    assert!(matches!(error, DaemonError::UnknownRecipient(name) if name == "ghost"));
}

#[test]
fn registered_recipient_is_restored_after_restart() {
    let mut state = DaemonState::new();
    state.register("researcher".to_owned());
    drop(state);

    let files = vec![MailboxFile { file_name: "researcher.jsonl".to_owned(), modified: 5 }];
    let mut restarted = restore_state(&Vec::new(), &files);
    let envelope = restarted
        .send("engineer".to_owned(), "researcher".to_owned(), "still there?", None, false)
        .expect("send to restored recipient");
    let mut mailbox = Mailbox::new(mailbox_path(".aerial", "researcher"));
    mailbox.enqueue(&envelope);

    let agents = agent_listing(&restarted.registry().agents(), &vec![mailbox]);
    assert_eq!(agents.len(), 1);
    assert_eq!(agents[0].name, "researcher");
    assert_eq!(agents[0].pending, 1);
}

#[test]
fn history_sender_is_not_restored_as_a_registered_recipient() {
    let mut state = DaemonState::new();
    let envelope = state
        .send("sender-only".to_owned(), "researcher".to_owned(), "hello", None, true)
        .expect("initial send");
    let history = vec![TranscriptMessage {
        envelope: envelope.clone(),
        from_name: "sender-only".to_owned(),
        to_name: "researcher".to_owned(),
    }];
    let files = vec![MailboxFile { file_name: "researcher.jsonl".to_owned(), modified: 0 }];

    let mut restarted = restore_state(&history, &files);
    let error = restarted
        .send("engineer".to_owned(), "sender-only".to_owned(), "should fail", None, false)
        .expect_err("sender-only name should not become a recipient");

    assert!(matches!(error, DaemonError::UnknownRecipient(name) if name == "sender-only"));
    let researcher = restarted.registry().resolve("researcher").cloned().expect("restored");
    assert_eq!(researcher.id, envelope.to);
}

#[test]
fn daemon_records_send_history() {
    let mut state = DaemonState::new();
    let envelope = state
        .send("engineer".to_owned(), "researcher".to_owned(), "please inspect the docs", None, true)
        .expect("send");
    let mut transcript = Transcript::new(history_path(".aerial"));
    transcript.append(&TranscriptMessage {
        envelope,
        from_name: "engineer".to_owned(),
        to_name: "researcher".to_owned(),
    });

    let messages = transcript.tail(Some(1));
    assert_eq!(messages.len(), 1);
    assert_eq!(messages[0].from_name, "engineer");
    assert_eq!(messages[0].to_name, "researcher");
    assert_eq!(messages[0].envelope.body(), "please inspect the docs");
}

#[test]
fn sender_identity_is_reused_and_recipient_keeps_its_registration() {
    let mut state = DaemonState::new();
    let researcher = state.register("researcher".to_owned());
    let first = state.send("engineer".to_owned(), "researcher".to_owned(), "a", None, false).expect("first");
    let second = state.send("engineer".to_owned(), "researcher".to_owned(), "b", Some(first.id), false).expect("second");
    assert_eq!(first.to, researcher.id);
    assert_eq!(second.to, researcher.id);
    assert_eq!(first.from, second.from);
    assert_eq!(second.in_reply_to, Some(first.id));
    assert_eq!(second.payload, message_payload("b"));
    assert_eq!(state.agent_id("engineer"), first.from);
    assert_eq!(state.agent_id("researcher"), researcher.id);
    assert!(state.registry().resolve("engineer").is_none());
}

#[test]
fn restore_prefers_history_identity_and_latest_time() {
    let engineer = AgentId(11);
    let researcher = AgentId(22);
    let mut e1 = Envelope::new(engineer, researcher, MessageKind::Message, message_payload("x"));
    e1.sent_at = 100;
    let mut e2 = Envelope::new(engineer, AgentId(33), MessageKind::Message, message_payload("y"));
    e2.sent_at = 50;
    let history = vec![
        TranscriptMessage { envelope: e1, from_name: "engineer".into(), to_name: "researcher".into() },
        TranscriptMessage { envelope: e2, from_name: "engineer".into(), to_name: "researcher".into() },
    ];
    let files = vec![
        MailboxFile { file_name: "researcher.jsonl".into(), modified: 70 },
        MailboxFile { file_name: "notes.txt".into(), modified: 1 },
        MailboxFile { file_name: ".jsonl".into(), modified: 1 },
        MailboxFile { file_name: "newcomer.jsonl".into(), modified: 9 },
    ];
    let state = restore_state(&history, &files);
    let agents = state.registry().agents();
    assert_eq!(agents.len(), 2);
    assert_eq!(agents[0].name, "newcomer");
    assert_eq!(agents[0].connected_at, 9);
    assert_eq!((agents[0].id.as_uuid() >> 76) & 0xf, 4);
    assert_eq!(agents[1], RegisteredAgent { id: researcher, name: "researcher".into(), connected_at: 100 });
}

#[test]
fn paths_join_like_pathbuf() {
    assert_eq!(mailboxes_dir(".aerial"), ".aerial/mailboxes");
    assert_eq!(mailbox_path("/data/", "bob"), "/data/mailboxes/bob.jsonl");
    assert_eq!(history_path(""), "history.jsonl");
    assert_eq!(socket_path("x"), "x/aerial.sock");
    assert_eq!(join_path("a/b", "/abs"), "/abs");
    assert_eq!(join_path("a//", "c"), "a//c");
}

#[test]
fn mailbox_file_names_give_agent_names() {
    assert_eq!(jsonl_stem("bob.jsonl").as_deref(), Some("bob"));
    assert_eq!(jsonl_stem("a.b.jsonl").as_deref(), Some("a.b"));
    assert_eq!(jsonl_stem(".jsonl"), None);
    assert_eq!(jsonl_stem("bob.json"), None);
    assert_eq!(jsonl_stem("bob.JSONL"), None);
    assert_eq!(jsonl_stem("jsonl"), None);
}

#[test]
fn late_watcher_gets_one_event_per_pending_envelope() {
    let a = Envelope::new(AgentId(1), AgentId(2), MessageKind::Message, message_payload("a"));
    let b = Envelope::new(AgentId(1), AgentId(2), MessageKind::Message, message_payload("b"));
    let events = replay_events("receiver", &vec![a.clone(), b.clone()]);
    assert_eq!(
        events,
        vec![
            WatchEvent::Message { agent: "receiver".into(), id: a.id },
            WatchEvent::Message { agent: "receiver".into(), id: b.id },
        ]
    );
}

#[test]
fn agent_listing_pairs_counts_with_registrations() {
    let agents = vec![RegisteredAgent { id: AgentId(3), name: "r".into(), connected_at: 9 }];
    let statuses = agent_statuses(&agents, &vec![2]);
    assert_eq!(statuses.len(), 1);
    assert_eq!(statuses[0].name, "r");
    assert_eq!(statuses[0].id, AgentId(3));
    assert_eq!(statuses[0].pending, 2);
    assert_eq!(statuses[0].last_seen, 9);
}

#[test]
fn late_watcher_is_replayed_pending_mail() {
    let mut state = DaemonState::new();
    let envelope = state
        .send("sender".to_owned(), "receiver".to_owned(), "queued while offline", None, true)
        .expect("send");
    let mut mailbox = Mailbox::new(mailbox_path(".aerial", "receiver"));
    mailbox.enqueue(&envelope);

    let events = replay_events("receiver", &mailbox.pending());

    assert_eq!(events.first(), Some(&WatchEvent::Message { agent: "receiver".to_owned(), id: envelope.id }));
}

#[test]
fn connect_error_names_the_data_directory() {
    let error = connect_error("/tmp/x/missing.sock", "refused".to_string());
    assert_eq!(
        error,
        DaemonError::Connect {
            socket: "/tmp/x/missing.sock".into(),
            data_dir: "/tmp/x".into(),
            message: "refused".into(),
        }
    );
    assert!(matches!(connect_error("/", "e".into()), DaemonError::Connect { data_dir, .. } if data_dir == ".aerial"));
    assert!(matches!(connect_error("missing.sock", "e".into()), DaemonError::Connect { data_dir, .. } if data_dir.is_empty()));
}

#[test]
fn connection_error_includes_startup_remedy() {
    let dir = "/tmp/aerial-remedy";
    let socket = format!("{dir}/missing.sock");
    let error = connect_error(&socket, "No such file or directory (os error 2)".to_string());
    let message = error.message();

    assert!(message.contains("cannot connect to the Aerial daemon"));
    assert!(message.contains("aerial up --data-dir"));
    assert!(message.contains(dir));
}

#[test]
fn connection_error_text_is_exact() {
    let error = connect_error("/tmp/x/missing.sock", "refused".to_string());
    assert_eq!(
        error.message(),
        "cannot connect to the Aerial daemon at /tmp/x/missing.sock: refused. Start it with `aerial up --data-dir /tmp/x`"
    );
}

#[test]
fn daemon_error_texts() {
    assert_eq!(
        DaemonError::UnknownRecipient("bob".into()).message(),
        "unknown recipient `bob`; register it with `aerial join bob` or resend with `--create`"
    );
    assert_eq!(
        DaemonError::Io { path: "<socket>".into(), message: "broken pipe".into() }.message(),
        "daemon io error at <socket>: broken pipe"
    );
    assert_eq!(DaemonError::Decode("eof".into()).message(), "protocol decode error: eof");
    assert_eq!(
        DaemonError::Mailbox(MailboxError::InvalidRecord { path: "a.jsonl".into(), line: 120, message: "bad".into() })
            .message(),
        "mailbox error: invalid mailbox record at a.jsonl:120: bad"
    );
    assert_eq!(
        DaemonError::Transcript(TranscriptError::Encode("x".into())).message(),
        "transcript error: failed to encode transcript record: x"
    );
    assert_eq!(
        MailboxError::Io { path: "m".into(), message: "denied".into() }.message(),
        "mailbox io error at m: denied"
    );
    assert_eq!(
        TranscriptError::InvalidRecord { path: "h".into(), line: 7, message: "eof".into() }.message(),
        "invalid transcript record at h:7: eof"
    );
}

#[test]
fn watch_is_notified_on_new_mail() {
    let mut state = DaemonState::new();
    let mut watchers = Watchers::new();
    let token = watchers.subscribe("researcher".to_owned()).expect("token");

    let envelope = state
        .send("engineer".to_owned(), "researcher".to_owned(), "wake up", None, true)
        .expect("send");
    let targets = watchers.notify_targets("researcher");
    let events: Vec<WatchEvent> = targets.iter().map(|_| arrival_event("researcher", envelope.id)).collect();

    assert_eq!(targets, vec![token]);
    assert_eq!(events, vec![WatchEvent::Message { agent: "researcher".to_owned(), id: envelope.id }]);
}

#[test]
fn watch_for_other_agent_is_not_notified() {
    let mut state = DaemonState::new();
    let mut watchers = Watchers::new();
    watchers.subscribe("someone_else".to_owned()).expect("token");

    state
        .send("engineer".to_owned(), "researcher".to_owned(), "not for you", None, true)
        .expect("send");

    assert!(watchers.notify_targets("researcher").is_empty());
}

#[test]
fn retired_watcher_is_not_notified() {
    let mut watchers = Watchers::new();
    let first = watchers.subscribe("researcher".to_owned()).expect("token");
    let second = watchers.subscribe("researcher".to_owned()).expect("token");
    assert_ne!(first, second);
    watchers.retire(first);
    assert_eq!(watchers.notify_targets("researcher"), vec![second]);
}

#[test]
fn registration_holds_for_later_sends() {
    let mut state = DaemonState::new();
    let researcher = state.register("researcher".to_owned());
    state.register("engineer".to_owned());
    let first = state.send("engineer".to_owned(), "researcher".to_owned(), "one", None, false).expect("send");
    let second = state.send("someone".to_owned(), "researcher".to_owned(), "two", None, true).expect("send");
    assert_eq!(first.to, researcher.id);
    assert_eq!(second.to, researcher.id);
    let again = state.register("researcher".to_owned());
    let third = state.send("engineer".to_owned(), "researcher".to_owned(), "three", None, false).expect("send");
    assert_eq!(third.to, again.id);
    assert_ne!(again.id, researcher.id);
}

#[test]
fn watch_opening_subscribes_then_replays() {
    let mut state = DaemonState::new();
    let mut watchers = Watchers::new();
    let queued = state
        .send("sender".to_owned(), "receiver".to_owned(), "queued while offline", None, true)
        .expect("send");
    let mut mailbox = Mailbox::new(mailbox_path(".aerial", "receiver"));
    mailbox.enqueue(&queued);

    let opening = WatchOpening::subscribe(&mut watchers, "receiver".to_owned()).expect("token");
    assert_eq!(watchers.notify_targets("receiver"), vec![opening.token()]);

    let racing = state.send("sender".to_owned(), "receiver".to_owned(), "meanwhile", None, false).expect("send");
    mailbox.enqueue(&racing);
    let announced: Vec<WatchEvent> =
        watchers.notify_targets("receiver").iter().map(|_| arrival_event("receiver", racing.id)).collect();
    let replayed = opening.replay(&mailbox.pending());

    assert_eq!(
        replayed,
        vec![
            WatchEvent::Message { agent: "receiver".to_owned(), id: queued.id },
            WatchEvent::Message { agent: "receiver".to_owned(), id: racing.id },
        ]
    );
    assert_eq!(announced, vec![WatchEvent::Message { agent: "receiver".to_owned(), id: racing.id }]);
}

#[test]
fn fresh_watchers_always_subscribe() {
    let mut watchers = Watchers::default();
    assert_eq!(watchers.subscribe("a".to_owned()), Some(0));
    assert_eq!(watchers.subscribe("b".to_owned()), Some(1));
    let opening = WatchOpening::subscribe(&mut watchers, "a".to_owned()).expect("token");
    assert_eq!(opening.token(), 2);
}

#[test]
fn notification_wakes_each_watcher_of_the_agent_and_prunes_only_dead_ones() {
    let mut watchers = Watchers::new();
    let first = watchers.subscribe("researcher".to_owned()).expect("token");
    let other = watchers.subscribe("engineer".to_owned()).expect("token");
    let second = watchers.subscribe("researcher".to_owned()).expect("token");

    let deliveries = watchers.deliveries("researcher", 42);
    let event = WatchEvent::Message { agent: "researcher".to_owned(), id: 42 };
    assert_eq!(deliveries, vec![(first, event.clone()), (second, event)]);

    watchers.prune(&vec![first]);
    assert_eq!(watchers.notify_targets("researcher"), vec![second]);
    assert_eq!(watchers.notify_targets("engineer"), vec![other]);
    assert!(watchers.deliveries("nobody", 1).is_empty());
}
