use aerial::envelope::{message_payload, AgentId, Envelope, MessageKind};
use aerial::flows::{drain_targets, expect_acked, status_report, Expected, FlowError};
use aerial::protocol::DaemonResponse;
use aerial::supervisor::{
    ack_outcome, codex_invocation, codex_prompt, history_from, require_command, select_pending, AgentMessage,
    SupervisorError,
};
use aerial::transcript::TranscriptMessage;

fn envelope(body: &str) -> Envelope {
    Envelope::new(AgentId::new(), AgentId::new(), MessageKind::Message, message_payload(body))
}

#[test]
fn codex_prompt_includes_message_and_history() {
    let message = AgentMessage {
        agent: "agent2".to_owned(),
        envelope: envelope("Update the launch page."),
        history: Vec::new(),
    };

    let prompt = codex_prompt(&message);

    assert!(prompt.contains("agent: agent2"));
    assert!(prompt.contains("Update the launch page."));
    assert!(prompt.contains("will ack it only if this command exits successfully"));
}

#[test]
fn codex_prompt_lists_history_and_envelope_id() {
    let e = envelope("do it");
    let past = TranscriptMessage { envelope: envelope("earlier"), from_name: "a".into(), to_name: "b".into() };
    let message = AgentMessage { agent: "b".into(), envelope: e.clone(), history: vec![past] };
    let prompt = codex_prompt(&message);
    let id = uuid::Uuid::from_u128(e.id).to_string();
    assert!(prompt.contains(&format!("- envelope_id: {id}\n")));
    assert!(prompt.contains("Recent Aerial history:\n- Agent a -> Agent b \"earlier\"\n\n"));
    assert!(prompt.starts_with("You are an Aerial-managed coding agent.\n\nAerial message context:\n"));
    let argv = codex_invocation("never", "/repo", &message);
    assert_eq!(argv[..6], ["codex", "--ask-for-approval", "never", "exec", "--cd", "/repo"]);
    assert_eq!(argv[6], prompt);
    assert_eq!(message.body(), "do it");
    assert_eq!(message.id(), e.id);
}

#[test]
fn supervisor_reads_daemon_answers() {
    let a = envelope("a");
    let b = envelope("b");
    let pending = DaemonResponse::Pending { envelopes: vec![a.clone(), b.clone()] };
    assert_eq!(select_pending("r", b.id, pending.clone()), Ok(b.clone()));
    assert_eq!(
        select_pending("r", 99, pending),
        Err(SupervisorError::MissingMessage { agent: "r".into(), id: 99 })
    );
    let wrong = DaemonResponse::Acked { id: 1 };
    assert_eq!(select_pending("r", 1, wrong.clone()), Err(SupervisorError::UnexpectedResponse(wrong.clone())));
    assert_eq!(history_from(DaemonResponse::History { messages: vec![] }), Ok(vec![]));
    assert_eq!(ack_outcome(wrong.clone()), Ok(()));
    assert_eq!(
        ack_outcome(DaemonResponse::Error { message: "x".into() }),
        Err(SupervisorError::UnexpectedResponse(DaemonResponse::Error { message: "x".into() }))
    );
    assert_eq!(require_command(&vec![]), Err(SupervisorError::EmptyCommand));
    assert_eq!(require_command(&vec!["sh".to_string()]), Ok(()));
}

#[test]
fn flows_read_daemon_answers() {
    let a = envelope("a");
    let b = envelope("b");
    assert_eq!(drain_targets(DaemonResponse::Pending { envelopes: vec![a.clone(), b.clone()] }), Ok(vec![a.id, b.id]));
    assert_eq!(
        drain_targets(DaemonResponse::Acked { id: 3 }),
        Err(FlowError { expected: Expected::Pending, got: DaemonResponse::Acked { id: 3 } })
    );
    assert_eq!(expect_acked(DaemonResponse::Acked { id: 3 }), Ok(3));
    let report = status_report(
        Some("bob".into()),
        Some(DaemonResponse::Pending { envelopes: vec![a.clone()] }),
        DaemonResponse::History { messages: vec![] },
    )
    .expect("status");
    assert_eq!(report.pending, vec![a]);
    assert_eq!(report.agent.as_deref(), Some("bob"));
    let no_agent = status_report(None, None, DaemonResponse::History { messages: vec![] }).expect("status");
    assert!(no_agent.pending.is_empty());
    assert_eq!(
        status_report(None, None, DaemonResponse::Acked { id: 1 }),
        Err(FlowError { expected: Expected::History, got: DaemonResponse::Acked { id: 1 } })
    );
}
