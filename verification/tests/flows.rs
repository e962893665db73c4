use aerial::envelope::{message_payload, AgentId, Envelope, MessageKind};
use aerial::flows::{DrainFlow, ExchangeFlow, ExchangeRequest, Expected, FlowError, FlowStep};
use aerial::mailbox::Mailbox;
use aerial::protocol::{DaemonRequest, DaemonResponse};

fn envelope(id: u128, body: &str) -> Envelope {
    Envelope::stamped(AgentId(1), AgentId(2), MessageKind::Message, message_payload(body), id, 5)
}

fn ask<S, T>(step: FlowStep<S, T>) -> (DaemonRequest, S) {
    match step {
        FlowStep::Ask { request, then } => (request, then),
        FlowStep::Finished(_) => panic!("finished early"),
        FlowStep::Stopped(error) => panic!("stopped: {:?}", error.expected),
    }
}

#[test]
fn drain_acks_each_pending_envelope_in_order() {
    let (flow, first) = DrainFlow::start("researcher".to_owned());
    assert_eq!(first, DaemonRequest::Pending { agent: "researcher".to_owned() });

    let pending = DaemonResponse::Pending { envelopes: vec![envelope(7, "a"), envelope(9, "b")] };
    let (request, flow) = ask(flow.step(pending));
    assert_eq!(request, DaemonRequest::Ack { agent: "researcher".to_owned(), id: 7 });
    let (request, flow) = ask(flow.step(DaemonResponse::Acked { id: 7 }));
    assert_eq!(request, DaemonRequest::Ack { agent: "researcher".to_owned(), id: 9 });
    match flow.step(DaemonResponse::Acked { id: 9 }) {
        FlowStep::Finished(acked) => assert_eq!(acked, vec![7, 9]),
        _ => panic!("drain should finish"),
    }
}

#[test]
fn drain_of_empty_mailbox_finishes_at_once() {
    let (flow, _) = DrainFlow::start("idle".to_owned());
    match flow.step(DaemonResponse::Pending { envelopes: vec![] }) {
        FlowStep::Finished(acked) => assert!(acked.is_empty()),
        _ => panic!("drain should finish"),
    }
}

#[test]
fn drain_stops_at_first_failed_ack() {
    let (flow, _) = DrainFlow::start("researcher".to_owned());
    let (_, flow) = ask(flow.step(DaemonResponse::Pending { envelopes: vec![envelope(7, "a"), envelope(9, "b")] }));
    let failure = DaemonResponse::Error { message: "disk full".into() };
    match flow.step(failure.clone()) {
        FlowStep::Stopped(error) => assert_eq!(error, FlowError { expected: Expected::Acked, got: failure }),
        _ => panic!("drain should stop"),
    }
}

#[test]
fn drain_leaves_mailbox_without_pending_mail() {
    let mut mailbox = Mailbox::new("/tmp/aerial/mailboxes/researcher.jsonl".to_owned());
    mailbox.enqueue(&envelope(7, "a"));
    mailbox.enqueue(&envelope(9, "b"));
    let (mut flow, mut request) = DrainFlow::start("researcher".to_owned());
    let acked = loop {
        let response = match request {
            DaemonRequest::Pending { .. } => DaemonResponse::Pending { envelopes: mailbox.pending() },
            DaemonRequest::Ack { id, .. } => {
                mailbox.ack(id);
                DaemonResponse::Acked { id }
            }
            _ => panic!("drain asks only for pending mail and acks"),
        };
        match flow.step(response) {
            FlowStep::Ask { request: next, then } => {
                request = next;
                flow = then;
            }
            FlowStep::Finished(acked) => break acked,
            FlowStep::Stopped(_) => panic!("drain stopped"),
        }
    };
    assert_eq!(acked, vec![7, 9]);
    assert!(mailbox.pending().is_empty());
}

#[test]
fn exchange_registers_sends_without_create_and_reports() {
    let ask_for = ExchangeRequest {
        from: "engineer".into(),
        to: "researcher".into(),
        body: "hi".into(),
        in_reply_to: Some(3),
        limit: Some(5),
    };
    let (flow, first) = ExchangeFlow::start(ask_for);
    assert_eq!(first, DaemonRequest::Register { name: "engineer".into() });
    let (request, flow) = ask(flow.step(DaemonResponse::Registered { name: "engineer".into(), id: AgentId(1) }));
    assert_eq!(request, DaemonRequest::Register { name: "researcher".into() });
    let (request, flow) = ask(flow.step(DaemonResponse::Registered { name: "researcher".into(), id: AgentId(2) }));
    assert_eq!(
        request,
        DaemonRequest::Send {
            from: "engineer".into(),
            to: "researcher".into(),
            body: "hi".into(),
            in_reply_to: Some(3),
            create: false,
        }
    );
    let sent = envelope(11, "hi");
    let (request, flow) = ask(flow.step(DaemonResponse::Sent { envelope: sent.clone() }));
    assert_eq!(request, DaemonRequest::Pending { agent: "researcher".into() });
    let (request, flow) = ask(flow.step(DaemonResponse::Pending { envelopes: vec![sent.clone()] }));
    assert_eq!(request, DaemonRequest::History { limit: Some(5) });
    match flow.step(DaemonResponse::History { messages: vec![] }) {
        FlowStep::Finished(report) => {
            assert_eq!(report.from, "engineer");
            assert_eq!(report.to, "researcher");
            assert_eq!(report.sent, sent);
            assert_eq!(report.status.agent.as_deref(), Some("researcher"));
            assert_eq!(report.status.pending, vec![sent]);
            assert!(report.status.history.is_empty());
        }
        _ => panic!("exchange should finish"),
    }
}

#[test]
fn exchange_stops_when_send_is_refused() {
    let ask_for = ExchangeRequest {
        from: "engineer".into(),
        to: "nobody".into(),
        body: "hi".into(),
        in_reply_to: None,
        limit: None,
    };
    let (flow, _) = ExchangeFlow::start(ask_for);
    let (_, flow) = ask(flow.step(DaemonResponse::Error { message: "ignored".into() }));
    let (_, flow) = ask(flow.step(DaemonResponse::Error { message: "ignored".into() }));
    let refusal = DaemonResponse::Error { message: "unknown recipient".into() };
    match flow.step(refusal.clone()) {
        FlowStep::Stopped(error) => assert_eq!(error, FlowError { expected: Expected::Sent, got: refusal }),
        _ => panic!("exchange should stop"),
    }
}

#[test]
fn whole_drain_acks_pending_ids_in_order() {
    let mut mailbox = Mailbox::new("/tmp/aerial/mailboxes/researcher.jsonl".to_owned());
    mailbox.enqueue(&envelope(7, "a"));
    mailbox.enqueue(&envelope(9, "b"));
    mailbox.ack(7);
    mailbox.enqueue(&envelope(11, "c"));
    let acked = aerial::flows::drain_mailbox("researcher".to_owned(), &mut mailbox);
    assert_eq!(acked, vec![9, 11]);
    assert!(mailbox.pending().is_empty());
    assert_eq!(mailbox.records().len(), 6);
}
