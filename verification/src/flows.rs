//! The multi-step flows offered by the CLI and the MCP macro tools (status,
//! drain, exchange): how the daemon's answers along the way are read and
//! what each flow reports.

use vstd::prelude::*;

use crate::envelope::Envelope;
use crate::mailbox::{ack_records, envelope_ids, law_drain_leaves_nothing_pending, pending_of, Mailbox};
use crate::protocol::{DaemonRequest, DaemonResponse, RequestView};
use crate::transcript::TranscriptMessage;

verus! {

/// The answer a flow step expects.
#[derive(Clone, Copy, Debug, PartialEq, Eq, Structural)]
pub enum Expected {
    Pending,
    History,
    Acked,
    Sent,
}

/// A flow stops when the daemon answers a step with something unexpected.
#[derive(Clone, Debug, PartialEq)]
pub struct FlowError {
    pub expected: Expected,
    pub got: DaemonResponse,
}

/// The pending envelopes in an answer to a pending-mail request.
pub fn expect_pending(response: DaemonResponse) -> (r: Result<Vec<Envelope>, FlowError>)
    ensures
        match response {
            DaemonResponse::Pending { envelopes } => r == Ok::<Vec<Envelope>, FlowError>(envelopes),
            other => r == Err::<Vec<Envelope>, FlowError>(FlowError { expected: Expected::Pending, got: other }),
        },
{
    match response {
        DaemonResponse::Pending { envelopes } => Ok(envelopes),
        other => Err(FlowError { expected: Expected::Pending, got: other }),
    }
}

/// The messages in an answer to a history request.
pub fn expect_history(response: DaemonResponse) -> (r: Result<Vec<TranscriptMessage>, FlowError>)
    ensures
        match response {
            DaemonResponse::History { messages } => r == Ok::<Vec<TranscriptMessage>, FlowError>(messages),
            other => r == Err::<Vec<TranscriptMessage>, FlowError>(
                FlowError { expected: Expected::History, got: other },
            ),
        },
{
    match response {
        DaemonResponse::History { messages } => Ok(messages),
        other => Err(FlowError { expected: Expected::History, got: other }),
    }
}

/// The acked id in an answer to an ack request.
pub fn expect_acked(response: DaemonResponse) -> (r: Result<u128, FlowError>)
    ensures
        match response {
            DaemonResponse::Acked { id } => r == Ok::<u128, FlowError>(id),
            other => r == Err::<u128, FlowError>(FlowError { expected: Expected::Acked, got: other }),
        },
{
    match response {
        DaemonResponse::Acked { id } => Ok(id),
        other => Err(FlowError { expected: Expected::Acked, got: other }),
    }
}

/// The sent envelope in an answer to a send request.
pub fn expect_sent(response: DaemonResponse) -> (r: Result<Envelope, FlowError>)
    ensures
        match response {
            DaemonResponse::Sent { envelope } => r == Ok::<Envelope, FlowError>(envelope),
            other => r == Err::<Envelope, FlowError>(FlowError { expected: Expected::Sent, got: other }),
        },
{
    match response {
        DaemonResponse::Sent { envelope } => Ok(envelope),
        other => Err(FlowError { expected: Expected::Sent, got: other }),
    }
}

/// An optional agent's inbox plus recent history.
#[derive(Clone, Debug, PartialEq)]
pub struct StatusReport {
    pub agent: Option<String>,
    pub pending: Vec<Envelope>,
    pub history: Vec<TranscriptMessage>,
}

/// The status report from the daemon's answers: to the pending-mail request
/// for `agent` (made only when an agent is named) and to the history request.
pub fn status_report(
    agent: Option<String>,
    pending: Option<DaemonResponse>,
    history: DaemonResponse,
) -> (r: Result<StatusReport, FlowError>)
    requires
        agent is Some <==> pending is Some,
    ensures
        match (pending, history) {
            (Some(DaemonResponse::Pending { envelopes }), DaemonResponse::History { messages }) => r == Ok::<
                StatusReport,
                FlowError,
            >(StatusReport { agent, pending: envelopes, history: messages }),
            (None, DaemonResponse::History { messages }) => r matches Ok(rep) && rep.agent == agent
                && rep.pending@.len() == 0 && rep.history == messages,
            (Some(DaemonResponse::Pending { .. }), other) => r == Err::<StatusReport, FlowError>(
                FlowError { expected: Expected::History, got: other },
            ),
            (None, other) => r == Err::<StatusReport, FlowError>(FlowError { expected: Expected::History, got: other }),
            (Some(other), _) => r == Err::<StatusReport, FlowError>(
                FlowError { expected: Expected::Pending, got: other },
            ),
        },
{
    let envelopes = match pending {
        Some(response) => expect_pending(response)?,
        None => Vec::new(),
    };
    let messages = expect_history(history)?;
    Ok(StatusReport { agent, pending: envelopes, history: messages })
}

/// The envelope ids a drain acks, in pending order.
pub fn drain_targets(pending: DaemonResponse) -> (r: Result<Vec<u128>, FlowError>)
    ensures
        match pending {
            DaemonResponse::Pending { envelopes } => match r {
                Ok(ids) => ids@ == envelopes@.map_values(|e: Envelope| e.id),
                Err(_) => false,
            },
            other => r == Err::<Vec<u128>, FlowError>(FlowError { expected: Expected::Pending, got: other }),
        },
{
    let envelopes = expect_pending(pending)?;
    let mut ids: Vec<u128> = Vec::new();
    let mut i: usize = 0;
    while i < envelopes.len()
        invariant
            i <= envelopes.len(),
            ids@ == envelopes@.take(i as int).map_values(|e: Envelope| e.id),
        decreases envelopes.len() - i,
    {
        ids.push(envelopes[i].id);
        assert(envelopes@.take(i + 1).map_values(|e: Envelope| e.id) =~= envelopes@.take(i as int).map_values(
            |e: Envelope| e.id,
        ).push(envelopes@[i as int].id));
        i = i + 1;
    }
    assert(envelopes@.take(envelopes.len() as int) =~= envelopes@);
    Ok(ids)
}

/// What an exchange sent and then saw in the recipient's inbox and history.
#[derive(Clone, Debug, PartialEq)]
pub struct ExchangeReport {
    pub from: String,
    pub to: String,
    pub sent: Envelope,
    pub status: StatusReport,
}

/// What a flow does after a daemon answer: ask the next request and go on
/// in state `then`, finish with its result, or stop at an unexpected answer.
pub enum FlowStep<S, T> {
    Ask { request: DaemonRequest, then: S },
    Finished(T),
    Stopped(FlowError),
}

/// A drain of `agent`'s mailbox: read the pending mail, then ack each
/// pending envelope in pending order, one request at a time.
pub enum DrainFlow {
    /// The pending-mail request is out.
    AwaitingPending { agent: String },
    /// The ack of `targets[acked.len()]` is out; `acked` holds the ids the
    /// daemon confirmed so far.
    AwaitingAck { agent: String, targets: Vec<u128>, acked: Vec<u128> },
}

impl DrainFlow {
    /// A drain of `agent`, and its first request: the pending mail of `agent`.
    pub fn start(agent: String) -> (r: (DrainFlow, DaemonRequest))
        ensures
            r.0 == (DrainFlow::AwaitingPending { agent }),
            r.1@ == (RequestView::Pending { agent: agent@ }),
    {
        let request = DaemonRequest::Pending { agent: agent.clone() };
        (DrainFlow::AwaitingPending { agent }, request)
    }

    /// The drain's next move on the daemon's answer to its last request. The
    /// pending envelopes' ids become the targets, acked one at a time in
    /// order; the flow finishes with the acked ids once every target is
    /// acked (at once where nothing is pending), and stops at the first
    /// answer of an unexpected kind.
    pub fn step(self, response: DaemonResponse) -> (r: FlowStep<DrainFlow, Vec<u128>>)
        ensures
            match self {
                DrainFlow::AwaitingPending { agent } => match response {
                    DaemonResponse::Pending { envelopes } => {
                        let ids = envelopes@.map_values(|e: Envelope| e.id);
                        if ids.len() == 0 {
                            r matches FlowStep::Finished(done) && done@.len() == 0
                        } else {
                            &&& r matches FlowStep::Ask { request, then }
                            &&& request@ == (RequestView::Ack { agent: agent@, id: ids[0] })
                            &&& then matches DrainFlow::AwaitingAck { agent: a, targets, acked }
                            &&& a == agent
                            &&& targets@ == ids
                            &&& acked@.len() == 0
                        }
                    },
                    other => r == FlowStep::<DrainFlow, Vec<u128>>::Stopped(
                        FlowError { expected: Expected::Pending, got: other },
                    ),
                },
                DrainFlow::AwaitingAck { agent, targets, acked } => match response {
                    DaemonResponse::Acked { id } => {
                        let done = acked@.push(id);
                        if done.len() < targets@.len() {
                            &&& r matches FlowStep::Ask { request, then }
                            &&& request@ == (RequestView::Ack { agent: agent@, id: targets@[done.len() as int] })
                            &&& then matches DrainFlow::AwaitingAck { agent: a, targets: t, acked: k }
                            &&& a == agent
                            &&& t@ == targets@
                            &&& k@ == done
                        } else {
                            r matches FlowStep::Finished(v) && v@ == done
                        }
                    },
                    other => r == FlowStep::<DrainFlow, Vec<u128>>::Stopped(
                        FlowError { expected: Expected::Acked, got: other },
                    ),
                },
            },
    {
        match self {
            DrainFlow::AwaitingPending { agent } => {
                let targets = match drain_targets(response) {
                    Ok(ids) => ids,
                    Err(e) => return FlowStep::Stopped(e),
                };
                if targets.len() == 0 {
                    return FlowStep::Finished(Vec::new());
                }
                let request = DaemonRequest::Ack { agent: agent.clone(), id: targets[0] };
                FlowStep::Ask { request, then: DrainFlow::AwaitingAck { agent, targets, acked: Vec::new() } }
            },
            DrainFlow::AwaitingAck { agent, targets, acked } => {
                let id = match expect_acked(response) {
                    Ok(id) => id,
                    Err(e) => return FlowStep::Stopped(e),
                };
                let mut acked = acked;
                acked.push(id);
                if acked.len() < targets.len() {
                    let request = DaemonRequest::Ack { agent: agent.clone(), id: targets[acked.len()] };
                    FlowStep::Ask { request, then: DrainFlow::AwaitingAck { agent, targets, acked } }
                } else {
                    FlowStep::Finished(acked)
                }
            },
        }
    }
}

/// What an exchange asks for: register both agents, send one message from
/// `from` to `to` (without creating the recipient), then read the
/// recipient's inbox and the recent history.
pub struct ExchangeRequest {
    pub from: String,
    pub to: String,
    pub body: String,
    pub in_reply_to: Option<u128>,
    pub limit: Option<usize>,
}

/// An exchange under way, by the request that is out.
pub enum ExchangeFlow {
    RegisteringFrom { ask: ExchangeRequest },
    RegisteringTo { ask: ExchangeRequest },
    Sending { ask: ExchangeRequest },
    ReadingInbox { ask: ExchangeRequest, sent: Envelope },
    ReadingHistory { ask: ExchangeRequest, sent: Envelope, inbox: Vec<Envelope> },
}

impl ExchangeFlow {
    /// An exchange, and its first request: registering the sender.
    pub fn start(ask: ExchangeRequest) -> (r: (ExchangeFlow, DaemonRequest))
        ensures
            r.0 == (ExchangeFlow::RegisteringFrom { ask }),
            r.1@ == (RequestView::Register { name: ask.from@ }),
    {
        let request = DaemonRequest::Register { name: ask.from.clone() };
        (ExchangeFlow::RegisteringFrom { ask }, request)
    }

    /// The exchange's next move on the daemon's answer to its last request.
    /// Any answer to a registration moves on; the send must be answered with
    /// the sent envelope, the inbox read with pending mail and the history
    /// read with messages, else the exchange stops there.
    pub fn step(self, response: DaemonResponse) -> (r: FlowStep<ExchangeFlow, ExchangeReport>)
        ensures
            match self {
                ExchangeFlow::RegisteringFrom { ask } => r matches FlowStep::Ask { request, then } && request@
                    == (RequestView::Register { name: ask.to@ }) && then == (ExchangeFlow::RegisteringTo { ask }),
                ExchangeFlow::RegisteringTo { ask } => r matches FlowStep::Ask { request, then } && request@
                    == (RequestView::Send {
                    from: ask.from@,
                    to: ask.to@,
                    body: ask.body@,
                    in_reply_to: ask.in_reply_to,
                    create: false,
                }) && then == (ExchangeFlow::Sending { ask }),
                ExchangeFlow::Sending { ask } => match response {
                    DaemonResponse::Sent { envelope } => r matches FlowStep::Ask { request, then } && request@
                        == (RequestView::Pending { agent: ask.to@ }) && then == (ExchangeFlow::ReadingInbox {
                        ask,
                        sent: envelope,
                    }),
                    other => r == FlowStep::<ExchangeFlow, ExchangeReport>::Stopped(
                        FlowError { expected: Expected::Sent, got: other },
                    ),
                },
                ExchangeFlow::ReadingInbox { ask, sent } => match response {
                    DaemonResponse::Pending { envelopes } => r matches FlowStep::Ask { request, then } && request@
                        == (RequestView::History { limit: ask.limit }) && then == (ExchangeFlow::ReadingHistory {
                        ask,
                        sent,
                        inbox: envelopes,
                    }),
                    other => r == FlowStep::<ExchangeFlow, ExchangeReport>::Stopped(
                        FlowError { expected: Expected::Pending, got: other },
                    ),
                },
                ExchangeFlow::ReadingHistory { ask, sent, inbox } => match response {
                    DaemonResponse::History { messages } => r == FlowStep::<ExchangeFlow, ExchangeReport>::Finished(
                        ExchangeReport {
                            from: ask.from,
                            to: ask.to,
                            sent,
                            status: StatusReport { agent: Some(ask.to), pending: inbox, history: messages },
                        },
                    ),
                    other => r == FlowStep::<ExchangeFlow, ExchangeReport>::Stopped(
                        FlowError { expected: Expected::History, got: other },
                    ),
                },
            },
    {
        match self {
            ExchangeFlow::RegisteringFrom { ask } => {
                let request = DaemonRequest::Register { name: ask.to.clone() };
                FlowStep::Ask { request, then: ExchangeFlow::RegisteringTo { ask } }
            },
            ExchangeFlow::RegisteringTo { ask } => {
                let request = DaemonRequest::Send {
                    from: ask.from.clone(),
                    to: ask.to.clone(),
                    body: ask.body.clone(),
                    in_reply_to: ask.in_reply_to,
                    create: false,
                };
                FlowStep::Ask { request, then: ExchangeFlow::Sending { ask } }
            },
            ExchangeFlow::Sending { ask } => match expect_sent(response) {
                Ok(sent) => {
                    let request = DaemonRequest::Pending { agent: ask.to.clone() };
                    FlowStep::Ask { request, then: ExchangeFlow::ReadingInbox { ask, sent } }
                },
                Err(e) => FlowStep::Stopped(e),
            },
            ExchangeFlow::ReadingInbox { ask, sent } => match expect_pending(response) {
                Ok(inbox) => {
                    let request = DaemonRequest::History { limit: ask.limit };
                    FlowStep::Ask { request, then: ExchangeFlow::ReadingHistory { ask, sent, inbox } }
                },
                Err(e) => FlowStep::Stopped(e),
            },
            ExchangeFlow::ReadingHistory { ask, sent, inbox } => match expect_history(response) {
                Ok(history) => {
                    let to = ask.to.clone();
                    FlowStep::Finished(ExchangeReport {
                        from: ask.from,
                        to: ask.to,
                        sent,
                        status: StatusReport { agent: Some(to), pending: inbox, history },
                    })
                },
                Err(e) => FlowStep::Stopped(e),
            },
        }
    }
}

/// A whole drain run against `mailbox`, answered as the daemon answers: a
/// pending-mail request with the mailbox's pending envelopes, an ack request
/// by appending the ack and confirming its id. The drain acks exactly the
/// ids that were pending, in pending order, one request each, finishes with
/// them, and leaves nothing pending.
pub fn drain_mailbox(agent: String, mailbox: &mut Mailbox) -> (r: Vec<u128>)
    ensures
        r@ == envelope_ids(pending_of(old(mailbox)@)),
        final(mailbox)@ == old(mailbox)@ + ack_records(r@),
        pending_of(final(mailbox)@) == Seq::<Envelope>::empty(),
        final(mailbox).location() == old(mailbox).location(),
{
    let ghost start = mailbox@;
    let ghost ids = envelope_ids(pending_of(start));
    let (flow, request) = DrainFlow::start(agent);
    proof {
        law_drain_leaves_nothing_pending(start);
    }
    let pending = mailbox.pending();
    assert(pending@.map_values(|e: Envelope| e.id) =~= ids);
    assert(ids.len() == pending.len());
    let (mut flow, mut request) = match flow.step(DaemonResponse::Pending { envelopes: pending }) {
        FlowStep::Finished(done) => {
            assert(ack_records(done@) =~= Seq::<crate::mailbox::MailboxRecord>::empty());
            assert(start + ack_records(done@) =~= start);
            assert(done@ =~= ids);
            return done;
        },
        FlowStep::Ask { request, then } => (then, request),
        FlowStep::Stopped(_) => {
            assert(false);
            return Vec::new();
        },
    };
    let mut k: usize = 0;
    loop
        invariant
            0 <= k < ids.len(),
            flow matches DrainFlow::AwaitingAck { agent: _, targets, acked } && targets@ == ids && acked@ == ids.take(
                k as int,
            ),
            request@ matches RequestView::Ack { agent: _, id } && id == ids[k as int],
            mailbox@ == start + ack_records(ids.take(k as int)),
            mailbox.location() == old(mailbox).location(),
            start == old(mailbox)@,
            ids.len() <= usize::MAX,
            ids == envelope_ids(pending_of(start)),
            pending_of(start + ack_records(ids)) == Seq::<Envelope>::empty(),
        decreases ids.len() - k,
    {
        let id = match request {
            DaemonRequest::Ack { agent: _, id } => id,
            _ => {
                assert(false);
                0
            },
        };
        mailbox.ack(id);
        proof {
            assert(ack_records(ids.take(k + 1)) =~= ack_records(ids.take(k as int)).push(
                crate::mailbox::MailboxRecord::Ack { id },
            ));
            assert(start + ack_records(ids.take(k + 1)) =~= (start + ack_records(ids.take(k as int))).push(
                crate::mailbox::MailboxRecord::Ack { id },
            ));
        }
        match flow.step(DaemonResponse::Acked { id }) {
            FlowStep::Ask { request: next, then } => {
                assert(ids.take(k as int).push(id) =~= ids.take(k + 1));
                flow = then;
                request = next;
                k = k + 1;
            },
            FlowStep::Finished(done) => {
                assert(ids.take(k as int).push(id) =~= ids.take(k + 1));
                assert(ids.take(k + 1) =~= ids);
                return done;
            },
            FlowStep::Stopped(_) => {
                assert(false);
                return Vec::new();
            },
        }
    }
}

} // verus!
