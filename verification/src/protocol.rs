//! The daemon's request/response protocol and its wake notifications.

use vstd::prelude::*;

use crate::envelope::{AgentId, Envelope};
use crate::transcript::TranscriptMessage;

verus! {

/// A request to the daemon.
#[derive(Clone, Debug, PartialEq, Eq)]
pub enum DaemonRequest {
    Register { name: String },
    Send { from: String, to: String, body: String, in_reply_to: Option<u128>, create: bool },
    Pending { agent: String },
    Ack { agent: String, id: u128 },
    History { limit: Option<usize> },
    Agents,
    Watch { agent: String },
}

/// A wake notification streamed over a watch connection. The mailbox remains
/// the source of truth; an event only signals that a pending envelope exists,
/// so a lost or duplicated event never loses a message.
#[derive(Clone, Debug, PartialEq, Eq)]
pub enum WatchEvent {
    Message { agent: String, id: u128 },
}

/// The daemon's answer to a request.
#[derive(Clone, Debug, PartialEq)]
pub enum DaemonResponse {
    Registered { name: String, id: AgentId },
    Sent { envelope: Envelope },
    Pending { envelopes: Vec<Envelope> },
    Acked { id: u128 },
    History { messages: Vec<TranscriptMessage> },
    Agents { agents: Vec<AgentStatus> },
    Error { message: String },
}

/// One registered agent as listed by the daemon.
#[derive(Clone, Debug, PartialEq, Eq)]
pub struct AgentStatus {
    pub name: String,
    pub id: AgentId,
    pub pending: usize,
    pub last_seen: u64,
}

} // verus!

verus! {

/// A request with its texts taken as character sequences.
pub enum RequestView {
    Register { name: Seq<char> },
    Send { from: Seq<char>, to: Seq<char>, body: Seq<char>, in_reply_to: Option<u128>, create: bool },
    Pending { agent: Seq<char> },
    Ack { agent: Seq<char>, id: u128 },
    History { limit: Option<usize> },
    Agents,
    Watch { agent: Seq<char> },
}

impl View for DaemonRequest {
    type V = RequestView;

    open spec fn view(&self) -> RequestView {
        match self {
            DaemonRequest::Register { name } => RequestView::Register { name: name@ },
            DaemonRequest::Send { from, to, body, in_reply_to, create } => RequestView::Send {
                from: from@,
                to: to@,
                body: body@,
                in_reply_to: *in_reply_to,
                create: *create,
            },
            DaemonRequest::Pending { agent } => RequestView::Pending { agent: agent@ },
            DaemonRequest::Ack { agent, id } => RequestView::Ack { agent: agent@, id: *id },
            DaemonRequest::History { limit } => RequestView::History { limit: *limit },
            DaemonRequest::Agents => RequestView::Agents,
            DaemonRequest::Watch { agent } => RequestView::Watch { agent: agent@ },
        }
    }
}

} // verus!
