//! The agent supervisor's decisions: which pending message to hand a worker,
//! how the daemon's answers are read, and the prompt and command line given
//! to a Codex worker.

use vstd::prelude::*;

use crate::daemon::DaemonError;
use crate::envelope::{payload_body, Envelope};
use crate::ids::{hyphenated_string, hyphenated_text};
use crate::protocol::DaemonResponse;
use crate::transcript::{summary_line, TranscriptMessage};

verus! {

/// Why supervising a message failed.
#[derive(Clone, Debug, PartialEq)]
pub enum SupervisorError {
    /// The worker command has no program.
    EmptyCommand,
    Daemon(DaemonError),
    /// The message is not pending for the agent.
    MissingMessage { agent: String, id: u128 },
    /// The daemon answered with something else than the request calls for.
    UnexpectedResponse(DaemonResponse),
    /// The envelope could not be encoded for the worker.
    Encode(String),
    /// The worker command could not be run.
    CommandIo { program: String, message: String },
}

/// A pending message handed to a worker, with recent history for context.
#[derive(Clone, Debug)]
pub struct AgentMessage {
    pub agent: String,
    pub envelope: Envelope,
    pub history: Vec<TranscriptMessage>,
}

impl AgentMessage {
    /// The envelope's id.
    pub fn id(&self) -> (r: u128)
        ensures
            r == self.envelope.id,
    {
        self.envelope.id
    }

    /// The message body: the payload's `body` string, or empty.
    pub fn body(&self) -> (r: String)
        ensures
            r@ == payload_body(self.envelope.payload@),
    {
        self.envelope.body()
    }
}

/// Where the supervisor reaches the daemon, whom it supervises, and how much
/// history it passes on.
#[derive(Clone, Debug, PartialEq, Eq)]
pub struct SupervisorOptions {
    pub socket: String,
    pub agent: String,
    pub history_limit: Option<usize>,
}

/// A worker command must name a program.
pub fn require_command(command: &Vec<String>) -> (r: Result<(), SupervisorError>)
    ensures
        r is Err <==> command.len() == 0,
        r is Err ==> r == Err::<(), SupervisorError>(SupervisorError::EmptyCommand),
{
    if command.len() == 0 {
        Err(SupervisorError::EmptyCommand)
    } else {
        Ok(())
    }
}

/// Reads the daemon's answer to a pending-mail request: the pending envelope
/// `id` of `agent`, or why it cannot be had.
pub fn select_pending(agent: &str, id: u128, response: DaemonResponse) -> (r: Result<
    Envelope,
    SupervisorError,
>)
    ensures
        match response {
            DaemonResponse::Pending { envelopes } => match r {
                Ok(e) => e.id == id && exists|i: int|
                    0 <= i < envelopes.len() && #[trigger] envelopes[i] == e && forall|j: int|
                        0 <= j < i ==> (#[trigger] envelopes[j]).id != id,
                Err(SupervisorError::MissingMessage { agent: a, id: missing }) => a@ == agent@ && missing
                    == id && forall|i: int| 0 <= i < envelopes.len() ==> (#[trigger] envelopes[i]).id != id,
                Err(_) => false,
            },
            other => r == Err::<Envelope, SupervisorError>(SupervisorError::UnexpectedResponse(other)),
        },
{
    match response {
        DaemonResponse::Pending { envelopes } => {
            let mut i: usize = 0;
            while i < envelopes.len() && envelopes[i].id != id
                invariant
                    i <= envelopes.len(),
                    forall|j: int| 0 <= j < i ==> (#[trigger] envelopes[j]).id != id,
                decreases envelopes.len() - i,
            {
                i = i + 1;
            }
            if i < envelopes.len() {
                let e = envelopes[i].clone();
                assert(envelopes[i as int] == e);
                return Ok(e);
            }
            Err(SupervisorError::MissingMessage { agent: String::from_str(agent), id })
        },
        other => Err(SupervisorError::UnexpectedResponse(other)),
    }
}

/// Reads the daemon's answer to a history request.
pub fn history_from(response: DaemonResponse) -> (r: Result<Vec<TranscriptMessage>, SupervisorError>)
    ensures
        match response {
            DaemonResponse::History { messages } => r == Ok::<Vec<TranscriptMessage>, SupervisorError>(messages),
            other => r == Err::<Vec<TranscriptMessage>, SupervisorError>(SupervisorError::UnexpectedResponse(other)),
        },
{
    match response {
        DaemonResponse::History { messages } => Ok(messages),
        other => Err(SupervisorError::UnexpectedResponse(other)),
    }
}

/// Reads the daemon's answer to an ack request.
pub fn ack_outcome(response: DaemonResponse) -> (r: Result<(), SupervisorError>)
    ensures
        match response {
            DaemonResponse::Acked { .. } => r is Ok,
            other => r == Err::<(), SupervisorError>(SupervisorError::UnexpectedResponse(other)),
        },
{
    match response {
        DaemonResponse::Acked { .. } => Ok(()),
        other => Err(SupervisorError::UnexpectedResponse(other)),
    }
}

/// The summary line of a history message.
pub open spec fn message_summary(m: TranscriptMessage) -> Seq<char> {
    summary_line(m.from_name@, m.to_name@, payload_body(m.envelope.payload@))
}

/// One `- <summary>` line per history message.
pub open spec fn history_lines(h: Seq<TranscriptMessage>) -> Seq<char>
    decreases h.len(),
{
    if h.len() == 0 {
        Seq::empty()
    } else {
        history_lines(h.drop_last()) + "- "@ + message_summary(h.last()) + "\n"@
    }
}

/// The prompt given to a Codex worker for a message.
pub open spec fn prompt_text(agent: Seq<char>, id: u128, body: Seq<char>, history: Seq<TranscriptMessage>) -> Seq<char> {
    "You are an Aerial-managed coding agent.\n\n"@ + "Aerial message context:\n"@ + "- agent: "@ + agent
        + "\n"@ + "- envelope_id: "@ + hyphenated_text(id) + "\n"@ + "- body: "@ + body + "\n\n"@ + (
    if history.len() == 0 {
        Seq::empty()
    } else {
        "Recent Aerial history:\n"@ + history_lines(history) + "\n"@
    }) + "Do the requested work in the current repository. "@
        + "Do not acknowledge the Aerial message yourself; "@
        + "the Aerial supervisor will ack it only if this command exits successfully."@
}

/// The prompt hands the worker the message body verbatim, on its own
/// `- body: ` line followed by a blank line, whatever the recent history
/// holds: the prompt has `"- body: " + body + "\n\n"` as a contiguous part,
/// at a position that depends only on the agent and the envelope id.
pub proof fn law_prompt_carries_the_body(
    agent: Seq<char>,
    id: u128,
    body: Seq<char>,
    history: Seq<TranscriptMessage>,
) -> (at: int)
    ensures
        0 <= at,
        at + ("- body: "@ + body + "\n\n"@).len() <= prompt_text(agent, id, body, history).len(),
        prompt_text(agent, id, body, history).subrange(at, at + ("- body: "@ + body + "\n\n"@).len())
            == "- body: "@ + body + "\n\n"@,
        forall|other: Seq<char>, h: Seq<TranscriptMessage>|
            #[trigger] prompt_text(agent, id, other, h).subrange(at, at + 8) == "- body: "@,
{
    let head = "You are an Aerial-managed coding agent.\n\n"@ + "Aerial message context:\n"@ + "- agent: "@ + agent
        + "\n"@ + "- envelope_id: "@ + hyphenated_text(id) + "\n"@;
    let line = "- body: "@ + body + "\n\n"@;
    let rest = (if history.len() == 0 {
        Seq::empty()
    } else {
        "Recent Aerial history:\n"@ + history_lines(history) + "\n"@
    }) + "Do the requested work in the current repository. "@
        + "Do not acknowledge the Aerial message yourself; "@
        + "the Aerial supervisor will ack it only if this command exits successfully."@;
    assert(prompt_text(agent, id, body, history) =~= head + line + rest);
    assert((head + line + rest).subrange(head.len() as int, (head.len() + line.len()) as int) =~= line);
    reveal_strlit("- body: ");
    assert forall|other: Seq<char>, h: Seq<TranscriptMessage>|
        #[trigger] prompt_text(agent, id, other, h).subrange(head.len() as int, head.len() + 8int) == "- body: "@ by {
        let l2 = "- body: "@ + other + "\n\n"@;
        let r2 = (if h.len() == 0 {
            Seq::empty()
        } else {
            "Recent Aerial history:\n"@ + history_lines(h) + "\n"@
        }) + "Do the requested work in the current repository. "@
            + "Do not acknowledge the Aerial message yourself; "@
            + "the Aerial supervisor will ack it only if this command exits successfully."@;
        assert(prompt_text(agent, id, other, h) =~= head + l2 + r2);
        assert((head + l2 + r2).subrange(head.len() as int, head.len() + 8int) =~= "- body: "@);
    }
    head.len() as int
}

/// The prompt names the agent and the envelope id verbatim, each on its own
/// context line, right before the body line.
pub proof fn law_prompt_names_agent_and_envelope(
    agent: Seq<char>,
    id: u128,
    body: Seq<char>,
    history: Seq<TranscriptMessage>,
)
    ensures
        ({
            let context = "- agent: "@ + agent + "\n"@ + "- envelope_id: "@ + hyphenated_text(id) + "\n"@;
            let start = ("You are an Aerial-managed coding agent.\n\n"@ + "Aerial message context:\n"@).len() as int;
            &&& start + context.len() <= prompt_text(agent, id, body, history).len()
            &&& prompt_text(agent, id, body, history).subrange(start, start + context.len()) == context
        }),
{
    let intro = "You are an Aerial-managed coding agent.\n\n"@ + "Aerial message context:\n"@;
    let context = "- agent: "@ + agent + "\n"@ + "- envelope_id: "@ + hyphenated_text(id) + "\n"@;
    let rest = "- body: "@ + body + "\n\n"@ + (if history.len() == 0 {
        Seq::empty()
    } else {
        "Recent Aerial history:\n"@ + history_lines(history) + "\n"@
    }) + "Do the requested work in the current repository. "@
        + "Do not acknowledge the Aerial message yourself; "@
        + "the Aerial supervisor will ack it only if this command exits successfully."@;
    assert(prompt_text(agent, id, body, history) =~= intro + context + rest);
    assert((intro + context + rest).subrange(intro.len() as int, (intro.len() + context.len()) as int) =~= context);
}

/// The Codex prompt for `message`: the agent, envelope id and body, the
/// recent history when there is any, and the instruction to leave the ack to
/// the supervisor.
pub fn codex_prompt(message: &AgentMessage) -> (r: String)
    ensures
        r@ == prompt_text(message.agent@, message.envelope.id, payload_body(message.envelope.payload@), message.history@),
{
    let mut prompt = String::from_str("You are an Aerial-managed coding agent.\n\n");
    prompt.append("Aerial message context:\n");
    prompt.append("- agent: ");
    prompt.append(message.agent.as_str());
    prompt.append("\n");
    prompt.append("- envelope_id: ");
    let id_text = hyphenated_string(message.id());
    prompt.append(id_text.as_str());
    prompt.append("\n");
    prompt.append("- body: ");
    let body = message.body();
    prompt.append(body.as_str());
    prompt.append("\n\n");
    let ghost head = prompt@;
    if message.history.len() > 0 {
        prompt.append("Recent Aerial history:\n");
        let ghost start = prompt@;
        let mut i: usize = 0;
        while i < message.history.len()
            invariant
                i <= message.history.len(),
                prompt@ == start + history_lines(message.history@.take(i as int)),
            decreases message.history.len() - i,
        {
            assert(message.history@.take(i + 1).drop_last() =~= message.history@.take(i as int));
            assert(message.history@.take(i + 1).last() == message.history@[i as int]);
            prompt.append("- ");
            let line = message.history[i].render_summary();
            prompt.append(line.as_str());
            prompt.append("\n");
            i = i + 1;
        }
        assert(message.history@.take(message.history.len() as int) =~= message.history@);
        prompt.append("\n");
    }
    prompt.append("Do the requested work in the current repository. ");
    prompt.append("Do not acknowledge the Aerial message yourself; ");
    prompt.append("the Aerial supervisor will ack it only if this command exits successfully.");
    assert(prompt@ =~= prompt_text(
        message.agent@,
        message.envelope.id,
        payload_body(message.envelope.payload@),
        message.history@,
    ));
    prompt
}

/// The Codex command line for `message`: `codex --ask-for-approval <approval>
/// exec --cd <cd> <prompt>`.
pub fn codex_invocation(approval: &str, cd: &str, message: &AgentMessage) -> (r: Vec<String>)
    ensures
        r@.len() == 7,
        r[0]@ == "codex"@,
        r[1]@ == "--ask-for-approval"@,
        r[2]@ == approval@,
        r[3]@ == "exec"@,
        r[4]@ == "--cd"@,
        r[5]@ == cd@,
        r[6]@ == prompt_text(message.agent@, message.envelope.id, payload_body(message.envelope.payload@), message.history@),
{
    let mut r: Vec<String> = Vec::new();
    r.push(String::from_str("codex"));
    r.push(String::from_str("--ask-for-approval"));
    r.push(String::from_str(approval));
    r.push(String::from_str("exec"));
    r.push(String::from_str("--cd"));
    r.push(String::from_str(cd));
    r.push(codex_prompt(message));
    r
}

} // verus!
