//! The daemon's decisions: where its files live, which identity a name
//! resolves to, how a send is addressed, and how the registry is rebuilt
//! from the history and the mailbox files after a restart.

use vstd::prelude::*;

use crate::directory::NameMap;
use crate::envelope::{body_payload, message_payload, AgentId, Envelope, MessageKind};
use crate::ids::is_random_uuid;
use crate::mailbox::{pending_of, Mailbox, MailboxError};
use crate::protocol::{AgentStatus, WatchEvent};
use crate::registry::{RegisteredAgent, Registry};
use crate::text::push_char;
use crate::transcript::{TranscriptError, TranscriptMessage};

verus! {

/// `part` appended to the path `base` as `PathBuf::push` does on Unix: an
/// absolute `part` replaces `base`; otherwise a `/` separates the two unless
/// `base` is empty or already ends with one.
pub open spec fn joined(base: Seq<char>, part: Seq<char>) -> Seq<char> {
    if part.len() > 0 && part[0] == '/' {
        part
    } else if base.len() == 0 || base.last() == '/' {
        base + part
    } else {
        base.push('/') + part
    }
}

/// The path `part` joined onto `base`.
pub fn join_path(base: &str, part: &str) -> (r: String)
    ensures
        r@ == joined(base@, part@),
{
    let lp = part.unicode_len();
    if lp > 0 && part.get_char(0) == '/' {
        return String::from_str(part);
    }
    let lb = base.unicode_len();
    let mut r = String::from_str(base);
    if lb > 0 && base.get_char(lb - 1) != '/' {
        push_char(&mut r, '/');
    }
    r.append(part);
    r
}

/// The directory holding the per-agent mailbox logs.
pub fn mailboxes_dir(data_dir: &str) -> (r: String)
    ensures
        r@ == joined(data_dir@, "mailboxes"@),
{
    join_path(data_dir, "mailboxes")
}

/// The mailbox log of `agent`: `<data_dir>/mailboxes/<agent>.jsonl`.
pub fn mailbox_path(data_dir: &str, agent: &str) -> (r: String)
    ensures
        r@ == joined(joined(data_dir@, "mailboxes"@), agent@ + ".jsonl"@),
{
    let dir = mailboxes_dir(data_dir);
    let mut file = String::from_str(agent);
    file.append(".jsonl");
    join_path(dir.as_str(), file.as_str())
}

/// The history log: `<data_dir>/history.jsonl`.
pub fn history_path(data_dir: &str) -> (r: String)
    ensures
        r@ == joined(data_dir@, "history.jsonl"@),
{
    join_path(data_dir, "history.jsonl")
}

/// The daemon's socket: `<data_dir>/aerial.sock`.
pub fn socket_path(data_dir: &str) -> (r: String)
    ensures
        r@ == joined(data_dir@, "aerial.sock"@),
{
    join_path(data_dir, "aerial.sock")
}

/// Why the daemon refused or failed a request.
#[derive(Clone, Debug, PartialEq, Eq)]
pub enum DaemonError {
    /// Storage or socket failure at `path`.
    Io { path: String, message: String },
    /// No daemon answers at `socket`; it is started with the data directory `data_dir`.
    Connect { socket: String, data_dir: String, message: String },
    /// The recipient is not registered and creating it was not asked for.
    UnknownRecipient(String),
    Mailbox(MailboxError),
    Transcript(TranscriptError),
    /// A protocol line could not be decoded.
    Decode(String),
}

impl DaemonError {
    /// The text of the error, as shown to users. A failed connection names
    /// the command that starts the daemon.
    pub open spec fn message_text(&self) -> Seq<char> {
        match self {
            DaemonError::Io { path, message } => "daemon io error at "@ + path@ + ": "@ + message@,
            DaemonError::Connect { socket, data_dir, message } => "cannot connect to the Aerial daemon at "@
                + socket@ + ": "@ + message@ + ". Start it with `aerial up --data-dir "@ + data_dir@ + "`"@,
            DaemonError::UnknownRecipient(name) => "unknown recipient `"@ + name@ + "`; register it with `aerial join "@
                + name@ + "` or resend with `--create`"@,
            DaemonError::Mailbox(e) => "mailbox error: "@ + e.message_text(),
            DaemonError::Transcript(e) => "transcript error: "@ + e.message_text(),
            DaemonError::Decode(m) => "protocol decode error: "@ + m@,
        }
    }

    /// The text of the error, as shown to users.
    pub fn message(&self) -> (r: String)
        ensures
            r@ == self.message_text(),
    {
        match self {
            DaemonError::Io { path, message } => {
                let mut r = String::from_str("daemon io error at ");
                r.append(path.as_str());
                r.append(": ");
                r.append(message.as_str());
                r
            },
            DaemonError::Connect { socket, data_dir, message } => {
                let mut r = String::from_str("cannot connect to the Aerial daemon at ");
                r.append(socket.as_str());
                r.append(": ");
                r.append(message.as_str());
                r.append(". Start it with `aerial up --data-dir ");
                r.append(data_dir.as_str());
                r.append("`");
                r
            },
            DaemonError::UnknownRecipient(name) => {
                let mut r = String::from_str("unknown recipient `");
                r.append(name.as_str());
                r.append("`; register it with `aerial join ");
                r.append(name.as_str());
                r.append("` or resend with `--create`");
                r
            },
            DaemonError::Mailbox(e) => {
                let mut r = String::from_str("mailbox error: ");
                let m = e.message();
                r.append(m.as_str());
                r
            },
            DaemonError::Transcript(e) => {
                let mut r = String::from_str("transcript error: ");
                let m = e.message();
                r.append(m.as_str());
                r
            },
            DaemonError::Decode(m) => {
                let mut r = String::from_str("protocol decode error: ");
                r.append(m.as_str());
                r
            },
        }
    }
}

/// What `std::path::Path::parent` makes of a path: the path without its
/// last component, or `None` for a root or an empty path.
pub uninterp spec fn path_parent(path: Seq<char>) -> Option<Seq<char>>;

/// `std::path::Path::parent` on `path`, the result taken by its text.
#[verifier::external_body]
fn parent_of(path: &str) -> (r: Option<String>)
    ensures
        match r {
            Some(p) => path_parent(path@) == Some(p@),
            None => path_parent(path@) is None,
        },
{
    std::path::Path::new(path).parent().map(|p| p.display().to_string())
}

/// The failure to reach a daemon at `socket`: it names the data directory to
/// start the daemon with, the socket's directory, or `.aerial` when the
/// socket path has none.
pub fn connect_error(socket: &str, message: String) -> (r: DaemonError)
    ensures
        r matches DaemonError::Connect { socket: s, data_dir, message: m } && s@ == socket@ && m == message
            && data_dir@ == match path_parent(socket@) {
            Some(p) => p,
            None => ".aerial"@,
        },
{
    let data_dir = match parent_of(socket) {
        Some(p) => p,
        None => String::from_str(".aerial"),
    };
    DaemonError::Connect { socket: String::from_str(socket), data_dir, message }
}

/// The identity a name resolves to: its registration if any, else the
/// identity it was last seen with.
pub open spec fn resolved_id(
    registered: Map<Seq<char>, RegisteredAgent>,
    known: Map<Seq<char>, AgentId>,
    name: Seq<char>,
) -> Option<AgentId> {
    if registered.contains_key(name) {
        Some(registered[name].id)
    } else if known.contains_key(name) {
        Some(known[name])
    } else {
        None
    }
}

/// The daemon's in-memory state: the registry, and every name it has handed
/// an identity to (registered or merely seen as a sender).
#[derive(Debug)]
pub struct DaemonState {
    registry: Registry,
    known_agents: NameMap<AgentId>,
}

impl DaemonState {
    /// The registered agents by name.
    pub closed spec fn registered(&self) -> Map<Seq<char>, RegisteredAgent> {
        self.registry@
    }

    /// The identities handed out, by name.
    pub closed spec fn known(&self) -> Map<Seq<char>, AgentId> {
        self.known_agents@
    }

    /// Well-formed, and every registered name is known under the identity it
    /// is registered with.
    pub closed spec fn wf(&self) -> bool {
        &&& self.registry.wf()
        &&& self.known_agents.wf()
        &&& forall|k: Seq<char>| #[trigger] self.registry@.contains_key(k) ==> self.known_agents@.contains_key(k)
            && self.known_agents@[k] == self.registry@[k].id
    }

    /// Every registered name is known under the identity it is registered
    /// with, in every state the daemon reaches.
    pub proof fn law_registered_names_are_known(&self)
        requires
            self.wf(),
        ensures
            forall|k: Seq<char>| #[trigger] self.registered().contains_key(k) ==> self.known().contains_key(k)
                && self.known()[k] == self.registered()[k].id,
    {
    }

    /// A state with nothing registered or known.
    pub fn new() -> (r: DaemonState)
        ensures
            r.wf(),
            r.registered() == Map::<Seq<char>, RegisteredAgent>::empty(),
            r.known() == Map::<Seq<char>, AgentId>::empty(),
    {
        DaemonState { registry: Registry::new(), known_agents: NameMap::new() }
    }

    /// The registry.
    pub fn registry(&self) -> (r: &Registry)
        requires
            self.wf(),
        ensures
            r.wf(),
            r@ == self.registered(),
    {
        &self.registry
    }

    /// The identity `name` resolves to; a name never seen before is handed a
    /// fresh random identity, which is remembered.
    pub fn agent_id(&mut self, name: &str) -> (r: AgentId)
        requires
            old(self).wf(),
        ensures
            final(self).wf(),
            final(self).registered() == old(self).registered(),
            match resolved_id(old(self).registered(), old(self).known(), name@) {
                Some(id) => r == id && final(self).known() == old(self).known(),
                None => is_random_uuid(r.0) && final(self).known() == old(self).known().insert(name@, r),
            },
    {
        if let Some(agent) = self.registry.resolve(name) {
            return agent.id;
        }
        if let Some(id) = self.known_agents.get(name) {
            return *id;
        }
        let id = AgentId::new();
        self.known_agents.insert(String::from_str(name), id);
        id
    }

    /// Registers a fresh identity under `name` and remembers it.
    pub fn register(&mut self, name: String) -> (r: RegisteredAgent)
        requires
            old(self).wf(),
        ensures
            final(self).wf(),
            r.name == name,
            is_random_uuid(r.id.0),
            final(self).registered() == old(self).registered().insert(name@, r),
            final(self).registered() == after_step(
                old(self).registered(),
                RegistryStep::Put { name: name@, agent: r },
            ),
            final(self).known() == old(self).known().insert(name@, r.id),
    {
        let registered = self.registry.register(name.clone());
        self.known_agents.insert(name, registered.id);
        registered
    }

    /// Registers the known identity `id` under `name`, last seen at
    /// `last_seen`, and remembers it.
    pub fn restore(&mut self, name: String, id: AgentId, last_seen: u64) -> (r: RegisteredAgent)
        requires
            old(self).wf(),
        ensures
            final(self).wf(),
            r == (RegisteredAgent { id, name, connected_at: last_seen }),
            final(self).registered() == old(self).registered().insert(name@, r),
            final(self).registered() == after_step(
                old(self).registered(),
                RegistryStep::Put { name: name@, agent: r },
            ),
            final(self).known() == old(self).known().insert(name@, id),
    {
        let registered = self.registry.restore(name.clone(), id, last_seen);
        self.known_agents.insert(name, id);
        registered
    }

    /// Addresses a message from `from` to `to`. The recipient must be
    /// registered unless `create` asks to register it now; the sender
    /// resolves as in `agent_id`. The envelope carries both names, the body
    /// as its payload and the optional parent.
    pub fn send(
        &mut self,
        from: String,
        to: String,
        body: &str,
        in_reply_to: Option<u128>,
        create: bool,
    ) -> (r: Result<Envelope, DaemonError>)
        requires
            old(self).wf(),
        ensures
            final(self).wf(),
            !create ==> match r {
                Ok(env) => send_target(old(self).registered(), to@) == Some(env.to),
                Err(_) => send_target(old(self).registered(), to@) is None,
            },
            final(self).registered() == after_step(
                old(self).registered(),
                if create && !old(self).registered().contains_key(to@) {
                    RegistryStep::Put { name: to@, agent: final(self).registered()[to@] }
                } else {
                    RegistryStep::Keep
                },
            ),
            match r {
                Err(e) => {
                    &&& !old(self).registered().contains_key(to@)
                    &&& !create
                    &&& e == DaemonError::UnknownRecipient(to)
                    &&& final(self).registered() == old(self).registered()
                    &&& final(self).known() == old(self).known()
                },
                Ok(env) => {
                    let was_registered = old(self).registered().contains_key(to@);
                    let known_then = if was_registered {
                        old(self).known()
                    } else {
                        old(self).known().insert(to@, env.to)
                    };
                    &&& was_registered || create
                    &&& was_registered ==> env.to == old(self).registered()[to@].id
                        && final(self).registered() == old(self).registered()
                    &&& !was_registered ==> is_random_uuid(env.to.0) && final(self).registered()
                        == old(self).registered().insert(
                        to@,
                        RegisteredAgent {
                            id: env.to,
                            name: to,
                            connected_at: final(self).registered()[to@].connected_at,
                        },
                    )
                    &&& match resolved_id(final(self).registered(), known_then, from@) {
                        Some(id) => env.from == id && final(self).known() == known_then,
                        None => is_random_uuid(env.from.0) && final(self).known() == known_then.insert(
                            from@,
                            env.from,
                        ),
                    }
                    &&& is_random_uuid(env.id)
                    &&& env.from_name == Some(from)
                    &&& env.to_name == Some(to)
                    &&& env.in_reply_to == in_reply_to
                    &&& env.kind == MessageKind::Message
                    &&& env.payload@ == body_payload(body@)
                },
            },
    {
        let to_id = match self.registry.resolve(to.as_str()) {
            Some(agent) => agent.id,
            None => {
                if create {
                    let registered = self.register(to.clone());
                    registered.id
                } else {
                    return Err(DaemonError::UnknownRecipient(to));
                }
            },
        };
        let from_id = self.agent_id(from.as_str());
        let mut envelope = Envelope::new(from_id, to_id, MessageKind::Message, message_payload(body)).with_names(
            from,
            to,
        );
        envelope.in_reply_to = in_reply_to;
        Ok(envelope)
    }
}


/// The identity a send to `to` reaches without registering anyone: the one
/// `to` is registered with, if any.
pub open spec fn send_target(registered: Map<Seq<char>, RegisteredAgent>, to: Seq<char>) -> Option<AgentId> {
    if registered.contains_key(to) {
        Some(registered[to].id)
    } else {
        None
    }
}

/// What one daemon operation does to the registrations: nothing, or puts
/// `agent` under `name` (a registration, a restore, or a send that creates
/// its recipient).
pub enum RegistryStep {
    Keep,
    Put { name: Seq<char>, agent: RegisteredAgent },
}

/// The registrations after one step.
pub open spec fn after_step(
    registered: Map<Seq<char>, RegisteredAgent>,
    step: RegistryStep,
) -> Map<Seq<char>, RegisteredAgent> {
    match step {
        RegistryStep::Keep => registered,
        RegistryStep::Put { name, agent } => registered.insert(name, agent),
    }
}

/// The registrations after a run of steps, first to last.
pub open spec fn after_steps(
    registered: Map<Seq<char>, RegisteredAgent>,
    steps: Seq<RegistryStep>,
) -> Map<Seq<char>, RegisteredAgent>
    decreases steps.len(),
{
    if steps.len() == 0 {
        registered
    } else {
        after_step(after_steps(registered, steps.drop_last()), steps.last())
    }
}

/// The step registers `name` anew.
pub open spec fn puts_name(step: RegistryStep, name: Seq<char>) -> bool {
    match step {
        RegistryStep::Keep => false,
        RegistryStep::Put { name: n, agent: _ } => n == name,
    }
}

/// Once `name` is registered as `agent`, it stays registered as `agent`
/// through any run of operations that does not register `name` again, and
/// every send to `name` made in those states, without asking to create the
/// recipient, reaches `agent`'s identity.
pub proof fn law_registration_holds_until_replaced(
    registered: Map<Seq<char>, RegisteredAgent>,
    name: Seq<char>,
    agent: RegisteredAgent,
    steps: Seq<RegistryStep>,
)
    requires
        forall|i: int| 0 <= i < steps.len() ==> !puts_name(#[trigger] steps[i], name),
    ensures
        after_steps(registered.insert(name, agent), steps).contains_key(name),
        after_steps(registered.insert(name, agent), steps)[name] == agent,
        send_target(after_steps(registered.insert(name, agent), steps), name) == Some(agent.id),
    decreases steps.len(),
{
    if steps.len() > 0 {
        let init = steps.drop_last();
        assert forall|i: int| 0 <= i < init.len() implies !puts_name(#[trigger] init[i], name) by {
            assert(init[i] == steps[i]);
        }
        law_registration_holds_until_replaced(registered, name, agent, init);
        assert(!puts_name(steps[steps.len() - 1], name));
    }
}

/// A file found in the mailbox directory, with its modification time in Unix
/// milliseconds (0 where the time could not be read).
#[derive(Clone, Debug, PartialEq, Eq)]
pub struct MailboxFile {
    pub file_name: String,
    pub modified: u64,
}

/// The agent name of a mailbox file: the stem of a name ending in `.jsonl`
/// with a non-empty stem (the file stem and extension as `Path` splits them).
pub open spec fn jsonl_stem_of(name: Seq<char>) -> Option<Seq<char>> {
    if name.len() > 6 && name.skip(name.len() - 6) == ".jsonl"@ {
        Some(name.take(name.len() - 6))
    } else {
        None
    }
}

/// The agent name a mailbox file belongs to, if it is a mailbox log.
pub fn jsonl_stem(file_name: &str) -> (r: Option<String>)
    ensures
        match r {
            Some(s) => jsonl_stem_of(file_name@) == Some(s@),
            None => jsonl_stem_of(file_name@) is None,
        },
{
    let n = file_name.unicode_len();
    if n > 6 && crate::text::same_text(file_name.substring_char(n - 6, n), ".jsonl") {
        Some(String::from_str(file_name.substring_char(0, n - 6)))
    } else {
        None
    }
}

/// Two files with the same agent name have the same file name.
pub proof fn lemma_stem_determines_name(a: Seq<char>, b: Seq<char>)
    requires
        jsonl_stem_of(a) is Some,
        jsonl_stem_of(a) == jsonl_stem_of(b),
    ensures
        a == b,
{
    assert(a =~= a.take(a.len() - 6) + a.skip(a.len() - 6));
    assert(b =~= b.take(b.len() - 6) + b.skip(b.len() - 6));
}

/// The history's record of a name seen at time `t` with identity `id`: kept
/// unless an entry seen strictly later is already there.
pub open spec fn seen_at(
    seen: Map<Seq<char>, (AgentId, u64)>,
    name: Seq<char>,
    id: AgentId,
    t: u64,
) -> Map<Seq<char>, (AgentId, u64)> {
    if seen.contains_key(name) && seen[name].1 > t {
        seen
    } else {
        seen.insert(name, (id, t))
    }
}

/// For each name in the history (as sender or recipient), the identity it
/// was last seen with and when.
pub open spec fn history_agents(ms: Seq<TranscriptMessage>) -> Map<Seq<char>, (AgentId, u64)>
    decreases ms.len(),
{
    if ms.len() == 0 {
        Map::empty()
    } else {
        let m = ms.last();
        let h = history_agents(ms.drop_last());
        seen_at(
            seen_at(h, m.from_name@, m.envelope.from, m.envelope.sent_at),
            m.to_name@,
            m.envelope.to,
            m.envelope.sent_at,
        )
    }
}

proof fn lemma_seen_at_keeps(seen: Map<Seq<char>, (AgentId, u64)>, name: Seq<char>, id: AgentId, t: u64)
    ensures
        seen_at(seen, name, id, t).contains_key(name),
        seen_at(seen, name, id, t)[name].1 >= t,
        forall|k: Seq<char>|
            #[trigger] seen.contains_key(k) ==> seen_at(seen, name, id, t).contains_key(k) && seen_at(
                seen,
                name,
                id,
                t,
            )[k].1 >= seen[k].1,
{
}

/// Every name in the history, as sender or as recipient, is recorded as
/// seen, no earlier than any message it took part in.
pub proof fn law_history_names_are_seen(ms: Seq<TranscriptMessage>, i: int)
    requires
        0 <= i < ms.len(),
    ensures
        history_agents(ms).contains_key(ms[i].from_name@),
        history_agents(ms)[ms[i].from_name@].1 >= ms[i].envelope.sent_at,
        history_agents(ms).contains_key(ms[i].to_name@),
        history_agents(ms)[ms[i].to_name@].1 >= ms[i].envelope.sent_at,
    decreases ms.len(),
{
    let m = ms.last();
    let h = history_agents(ms.drop_last());
    let first = seen_at(h, m.from_name@, m.envelope.from, m.envelope.sent_at);
    lemma_seen_at_keeps(h, m.from_name@, m.envelope.from, m.envelope.sent_at);
    lemma_seen_at_keeps(first, m.to_name@, m.envelope.to, m.envelope.sent_at);
    if i < ms.len() - 1 {
        law_history_names_are_seen(ms.drop_last(), i);
        assert(ms.drop_last()[i] == ms[i]);
    } else {
        assert(ms[i] == m);
    }
}

/// The identity and time recorded for a name are those of one message the
/// name took part in: as its sender with the envelope's sender identity, or
/// as its recipient with the recipient identity, at the message's time.
pub proof fn law_history_identity_comes_from_history(ms: Seq<TranscriptMessage>, k: Seq<char>)
    requires
        history_agents(ms).contains_key(k),
    ensures
        exists|i: int|
            0 <= i < ms.len() && ((ms[i].from_name@ == k && history_agents(ms)[k] == (
                ms[i].envelope.from,
                ms[i].envelope.sent_at,
            )) || (ms[i].to_name@ == k && history_agents(ms)[k] == (ms[i].envelope.to, ms[i].envelope.sent_at))),
    decreases ms.len(),
{
    let n = ms.len() - 1;
    let m = ms.last();
    let init = ms.drop_last();
    let h = history_agents(init);
    let first = seen_at(h, m.from_name@, m.envelope.from, m.envelope.sent_at);
    assert(ms[n] == m);
    if k == m.to_name@ && !(first.contains_key(k) && first[k].1 > m.envelope.sent_at) {
        assert(history_agents(ms)[k] == (m.envelope.to, m.envelope.sent_at));
    } else if k == m.from_name@ && !(h.contains_key(k) && h[k].1 > m.envelope.sent_at) {
        assert(history_agents(ms)[k] == first[k]);
        assert(first[k] == (m.envelope.from, m.envelope.sent_at));
    } else {
        assert(h.contains_key(k));
        assert(history_agents(ms)[k] == h[k]);
        law_history_identity_comes_from_history(init, k);
        let i = choose|i: int|
            0 <= i < init.len() && ((init[i].from_name@ == k && h[k] == (init[i].envelope.from, init[i].envelope.sent_at))
                || (init[i].to_name@ == k && h[k] == (init[i].envelope.to, init[i].envelope.sent_at)));
        assert(init[i] == ms[i]);
    }
}

/// A restored agent that took part in the history, as sender or recipient,
/// keeps an identity it had there and is last seen no earlier than any of
/// its messages; it is never handed a fresh identity.
pub proof fn law_restore_keeps_history_identity(
    registered: Map<Seq<char>, RegisteredAgent>,
    file: MailboxFile,
    ms: Seq<TranscriptMessage>,
    i: int,
    k: Seq<char>,
)
    requires
        0 <= i < ms.len(),
        k == ms[i].from_name@ || k == ms[i].to_name@,
        jsonl_stem_of(file.file_name@) == Some(k),
        file_restored(registered, file, history_agents(ms)),
    ensures
        registered[k].name@ == k,
        registered[k].connected_at >= ms[i].envelope.sent_at,
        exists|j: int|
            0 <= j < ms.len() && ((ms[j].from_name@ == k && registered[k].id == ms[j].envelope.from) || (
            ms[j].to_name@ == k && registered[k].id == ms[j].envelope.to)),
{
    law_history_names_are_seen(ms, i);
    law_history_identity_comes_from_history(ms, k);
}

/// A restored agent is never last seen before its mailbox file was last
/// modified, nor before the latest time the history saw it; and it is last
/// seen at one of those two times.
pub proof fn law_restored_last_seen_is_latest(
    registered: Map<Seq<char>, RegisteredAgent>,
    file: MailboxFile,
    seen: Map<Seq<char>, (AgentId, u64)>,
    k: Seq<char>,
)
    requires
        jsonl_stem_of(file.file_name@) == Some(k),
        file_restored(registered, file, seen),
    ensures
        registered[k].connected_at >= file.modified,
        seen.contains_key(k) ==> registered[k].connected_at >= seen[k].1,
        registered[k].connected_at == file.modified || (seen.contains_key(k) && registered[k].connected_at
            == seen[k].1),
{
}

/// Records that `name` was seen with `id` at `last_seen`, unless it was
/// already seen later.
pub fn restore_agent(restored: &mut NameMap<(AgentId, u64)>, name: String, id: AgentId, last_seen: u64)
    requires
        old(restored).wf(),
    ensures
        final(restored).wf(),
        final(restored)@ == seen_at(old(restored)@, name@, id, last_seen),
{
    match restored.get(name.as_str()) {
        Some(existing) => {
            if existing.1 > last_seen {
                return ;
            }
        },
        None => {},
    }
    restored.insert(name, (id, last_seen));
}

/// Some file among the first `n` is the mailbox of `k`.
pub open spec fn stem_among(files: Seq<MailboxFile>, n: int, k: Seq<char>) -> bool {
    exists|j: int| 0 <= j < n && #[trigger] jsonl_stem_of(files[j].file_name@) == Some(k)
}

/// How an agent with a mailbox file is restored: with the identity and time
/// the history last saw it, the later of that time and the file's; or, absent
/// from the history, with a fresh random identity and the file's time.
pub open spec fn restored_as(
    agent: RegisteredAgent,
    k: Seq<char>,
    file: MailboxFile,
    seen: Map<Seq<char>, (AgentId, u64)>,
) -> bool {
    &&& agent.name@ == k
    &&& if seen.contains_key(k) {
        agent.id == seen[k].0 && agent.connected_at == (if file.modified >= seen[k].1 {
            file.modified
        } else {
            seen[k].1
        })
    } else {
        is_random_uuid(agent.id.0) && agent.connected_at == file.modified
    }
}

/// A mailbox file's agent, if it is one, is restored as in `restored_as`.
pub open spec fn file_restored(
    registered: Map<Seq<char>, RegisteredAgent>,
    file: MailboxFile,
    seen: Map<Seq<char>, (AgentId, u64)>,
) -> bool {
    match jsonl_stem_of(file.file_name@) {
        Some(k) => restored_as(registered[k], k, file, seen),
        None => true,
    }
}

/// Rebuilds the daemon's state after a restart: exactly the agents with a
/// mailbox file are registered (and known), each restored as in `restored_as`
/// from what the history saw of it. A name seen only in the history is not
/// registered.
pub fn restore_state(history: &Vec<TranscriptMessage>, files: &Vec<MailboxFile>) -> (r: DaemonState)
    requires
        forall|i: int, j: int| 0 <= i < j < files.len() ==> files[i].file_name@ != files[j].file_name@,
    ensures
        r.wf(),
        forall|k: Seq<char>| #[trigger] r.registered().contains_key(k) <==> stem_among(files@, files.len() as int, k),
        forall|k: Seq<char>| #[trigger] r.known().contains_key(k) <==> r.registered().contains_key(k),
        forall|j: int|
            0 <= j < files.len() ==> file_restored(r.registered(), #[trigger] files[j], history_agents(history@)),
{
    let mut seen: NameMap<(AgentId, u64)> = NameMap::new();
    let mut i: usize = 0;
    while i < history.len()
        invariant
            i <= history.len(),
            seen.wf(),
            seen@ == history_agents(history@.take(i as int)),
        decreases history.len() - i,
    {
        assert(history@.take(i + 1).drop_last() =~= history@.take(i as int));
        let m = &history[i];
        restore_agent(&mut seen, m.from_name.clone(), m.envelope.from, m.envelope.sent_at);
        restore_agent(&mut seen, m.to_name.clone(), m.envelope.to, m.envelope.sent_at);
        i = i + 1;
    }
    assert(history@.take(history.len() as int) =~= history@);
    let ghost all_seen = seen@;
    let mut state = DaemonState::new();
    let mut f: usize = 0;
    while f < files.len()
        invariant
            f <= files.len(),
            forall|i: int, j: int| 0 <= i < j < files.len() ==> files[i].file_name@ != files[j].file_name@,
            seen.wf(),
            state.wf(),
            forall|k: Seq<char>| #[trigger] state.registered().contains_key(k) <==> stem_among(files@, f as int, k),
            forall|k: Seq<char>| #[trigger] state.known().contains_key(k) <==> state.registered().contains_key(k),
            forall|j: int| 0 <= j < f ==> file_restored(state.registered(), #[trigger] files[j], all_seen),
            forall|k: Seq<char>| #[trigger] seen@.contains_key(k) <==> (all_seen.contains_key(k) && !stem_among(files@, f as int, k)),
            forall|k: Seq<char>| #[trigger] seen@.contains_key(k) ==> seen@[k] == all_seen[k],
        decreases files.len() - f,
    {
        let file = &files[f];
        match jsonl_stem(file.file_name.as_str()) {
            Some(name) => {
                let ghost k = name@;
                proof {
                    assert forall|j: int| 0 <= j < f implies jsonl_stem_of(#[trigger] files[j].file_name@) != Some(k) by {
                        if jsonl_stem_of(files[j].file_name@) == Some(k) {
                            lemma_stem_determines_name(files[j].file_name@, files[f as int].file_name@);
                        }
                    }
                    assert(!stem_among(files@, f as int, k));
                }
                let (id, last) = match seen.remove(name.as_str()) {
                    Some(v) => v,
                    None => (AgentId::new(), 0),
                };
                let when = if file.modified >= last { file.modified } else { last };
                let ghost before = state.registered();
                state.restore(name, id, when);
                proof {
                    assert forall|k2: Seq<char>| #[trigger] state.registered().contains_key(k2) <==> stem_among(files@, f + 1, k2) by {
                        if stem_among(files@, f as int, k2) {
                            let j = choose|j: int| 0 <= j < f && #[trigger] jsonl_stem_of(files[j].file_name@) == Some(k2);
                            assert(jsonl_stem_of(files[j].file_name@) == Some(k2));
                        }
                        if k2 == k {
                            assert(jsonl_stem_of(files[f as int].file_name@) == Some(k2));
                        }
                        if stem_among(files@, f + 1, k2) {
                            let j = choose|j: int| 0 <= j < f + 1 && #[trigger] jsonl_stem_of(files[j].file_name@) == Some(k2);
                            if j < f {
                                assert(stem_among(files@, f as int, k2));
                            }
                        }
                    }
                    assert forall|j: int| 0 <= j < f + 1 implies file_restored(
                        state.registered(),
                        #[trigger] files[j],
                        all_seen,
                    ) by {
                        if j < f {
                            if let Some(k2) = jsonl_stem_of(files[j].file_name@) {
                                assert(stem_among(files@, f as int, k2));
                                assert(k2 != k);
                                assert(file_restored(before, files[j], all_seen));
                            }
                        }
                    }
                    assert forall|k2: Seq<char>| #[trigger] seen@.contains_key(k2) <==> (all_seen.contains_key(k2) && !stem_among(files@, f + 1, k2)) by {
                        if stem_among(files@, f + 1, k2) && !stem_among(files@, f as int, k2) {
                            let j = choose|j: int| 0 <= j < f + 1 && #[trigger] jsonl_stem_of(files[j].file_name@) == Some(k2);
                            if j < f {
                                assert(stem_among(files@, f as int, k2));
                            }
                            assert(k2 == k);
                        }
                        if stem_among(files@, f as int, k2) {
                            let j = choose|j: int| 0 <= j < f && #[trigger] jsonl_stem_of(files[j].file_name@) == Some(k2);
                            assert(jsonl_stem_of(files[j].file_name@) == Some(k2));
                        }
                        if k2 == k {
                            assert(jsonl_stem_of(files[f as int].file_name@) == Some(k2));
                        }
                    }
                }
            },
            None => {
                proof {
                    assert forall|k2: Seq<char>| stem_among(files@, f + 1, k2) <==> #[trigger] stem_among(files@, f as int, k2) by {
                        if stem_among(files@, f + 1, k2) {
                            let j = choose|j: int| 0 <= j < f + 1 && #[trigger] jsonl_stem_of(files[j].file_name@) == Some(k2);
                            assert(j != f);
                        }
                        if stem_among(files@, f as int, k2) {
                            let j = choose|j: int| 0 <= j < f && #[trigger] jsonl_stem_of(files[j].file_name@) == Some(k2);
                            assert(jsonl_stem_of(files[j].file_name@) == Some(k2));
                        }
                    }
                }
            },
        }
        f = f + 1;
    }
    state
}


/// The wake notification that envelope `id` arrived for `agent`.
pub fn arrival_event(agent: &str, id: u128) -> (r: WatchEvent)
    ensures
        r matches WatchEvent::Message { agent: a, id: i } && a@ == agent@ && i == id,
{
    WatchEvent::Message { agent: String::from_str(agent), id }
}

/// The events a watcher of `agent` is replayed on attaching: one per pending
/// envelope, in pending order, so a late watcher misses nothing.
pub fn replay_events(agent: &str, pending: &Vec<Envelope>) -> (r: Vec<WatchEvent>)
    ensures
        r.len() == pending.len(),
        forall|i: int|
            0 <= i < r.len() ==> ((#[trigger] r[i]) matches WatchEvent::Message { agent: a, id } && a@
                == agent@ && id == pending[i].id),
{
    let mut events: Vec<WatchEvent> = Vec::new();
    let mut i: usize = 0;
    while i < pending.len()
        invariant
            i <= pending.len(),
            events.len() == i,
            forall|j: int|
                0 <= j < i ==> ((#[trigger] events[j]) matches WatchEvent::Message { agent: a, id } && a@
                    == agent@ && id == pending[j].id),
        decreases pending.len() - i,
    {
        events.push(arrival_event(agent, pending[i].id));
        i = i + 1;
    }
    events
}

/// The agent listing: each registered agent with its pending count and the
/// time it was last seen.
pub fn agent_statuses(agents: &Vec<RegisteredAgent>, pending_counts: &Vec<usize>) -> (r: Vec<AgentStatus>)
    requires
        agents.len() == pending_counts.len(),
    ensures
        r.len() == agents.len(),
        forall|i: int|
            0 <= i < r.len() ==> (#[trigger] r[i]).name == agents[i].name && r[i].id == agents[i].id
                && r[i].pending == pending_counts[i] && r[i].last_seen == agents[i].connected_at,
{
    let mut out: Vec<AgentStatus> = Vec::new();
    let mut i: usize = 0;
    while i < agents.len()
        invariant
            i <= agents.len(),
            agents.len() == pending_counts.len(),
            out.len() == i,
            forall|j: int|
                0 <= j < i ==> (#[trigger] out[j]).name == agents[j].name && out[j].id == agents[j].id
                    && out[j].pending == pending_counts[j] && out[j].last_seen == agents[j].connected_at,
        decreases agents.len() - i,
    {
        out.push(
            AgentStatus {
                name: agents[i].name.clone(),
                id: agents[i].id,
                pending: pending_counts[i],
                last_seen: agents[i].connected_at,
            },
        );
        i = i + 1;
    }
    out
}

/// The agent listing from each registered agent and its mailbox
/// (`mailboxes[i]` being the mailbox of `agents[i]`): every agent with the
/// number of envelopes pending in its mailbox and the time it was last seen.
pub fn agent_listing(agents: &Vec<RegisteredAgent>, mailboxes: &Vec<Mailbox>) -> (r: Vec<AgentStatus>)
    requires
        agents.len() == mailboxes.len(),
    ensures
        r.len() == agents.len(),
        forall|i: int|
            0 <= i < r.len() ==> (#[trigger] r[i]).name == agents[i].name && r[i].id == agents[i].id
                && r[i].pending == pending_of(mailboxes[i]@).len() && r[i].last_seen == agents[i].connected_at,
{
    let mut counts: Vec<usize> = Vec::new();
    let mut i: usize = 0;
    while i < mailboxes.len()
        invariant
            i <= mailboxes.len(),
            counts.len() == i,
            forall|j: int| 0 <= j < i ==> #[trigger] counts[j] == pending_of(mailboxes[j]@).len(),
        decreases mailboxes.len() - i,
    {
        let pending = mailboxes[i].pending();
        counts.push(pending.len());
        i = i + 1;
    }
    agent_statuses(agents, &counts)
}

} // verus!
