//! The MCP tool surface over the daemon: decoding tool-call arguments into
//! daemon requests, routing JSON-RPC messages, and the tool catalogue. The
//! adapter keeps no mailbox state of its own; every tool call becomes a
//! daemon request.

use vstd::prelude::*;

use crate::envelope::{json_str_member, json_text_str_member};
use crate::ids::{parse_uuid, uuid_parse_outcome};
use crate::protocol::{DaemonRequest, RequestView};
use crate::text::{blank, is_blank, same_text};

verus! {

/// A tool-call argument value, as far as the adapter reads it.
#[derive(Clone, Debug, PartialEq, Eq)]
pub enum ToolArg {
    /// JSON `null`.
    Null,
    /// A JSON string.
    Text(String),
    /// A JSON number that is a non-negative integer fitting 64 bits.
    Unsigned(u64),
    /// A JSON boolean.
    Flag(bool),
    /// Any other JSON value.
    Other,
}

/// A tool-call argument with its text as a character sequence.
pub enum ArgView {
    Null,
    Text(Seq<char>),
    Unsigned(u64),
    Flag(bool),
    Other,
}

impl View for ToolArg {
    type V = ArgView;

    open spec fn view(&self) -> ArgView {
        match self {
            ToolArg::Null => ArgView::Null,
            ToolArg::Text(s) => ArgView::Text(s@),
            ToolArg::Unsigned(n) => ArgView::Unsigned(*n),
            ToolArg::Flag(b) => ArgView::Flag(*b),
            ToolArg::Other => ArgView::Other,
        }
    }
}

/// The members of a tool call's `arguments` object (empty when it is not an
/// object), in order.
#[derive(Clone, Debug, PartialEq, Eq)]
pub struct ToolArgs {
    pub entries: Vec<(String, ToolArg)>,
}

impl View for ToolArgs {
    type V = Seq<(Seq<char>, ArgView)>;

    open spec fn view(&self) -> Seq<(Seq<char>, ArgView)> {
        self.entries@.map_values(|e: (String, ToolArg)| (e.0@, e.1@))
    }
}

/// The value of the first member named `key`.
pub open spec fn lookup_arg(entries: Seq<(Seq<char>, ArgView)>, key: Seq<char>) -> Option<ArgView>
    decreases entries.len(),
{
    if entries.len() == 0 {
        None
    } else if entries[0].0 == key {
        Some(entries[0].1)
    } else {
        lookup_arg(entries.drop_first(), key)
    }
}

impl ToolArgs {
    /// No arguments.
    pub fn empty() -> (r: ToolArgs)
        ensures
            r@.len() == 0,
    {
        ToolArgs { entries: Vec::new() }
    }

    /// The value of the member `key`.
    pub fn get(&self, key: &str) -> (r: Option<&ToolArg>)
        ensures
            match r {
                Some(a) => lookup_arg(self@, key@) == Some(a@),
                None => lookup_arg(self@, key@) is None,
            },
    {
        let mut i: usize = 0;
        assert(self@.skip(0) =~= self@);
        while i < self.entries.len()
            invariant
                i <= self.entries.len(),
                lookup_arg(self@, key@) == lookup_arg(self@.skip(i as int), key@),
            decreases self.entries.len() - i,
        {
            assert(self@.skip(i as int)[0] == (self.entries@[i as int].0@, self.entries@[i as int].1@));
            if same_text(self.entries[i].0.as_str(), key) {
                return Some(&self.entries[i].1);
            }
            assert(self@.skip(i as int).drop_first() =~= self@.skip(i + 1));
            i = i + 1;
        }
        assert(self@.skip(i as int).len() == 0);
        None
    }
}

/// A decoded argument: the value, or the message explaining why not.
pub open spec fn text_result(r: Result<String, String>) -> Result<Seq<char>, Seq<char>> {
    match r {
        Ok(s) => Ok(s@),
        Err(e) => Err(e@),
    }
}

/// Decoding a required string argument.
pub open spec fn text_arg(args: Seq<(Seq<char>, ArgView)>, key: Seq<char>) -> Result<Seq<char>, Seq<char>> {
    match lookup_arg(args, key) {
        Some(ArgView::Text(s)) => Ok(s),
        _ => Err("missing required string argument: "@ + key),
    }
}

/// Decoding an optional UUID argument.
pub open spec fn uuid_arg(args: Seq<(Seq<char>, ArgView)>, key: Seq<char>) -> Result<Option<u128>, Seq<char>> {
    match lookup_arg(args, key) {
        None => Ok(None),
        Some(ArgView::Null) => Ok(None),
        Some(ArgView::Text(s)) => match uuid_parse_outcome(s) {
            Ok(v) => Ok(Some(v)),
            Err(e) => Err("argument "@ + key + " is not a valid uuid: "@ + e),
        },
        Some(_) => Err("argument "@ + key + " must be a string uuid"@),
    }
}

/// Decoding a required UUID argument.
pub open spec fn required_uuid_arg(args: Seq<(Seq<char>, ArgView)>, key: Seq<char>) -> Result<u128, Seq<char>> {
    match uuid_arg(args, key) {
        Ok(Some(v)) => Ok(v),
        Ok(None) => Err("missing required uuid argument: "@ + key),
        Err(e) => Err(e),
    }
}

/// Decoding an optional count argument.
pub open spec fn count_arg(args: Seq<(Seq<char>, ArgView)>, key: Seq<char>) -> Result<Option<usize>, Seq<char>> {
    match lookup_arg(args, key) {
        None => Ok(None),
        Some(ArgView::Null) => Ok(None),
        Some(ArgView::Unsigned(n)) => Ok(Some(n as usize)),
        Some(_) => Err("argument "@ + key + " must be a non-negative integer"@),
    }
}

/// Decoding an optional boolean argument, false when absent.
pub open spec fn flag_arg(args: Seq<(Seq<char>, ArgView)>, key: Seq<char>) -> Result<bool, Seq<char>> {
    match lookup_arg(args, key) {
        None => Ok(false),
        Some(ArgView::Null) => Ok(false),
        Some(ArgView::Flag(b)) => Ok(b),
        Some(_) => Err("argument "@ + key + " must be a boolean"@),
    }
}

/// A required string argument.
pub fn required_str(args: &ToolArgs, key: &str) -> (r: Result<String, String>)
    ensures
        text_result(r) == text_arg(args@, key@),
{
    match args.get(key) {
        Some(ToolArg::Text(s)) => Ok(s.clone()),
        _ => {
            let mut m = String::from_str("missing required string argument: ");
            m.append(key);
            Err(m)
        },
    }
}

/// An optional string argument; anything but a string counts as absent.
pub fn optional_str(args: &ToolArgs, key: &str) -> (r: Option<String>)
    ensures
        match r {
            Some(s) => lookup_arg(args@, key@) == Some(ArgView::Text(s@)),
            None => !(lookup_arg(args@, key@) matches Some(ArgView::Text(_))),
        },
{
    match args.get(key) {
        Some(ToolArg::Text(s)) => Some(s.clone()),
        _ => None,
    }
}

/// The outcome of a UUID argument `key` whose text parsed as `parsed`: the
/// value, or the parse error explained.
pub fn uuid_argument(key: &str, parsed: Result<u128, String>) -> (r: Result<Option<u128>, String>)
    ensures
        match parsed {
            Ok(v) => r == Ok::<Option<u128>, String>(Some(v)),
            Err(e) => r matches Err(m) && m@ == "argument "@ + key@ + " is not a valid uuid: "@ + e@,
        },
{
    match parsed {
        Ok(v) => Ok(Some(v)),
        Err(e) => {
            let mut m = String::from_str("argument ");
            m.append(key);
            m.append(" is not a valid uuid: ");
            m.append(e.as_str());
            Err(m)
        },
    }
}

/// An optional UUID argument, given as a UUID string.
pub fn optional_uuid(args: &ToolArgs, key: &str) -> (r: Result<Option<u128>, String>)
    ensures
        match r {
            Ok(v) => uuid_arg(args@, key@) == Ok::<Option<u128>, Seq<char>>(v),
            Err(e) => uuid_arg(args@, key@) == Err::<Option<u128>, Seq<char>>(e@),
        },
{
    match args.get(key) {
        None => Ok(None),
        Some(ToolArg::Null) => Ok(None),
        Some(ToolArg::Text(s)) => uuid_argument(key, parse_uuid(s.as_str())),
        Some(_) => {
            let mut m = String::from_str("argument ");
            m.append(key);
            m.append(" must be a string uuid");
            Err(m)
        },
    }
}

/// A required UUID argument.
pub fn required_uuid(args: &ToolArgs, key: &str) -> (r: Result<u128, String>)
    ensures
        match r {
            Ok(v) => required_uuid_arg(args@, key@) == Ok::<u128, Seq<char>>(v),
            Err(e) => required_uuid_arg(args@, key@) == Err::<u128, Seq<char>>(e@),
        },
{
    match optional_uuid(args, key) {
        Ok(Some(v)) => Ok(v),
        Ok(None) => {
            let mut m = String::from_str("missing required uuid argument: ");
            m.append(key);
            Err(m)
        },
        Err(e) => Err(e),
    }
}

/// An optional count argument, given as a non-negative integer.
pub fn optional_usize(args: &ToolArgs, key: &str) -> (r: Result<Option<usize>, String>)
    ensures
        match r {
            Ok(v) => count_arg(args@, key@) == Ok::<Option<usize>, Seq<char>>(v),
            Err(e) => count_arg(args@, key@) == Err::<Option<usize>, Seq<char>>(e@),
        },
{
    match args.get(key) {
        None => Ok(None),
        Some(ToolArg::Null) => Ok(None),
        Some(ToolArg::Unsigned(n)) => Ok(Some(*n as usize)),
        Some(_) => {
            let mut m = String::from_str("argument ");
            m.append(key);
            m.append(" must be a non-negative integer");
            Err(m)
        },
    }
}

/// An optional boolean argument, false when absent.
pub fn optional_flag(args: &ToolArgs, key: &str) -> (r: Result<bool, String>)
    ensures
        match r {
            Ok(v) => flag_arg(args@, key@) == Ok::<bool, Seq<char>>(v),
            Err(e) => flag_arg(args@, key@) == Err::<bool, Seq<char>>(e@),
        },
{
    match args.get(key) {
        None => Ok(false),
        Some(ToolArg::Null) => Ok(false),
        Some(ToolArg::Flag(b)) => Ok(*b),
        Some(_) => {
            let mut m = String::from_str("argument ");
            m.append(key);
            m.append(" must be a boolean");
            Err(m)
        },
    }
}


/// What a tool call with `args` asks of the daemon, or why it is refused.
pub open spec fn tool_request(name: Seq<char>, args: Seq<(Seq<char>, ArgView)>) -> Result<RequestView, Seq<char>> {
    if name == "register"@ {
        match text_arg(args, "name"@) {
            Ok(n) => Ok(RequestView::Register { name: n }),
            Err(e) => Err(e),
        }
    } else if name == "tell"@ {
        match text_arg(args, "from"@) {
            Err(e) => Err(e),
            Ok(from) => match text_arg(args, "to"@) {
                Err(e) => Err(e),
                Ok(to) => match text_arg(args, "body"@) {
                    Err(e) => Err(e),
                    Ok(body) => match uuid_arg(args, "in_reply_to"@) {
                        Err(e) => Err(e),
                        Ok(parent) => match flag_arg(args, "create"@) {
                            Err(e) => Err(e),
                            Ok(create) => Ok(
                                RequestView::Send { from, to, body, in_reply_to: parent, create },
                            ),
                        },
                    },
                },
            },
        }
    } else if name == "inbox"@ {
        match text_arg(args, "agent"@) {
            Ok(a) => Ok(RequestView::Pending { agent: a }),
            Err(e) => Err(e),
        }
    } else if name == "done"@ {
        match text_arg(args, "agent"@) {
            Err(e) => Err(e),
            Ok(a) => match required_uuid_arg(args, "id"@) {
                Err(e) => Err(e),
                Ok(id) => Ok(RequestView::Ack { agent: a, id }),
            },
        }
    } else if name == "history"@ {
        match count_arg(args, "limit"@) {
            Ok(l) => Ok(RequestView::History { limit: l }),
            Err(e) => Err(e),
        }
    } else {
        Err("unknown tool: "@ + name)
    }
}

/// A decoded request, or the message explaining why not.
pub open spec fn request_result(r: Result<DaemonRequest, String>) -> Result<RequestView, Seq<char>> {
    match r {
        Ok(q) => Ok(q@),
        Err(e) => Err(e@),
    }
}

/// Maps a primitive tool call onto the daemon request it stands for:
/// `register` to Register, `tell` to Send, `inbox` to Pending, `done` to Ack,
/// `history` to History.
pub fn build_request(name: Option<&str>, args: &ToolArgs) -> (r: Result<DaemonRequest, String>)
    ensures
        match name {
            None => request_result(r) == Err::<RequestView, Seq<char>>("missing tool name"@),
            Some(n) => request_result(r) == tool_request(n@, args@),
        },
{
    let name = match name {
        None => return Err(String::from_str("missing tool name")),
        Some(n) => n,
    };
    if same_text(name, "register") {
        let n = required_str(args, "name")?;
        Ok(DaemonRequest::Register { name: n })
    } else if same_text(name, "tell") {
        let from = required_str(args, "from")?;
        let to = required_str(args, "to")?;
        let body = required_str(args, "body")?;
        let in_reply_to = optional_uuid(args, "in_reply_to")?;
        let create = optional_flag(args, "create")?;
        Ok(DaemonRequest::Send { from, to, body, in_reply_to, create })
    } else if same_text(name, "inbox") {
        let agent = required_str(args, "agent")?;
        Ok(DaemonRequest::Pending { agent })
    } else if same_text(name, "done") {
        let agent = required_str(args, "agent")?;
        let id = required_uuid(args, "id")?;
        Ok(DaemonRequest::Ack { agent, id })
    } else if same_text(name, "history") {
        let limit = optional_usize(args, "limit")?;
        Ok(DaemonRequest::History { limit })
    } else {
        let mut m = String::from_str("unknown tool: ");
        m.append(name);
        Err(m)
    }
}


/// The MCP protocol revision answered when the client names none.
pub fn default_protocol_version() -> (r: String)
    ensures
        r@ == "2024-11-05"@,
{
    String::from_str("2024-11-05")
}

/// The parts of a JSON-RPC `params` object the adapter reads.
#[derive(Clone, Debug, PartialEq, Eq)]
pub struct RpcParams {
    /// `protocolVersion`, when it is a string.
    pub protocol_version: Option<String>,
    /// `name`, when it is a string.
    pub tool_name: Option<String>,
    /// `arguments`.
    pub arguments: ToolArgs,
}

/// The parts of a JSON-RPC message the adapter reads.
#[derive(Clone, Debug, PartialEq, Eq)]
pub struct RpcMessage {
    /// The JSON text of `id`, when the member is present.
    pub id: Option<String>,
    /// `method`, when it is a string.
    pub method: Option<String>,
    pub params: Option<RpcParams>,
}

/// What the adapter does with a message.
#[derive(Clone, Debug, PartialEq, Eq)]
pub enum RpcAction {
    /// A notification: no reply.
    Silent,
    /// Answer `initialize` with this protocol revision.
    Initialize { id: String, protocol_version: String },
    /// Answer `tools/list` with the tool catalogue.
    ListTools { id: String },
    /// Answer `ping` with an empty result.
    Pong { id: String },
    /// A JSON-RPC error reply.
    Fail { id: String, code: i64, message: String },
    /// A tool result reporting an error.
    ToolFailed { id: String, message: String },
    /// Dispatch a primitive tool's request to the daemon.
    Request { id: String, request: DaemonRequest },
    /// The `status` flow: an optional agent inbox plus recent history.
    Status { id: String, agent: Option<String>, limit: Option<usize> },
    /// The `drain` flow: ack every pending message of an agent.
    Drain { id: String, agent: String },
    /// The `exchange` flow: register both names, send, then report.
    Exchange {
        id: String,
        from: String,
        to: String,
        body: String,
        in_reply_to: Option<u128>,
        limit: Option<usize>,
    },
}

/// `RpcParams` with texts as character sequences.
pub struct ParamsView {
    pub protocol_version: Option<Seq<char>>,
    pub tool_name: Option<Seq<char>>,
    pub arguments: Seq<(Seq<char>, ArgView)>,
}

/// `RpcMessage` with texts as character sequences.
pub struct MessageView {
    pub id: Option<Seq<char>>,
    pub method: Option<Seq<char>>,
    pub params: Option<ParamsView>,
}

/// `RpcAction` with texts as character sequences.
pub enum ActionView {
    Silent,
    Initialize { id: Seq<char>, protocol_version: Seq<char> },
    ListTools { id: Seq<char> },
    Pong { id: Seq<char> },
    Fail { id: Seq<char>, code: i64, message: Seq<char> },
    ToolFailed { id: Seq<char>, message: Seq<char> },
    Request { id: Seq<char>, request: RequestView },
    Status { id: Seq<char>, agent: Option<Seq<char>>, limit: Option<usize> },
    Drain { id: Seq<char>, agent: Seq<char> },
    Exchange {
        id: Seq<char>,
        from: Seq<char>,
        to: Seq<char>,
        body: Seq<char>,
        in_reply_to: Option<u128>,
        limit: Option<usize>,
    },
}

/// An optional text as an optional character sequence.
pub open spec fn text_opt(o: Option<String>) -> Option<Seq<char>> {
    match o {
        Some(s) => Some(s@),
        None => None,
    }
}

impl View for RpcParams {
    type V = ParamsView;

    open spec fn view(&self) -> ParamsView {
        ParamsView {
            protocol_version: text_opt(self.protocol_version),
            tool_name: text_opt(self.tool_name),
            arguments: self.arguments@,
        }
    }
}

impl View for RpcMessage {
    type V = MessageView;

    open spec fn view(&self) -> MessageView {
        MessageView {
            id: text_opt(self.id),
            method: text_opt(self.method),
            params: match self.params {
                Some(p) => Some(p@),
                None => None,
            },
        }
    }
}

impl View for RpcAction {
    type V = ActionView;

    open spec fn view(&self) -> ActionView {
        match self {
            RpcAction::Silent => ActionView::Silent,
            RpcAction::Initialize { id, protocol_version } => ActionView::Initialize {
                id: id@,
                protocol_version: protocol_version@,
            },
            RpcAction::ListTools { id } => ActionView::ListTools { id: id@ },
            RpcAction::Pong { id } => ActionView::Pong { id: id@ },
            RpcAction::Fail { id, code, message } => ActionView::Fail { id: id@, code: *code, message: message@ },
            RpcAction::ToolFailed { id, message } => ActionView::ToolFailed { id: id@, message: message@ },
            RpcAction::Request { id, request } => ActionView::Request { id: id@, request: request@ },
            RpcAction::Status { id, agent, limit } => ActionView::Status {
                id: id@,
                agent: text_opt(*agent),
                limit: *limit,
            },
            RpcAction::Drain { id, agent } => ActionView::Drain { id: id@, agent: agent@ },
            RpcAction::Exchange { id, from, to, body, in_reply_to, limit } => ActionView::Exchange {
                id: id@,
                from: from@,
                to: to@,
                body: body@,
                in_reply_to: *in_reply_to,
                limit: *limit,
            },
        }
    }
}

/// What the adapter does with a `tools/call` naming `name` with `args`.
pub open spec fn tool_action(id: Seq<char>, name: Option<Seq<char>>, args: Seq<(Seq<char>, ArgView)>) -> ActionView {
    if name == Some("status"@) {
        match count_arg(args, "limit"@) {
            Err(e) => ActionView::ToolFailed { id, message: e },
            Ok(limit) => ActionView::Status {
                id,
                agent: match lookup_arg(args, "agent"@) {
                    Some(ArgView::Text(a)) => Some(a),
                    _ => None,
                },
                limit,
            },
        }
    } else if name == Some("drain"@) {
        match text_arg(args, "agent"@) {
            Err(e) => ActionView::ToolFailed { id, message: e },
            Ok(agent) => ActionView::Drain { id, agent },
        }
    } else if name == Some("exchange"@) {
        match text_arg(args, "from"@) {
            Err(e) => ActionView::ToolFailed { id, message: e },
            Ok(from) => match text_arg(args, "to"@) {
                Err(e) => ActionView::ToolFailed { id, message: e },
                Ok(to) => match text_arg(args, "body"@) {
                    Err(e) => ActionView::ToolFailed { id, message: e },
                    Ok(body) => match uuid_arg(args, "in_reply_to"@) {
                        Err(e) => ActionView::ToolFailed { id, message: e },
                        Ok(in_reply_to) => match count_arg(args, "limit"@) {
                            Err(e) => ActionView::ToolFailed { id, message: e },
                            Ok(limit) => ActionView::Exchange { id, from, to, body, in_reply_to, limit },
                        },
                    },
                },
            },
        }
    } else {
        match name {
            None => ActionView::ToolFailed { id, message: "missing tool name"@ },
            Some(n) => match tool_request(n, args) {
                Ok(request) => ActionView::Request { id, request },
                Err(e) => ActionView::ToolFailed { id, message: e },
            },
        }
    }
}

/// What the adapter does with a JSON-RPC message: a message without `id` is
/// a notification and gets no reply; `initialize` echoes the client's
/// protocol revision or answers the default; `tools/call` runs a tool (bad
/// arguments become tool errors); unknown or missing methods are JSON-RPC
/// errors.
pub open spec fn planned(m: MessageView) -> ActionView {
    match m.id {
        None => ActionView::Silent,
        Some(id) => match m.method {
            None => ActionView::Fail { id, code: -32600i64, message: "invalid request: missing method"@ },
            Some(method) => if method == "initialize"@ {
                ActionView::Initialize {
                    id,
                    protocol_version: match m.params {
                        Some(p) => match p.protocol_version {
                            Some(v) => v,
                            None => "2024-11-05"@,
                        },
                        None => "2024-11-05"@,
                    },
                }
            } else if method == "tools/list"@ {
                ActionView::ListTools { id }
            } else if method == "tools/call"@ {
                match m.params {
                    None => ActionView::Fail { id, code: -32602i64, message: "invalid params: missing params"@ },
                    Some(p) => tool_action(id, p.tool_name, p.arguments),
                }
            } else if method == "ping"@ {
                ActionView::Pong { id }
            } else {
                ActionView::Fail { id, code: -32601i64, message: "method not found: "@ + method }
            },
        },
    }
}

/// An exchange call whose `from`, `to` and `body` arguments are strings is
/// planned as an exchange of exactly those texts, carrying the client's
/// parent: the UUID its `in_reply_to` string names, or none where the
/// argument is absent; and its `limit`, where one is given.
pub proof fn law_exchange_keeps_its_arguments(
    id: Seq<char>,
    args: Seq<(Seq<char>, ArgView)>,
    from: Seq<char>,
    to: Seq<char>,
    body: Seq<char>,
    parent: Option<(Seq<char>, u128)>,
    limit: Option<u64>,
)
    requires
        lookup_arg(args, "from"@) == Some(ArgView::Text(from)),
        lookup_arg(args, "to"@) == Some(ArgView::Text(to)),
        lookup_arg(args, "body"@) == Some(ArgView::Text(body)),
        lookup_arg(args, "in_reply_to"@) == match parent {
            Some(p) => Some(ArgView::Text(p.0)),
            None => None::<ArgView>,
        },
        parent matches Some(p) ==> uuid_parse_outcome(p.0) == Ok::<u128, Seq<char>>(p.1),
        lookup_arg(args, "limit"@) == match limit {
            Some(n) => Some(ArgView::Unsigned(n)),
            None => None::<ArgView>,
        },
    ensures
        tool_action(id, Some("exchange"@), args) == (ActionView::Exchange {
            id,
            from,
            to,
            body,
            in_reply_to: match parent {
                Some(p) => Some(p.1),
                None => None,
            },
            limit: match limit {
                Some(n) => Some(n as usize),
                None => None,
            },
        }),
{
    reveal_strlit("exchange");
    reveal_strlit("status");
    reveal_strlit("drain");
    assert("exchange"@ != "status"@) by {
        assert("exchange"@[0] != "status"@[0]);
    }
    assert("exchange"@ != "drain"@) by {
        assert("exchange"@[0] != "drain"@[0]);
    }
}

/// A drain call with a string `agent` drains exactly that agent; a status
/// call reports on its string `agent` (none when the argument is absent)
/// with the `limit` given, if any.
pub proof fn law_flow_calls_keep_their_arguments(
    id: Seq<char>,
    args: Seq<(Seq<char>, ArgView)>,
    agent: Option<Seq<char>>,
    limit: Option<u64>,
)
    requires
        lookup_arg(args, "agent"@) == match agent {
            Some(a) => Some(ArgView::Text(a)),
            None => None::<ArgView>,
        },
        lookup_arg(args, "limit"@) == match limit {
            Some(n) => Some(ArgView::Unsigned(n)),
            None => None::<ArgView>,
        },
    ensures
        agent matches Some(a) ==> tool_action(id, Some("drain"@), args) == (ActionView::Drain { id, agent: a }),
        tool_action(id, Some("status"@), args) == (ActionView::Status {
            id,
            agent,
            limit: match limit {
                Some(n) => Some(n as usize),
                None => None,
            },
        }),
{
    reveal_strlit("drain");
    reveal_strlit("status");
    assert("drain"@ != "status"@) by {
        assert("drain"@[0] != "status"@[0]);
    }
}

/// A tell call whose `from`, `to` and `body` arguments are strings becomes a
/// send of exactly those texts, carrying the client's parent: the UUID its
/// `in_reply_to` string names, or none where the argument is absent.
pub proof fn law_tell_keeps_its_parent(
    args: Seq<(Seq<char>, ArgView)>,
    from: Seq<char>,
    to: Seq<char>,
    body: Seq<char>,
    parent: Option<(Seq<char>, u128)>,
)
    requires
        lookup_arg(args, "from"@) == Some(ArgView::Text(from)),
        lookup_arg(args, "to"@) == Some(ArgView::Text(to)),
        lookup_arg(args, "body"@) == Some(ArgView::Text(body)),
        lookup_arg(args, "in_reply_to"@) == match parent {
            Some(p) => Some(ArgView::Text(p.0)),
            None => None::<ArgView>,
        },
        parent matches Some(p) ==> uuid_parse_outcome(p.0) == Ok::<u128, Seq<char>>(p.1),
        lookup_arg(args, "create"@) is None,
    ensures
        tool_request("tell"@, args) == Ok::<RequestView, Seq<char>>(RequestView::Send {
            from,
            to,
            body,
            in_reply_to: match parent {
                Some(p) => Some(p.1),
                None => None,
            },
            create: false,
        }),
{
    reveal_strlit("tell");
    reveal_strlit("register");
    assert("tell"@ != "register"@) by {
        assert("tell"@[0] != "register"@[0]);
    }
}

fn plan_tool_call(id: String, name: Option<&str>, args: &ToolArgs) -> (r: RpcAction)
    ensures
        r@ == tool_action(
            id@,
            match name {
                Some(n) => Some(n@),
                None => None,
            },
            args@,
        ),
{
    let is_status = match name {
        Some(n) => same_text(n, "status"),
        None => false,
    };
    let is_drain = match name {
        Some(n) => same_text(n, "drain"),
        None => false,
    };
    let is_exchange = match name {
        Some(n) => same_text(n, "exchange"),
        None => false,
    };
    if is_status {
        let agent = optional_str(args, "agent");
        match optional_usize(args, "limit") {
            Err(message) => RpcAction::ToolFailed { id, message },
            Ok(limit) => RpcAction::Status { id, agent, limit },
        }
    } else if is_drain {
        match required_str(args, "agent") {
            Err(message) => RpcAction::ToolFailed { id, message },
            Ok(agent) => RpcAction::Drain { id, agent },
        }
    } else if is_exchange {
        let from = match required_str(args, "from") {
            Err(message) => return RpcAction::ToolFailed { id, message },
            Ok(v) => v,
        };
        let to = match required_str(args, "to") {
            Err(message) => return RpcAction::ToolFailed { id, message },
            Ok(v) => v,
        };
        let body = match required_str(args, "body") {
            Err(message) => return RpcAction::ToolFailed { id, message },
            Ok(v) => v,
        };
        let in_reply_to = match optional_uuid(args, "in_reply_to") {
            Err(message) => return RpcAction::ToolFailed { id, message },
            Ok(v) => v,
        };
        match optional_usize(args, "limit") {
            Err(message) => RpcAction::ToolFailed { id, message },
            Ok(limit) => RpcAction::Exchange { id, from, to, body, in_reply_to, limit },
        }
    } else {
        match build_request(name, args) {
            Ok(request) => RpcAction::Request { id, request },
            Err(message) => RpcAction::ToolFailed { id, message },
        }
    }
}

/// Decides what to do with one JSON-RPC message.
pub fn plan_message(message: &RpcMessage) -> (r: RpcAction)
    ensures
        r@ == planned(message@),
{
    let id = match &message.id {
        None => return RpcAction::Silent,
        Some(id) => id.clone(),
    };
    let method = match &message.method {
        None => {
            return RpcAction::Fail {
                id,
                code: -32600,
                message: String::from_str("invalid request: missing method"),
            };
        },
        Some(m) => m.as_str(),
    };
    if same_text(method, "initialize") {
        let params = match &message.params {
            Some(p) => Some(p),
            None => None,
        };
        let protocol_version = initialize_result(params).protocol_version;
        RpcAction::Initialize { id, protocol_version }
    } else if same_text(method, "tools/list") {
        RpcAction::ListTools { id }
    } else if same_text(method, "tools/call") {
        match &message.params {
            None => RpcAction::Fail {
                id,
                code: -32602,
                message: String::from_str("invalid params: missing params"),
            },
            Some(p) => {
                let name = match &p.tool_name {
                    Some(n) => Some(n.as_str()),
                    None => None,
                };
                plan_tool_call(id, name, &p.arguments)
            },
        }
    } else if same_text(method, "ping") {
        RpcAction::Pong { id }
    } else {
        let mut m = String::from_str("method not found: ");
        m.append(method);
        RpcAction::Fail { id, code: -32601, message: m }
    }
}


/// What serde_json reports when `text` is not JSON: the parse error's
/// message, or `None` when the text parses.
pub uninterp spec fn json_parse_failure(text: Seq<char>) -> Option<Seq<char>>;

/// The compact JSON text of member `key` of the JSON object `text`, when
/// the text parses as an object holding that member.
pub uninterp spec fn json_text_member(text: Seq<char>, key: Seq<char>) -> Option<Seq<char>>;

/// The members of the JSON object `text`, each name with the compact JSON
/// text of its value, in serde_json's map order; `None` when the text is
/// not a JSON object.
pub uninterp spec fn json_text_members(text: Seq<char>) -> Option<Seq<(Seq<char>, Seq<char>)>>;

/// What a tool-call argument value `text` is, as far as the adapter reads
/// it: null, a string, a boolean, an integer that fits 64 unsigned bits, or
/// anything else (also where the text is not JSON).
pub uninterp spec fn json_text_arg(text: Seq<char>) -> ArgView;

/// `serde_json::from_str::<serde_json::Value>` on `text`, keeping only the
/// error's `Display` text where the parse fails.
#[verifier::external_body]
fn json_parse_error(text: &str) -> (r: Option<String>)
    ensures
        match r {
            Some(e) => json_parse_failure(text@) == Some(e@),
            None => json_parse_failure(text@) is None,
        },
{
    serde_json::from_str::<serde_json::Value>(text).err().map(|e| e.to_string())
}

/// `serde_json::from_str::<serde_json::Value>` on `text`, then `Value::get`
/// with `key`, the member written back with `Value::to_string`.
#[verifier::external_body]
fn json_member(text: &str, key: &str) -> (r: Option<String>)
    ensures
        match r {
            Some(m) => json_text_member(text@, key@) == Some(m@),
            None => json_text_member(text@, key@) is None,
        },
{
    serde_json::from_str::<serde_json::Value>(text).ok().and_then(|v| v.get(key).map(|m| m.to_string()))
}

/// `serde_json::from_str::<serde_json::Value>` on `text`, then
/// `Value::as_object`, each member's value written back with
/// `Value::to_string`, in the map's iteration order.
#[verifier::external_body]
fn json_members(text: &str) -> (r: Option<Vec<(String, String)>>)
    ensures
        match r {
            Some(ms) => json_text_members(text@) == Some(ms@.map_values(|m: (String, String)| (m.0@, m.1@))),
            None => json_text_members(text@) is None,
        },
{
    serde_json::from_str::<serde_json::Value>(text).ok().and_then(
        |v| v.as_object().map(|m| m.iter().map(|(k, x)| (k.clone(), x.to_string())).collect()),
    )
}

/// `serde_json::from_str::<serde_json::Value>` on `text`, the value's
/// variant told apart: `Null`, `String`, `Bool`, a `Number` whose
/// `Number::as_u64` is some count, or anything else.
#[verifier::external_body]
fn json_arg(text: &str) -> (r: ToolArg)
    ensures
        r@ == json_text_arg(text@),
{
    match serde_json::from_str::<serde_json::Value>(text) {
        Ok(serde_json::Value::Null) => ToolArg::Null,
        Ok(serde_json::Value::String(s)) => ToolArg::Text(s),
        Ok(serde_json::Value::Bool(b)) => ToolArg::Flag(b),
        Ok(serde_json::Value::Number(n)) => match n.as_u64() {
            Some(count) => ToolArg::Unsigned(count),
            None => ToolArg::Other,
        },
        _ => ToolArg::Other,
    }
}

/// The tool-call arguments held by the JSON text `text`: each member of the
/// object with what its value is; none where the text is not an object.
pub open spec fn args_of_json(text: Seq<char>) -> Seq<(Seq<char>, ArgView)> {
    match json_text_members(text) {
        Some(ms) => ms.map_values(|m: (Seq<char>, Seq<char>)| (m.0, json_text_arg(m.1))),
        None => Seq::empty(),
    }
}

/// The `params` of a message, read from its JSON text.
pub open spec fn params_of_json(text: Seq<char>) -> ParamsView {
    ParamsView {
        protocol_version: json_text_str_member(text, "protocolVersion"@),
        tool_name: json_text_str_member(text, "name"@),
        arguments: match json_text_member(text, "arguments"@) {
            Some(a) => args_of_json(a),
            None => Seq::empty(),
        },
    }
}

/// The parts of a JSON-RPC message the adapter reads, from its JSON text:
/// the text of `id`, the string `method`, and `params`.
pub open spec fn message_of_json(text: Seq<char>) -> MessageView {
    MessageView {
        id: json_text_member(text, "id"@),
        method: json_text_str_member(text, "method"@),
        params: match json_text_member(text, "params"@) {
            Some(p) => Some(params_of_json(p)),
            None => None,
        },
    }
}

/// What a line of the MCP input stream holds: the message it encodes, or
/// the parser's complaint where it is not JSON.
pub open spec fn rpc_line_outcome(line: Seq<char>) -> Result<MessageView, Seq<char>> {
    match json_parse_failure(line) {
        Some(e) => Err(e),
        None => Ok(message_of_json(line)),
    }
}

/// The tool-call arguments in the JSON text `text`.
fn tool_args_of_json(text: &str) -> (r: ToolArgs)
    ensures
        r@ == args_of_json(text@),
{
    match json_members(text) {
        None => {
            let r = ToolArgs::empty();
            assert(r@ =~= args_of_json(text@));
            r
        },
        Some(members) => {
            let ghost ms = members@.map_values(|m: (String, String)| (m.0@, m.1@));
            let mut entries: Vec<(String, ToolArg)> = Vec::new();
            let mut i: usize = 0;
            while i < members.len()
                invariant
                    i <= members.len(),
                    ms == members@.map_values(|m: (String, String)| (m.0@, m.1@)),
                    entries@.map_values(|e: (String, ToolArg)| (e.0@, e.1@)) == ms.take(i as int).map_values(
                        |m: (Seq<char>, Seq<char>)| (m.0, json_text_arg(m.1)),
                    ),
                decreases members.len() - i,
            {
                let ghost before = entries@;
                let arg = json_arg(members[i].1.as_str());
                entries.push((members[i].0.clone(), arg));
                proof {
                    assert(ms[i as int] == (members@[i as int].0@, members@[i as int].1@));
                    assert(entries@.map_values(|e: (String, ToolArg)| (e.0@, e.1@)) =~= before.map_values(
                        |e: (String, ToolArg)| (e.0@, e.1@),
                    ).push((members@[i as int].0@, arg@)));
                    assert(ms.take(i + 1).map_values(|m: (Seq<char>, Seq<char>)| (m.0, json_text_arg(m.1)))
                        =~= ms.take(i as int).map_values(|m: (Seq<char>, Seq<char>)| (m.0, json_text_arg(m.1))).push(
                        (ms[i as int].0, json_text_arg(ms[i as int].1)),
                    ));
                }
                i = i + 1;
            }
            proof {
                assert(ms.take(members.len() as int) =~= ms);
            }
            ToolArgs { entries }
        },
    }
}

/// Reads one line of the MCP input stream as a JSON-RPC message: the parts
/// the adapter reads, or the parser's complaint where the line is not JSON.
pub fn parse_rpc_line(line: &str) -> (r: Result<RpcMessage, String>)
    ensures
        match r {
            Ok(m) => rpc_line_outcome(line@) == Ok::<MessageView, Seq<char>>(m@),
            Err(e) => rpc_line_outcome(line@) == Err::<MessageView, Seq<char>>(e@),
        },
{
    if let Some(e) = json_parse_error(line) {
        return Err(e);
    }
    let id = json_member(line, "id");
    let method = json_str_member(line, "method");
    let params = match json_member(line, "params") {
        Some(p) => {
            let arguments = match json_member(p.as_str(), "arguments") {
                Some(a) => tool_args_of_json(a.as_str()),
                None => ToolArgs::empty(),
            };
            proof {
                if json_text_member(p@, "arguments"@) is None {
                    assert(arguments@ =~= Seq::<(Seq<char>, ArgView)>::empty());
                }
            }
            Some(RpcParams {
                protocol_version: json_str_member(p.as_str(), "protocolVersion"),
                tool_name: json_str_member(p.as_str(), "name"),
                arguments,
            })
        },
        None => None,
    };
    Ok(RpcMessage { id, method, params })
}

/// What one line of the MCP input stream asks for: nothing for a blank
/// line; a parse error (code -32700, id `null`) with the parser's message
/// for a line that is not JSON; otherwise what the message asks for.
pub fn plan_input_line(line: &str) -> (r: RpcAction)
    ensures
        blank(line@) ==> r@ == ActionView::Silent,
        !blank(line@) ==> r@ == match rpc_line_outcome(line@) {
            Ok(m) => planned(m),
            Err(e) => ActionView::Fail { id: "null"@, code: -32700i64, message: "parse error: "@ + e },
        },
{
    if is_blank(line) {
        return RpcAction::Silent;
    }
    match parse_rpc_line(line) {
        Ok(message) => plan_message(&message),
        Err(e) => {
            let mut message = String::from_str("parse error: ");
            message.append(e.as_str());
            RpcAction::Fail { id: String::from_str("null"), code: -32700, message }
        },
    }
}

/// The JSON type of a tool parameter.
#[derive(Clone, Copy, Debug, PartialEq, Eq, Structural)]
pub enum ParamKind {
    Text,
    Integer,
    Flag,
}

impl ParamKind {
    /// The JSON Schema type name of the kind.
    pub open spec fn schema_type(self) -> Seq<char> {
        match self {
            ParamKind::Text => "string"@,
            ParamKind::Integer => "integer"@,
            ParamKind::Flag => "boolean"@,
        }
    }

    /// The JSON Schema type name that an input schema gives the kind.
    pub fn json_type(&self) -> (r: &'static str)
        ensures
            r@ == self.schema_type(),
    {
        match self {
            ParamKind::Text => "string",
            ParamKind::Integer => "integer",
            ParamKind::Flag => "boolean",
        }
    }
}

/// One parameter of a tool's input schema.
#[derive(Clone, Debug, PartialEq, Eq)]
pub struct ToolParam {
    pub name: String,
    pub kind: ParamKind,
    pub description: String,
    pub required: bool,
}

/// A tool parameter with its texts as character sequences.
pub struct ParamView {
    pub name: Seq<char>,
    pub kind: ParamKind,
    pub description: Seq<char>,
    pub required: bool,
}

impl View for ToolParam {
    type V = ParamView;

    open spec fn view(&self) -> ParamView {
        ParamView {
            name: self.name@,
            kind: self.kind,
            description: self.description@,
            required: self.required,
        }
    }
}

/// One tool offered to MCP clients.
#[derive(Clone, Debug, PartialEq, Eq)]
pub struct ToolSpec {
    pub name: String,
    pub description: String,
    pub params: Vec<ToolParam>,
}

/// A tool with its texts as character sequences and its parameters by view.
pub struct ToolView {
    pub name: Seq<char>,
    pub description: Seq<char>,
    pub params: Seq<ParamView>,
}

/// The views of a list of parameters, in order.
pub open spec fn param_views(params: Seq<ToolParam>) -> Seq<ParamView> {
    params.map_values(|p: ToolParam| p@)
}

impl View for ToolSpec {
    type V = ToolView;

    open spec fn view(&self) -> ToolView {
        ToolView {
            name: self.name@,
            description: self.description@,
            params: param_views(self.params@),
        }
    }
}

/// The names of the required parameters, in schema order.
pub open spec fn required_of(params: Seq<ParamView>) -> Seq<Seq<char>>
    decreases params.len(),
{
    if params.len() == 0 {
        Seq::empty()
    } else {
        let rest = required_of(params.drop_last());
        if params.last().required {
            rest.push(params.last().name)
        } else {
            rest
        }
    }
}

impl ToolSpec {
    /// The names of the parameters an input schema lists as required, in the
    /// order the parameters are declared.
    pub fn required_names(&self) -> (r: Vec<String>)
        ensures
            r@.map_values(|n: String| n@) == required_of(self@.params),
    {
        let mut names: Vec<String> = Vec::new();
        let mut i: usize = 0;
        while i < self.params.len()
            invariant
                i <= self.params.len(),
                names@.map_values(|n: String| n@) == required_of(param_views(self.params@.take(i as int))),
            decreases self.params.len() - i,
        {
            let ghost before = param_views(self.params@.take(i as int));
            proof {
                assert(param_views(self.params@.take(i + 1)).drop_last() =~= before);
                assert(param_views(self.params@.take(i + 1)).last() == self.params@[i as int]@);
            }
            if self.params[i].required {
                names.push(self.params[i].name.clone());
            }
            i = i + 1;
        }
        proof {
            assert(self.params@.take(self.params@.len() as int) =~= self.params@);
        }
        names
    }
}

fn param(name: &str, kind: ParamKind, description: &str, required: bool) -> (r: ToolParam)
    ensures
        r@ == (ParamView { name: name@, kind, description: description@, required }),
{
    ToolParam {
        name: String::from_str(name),
        kind,
        description: String::from_str(description),
        required,
    }
}

/// A parameter of the catalogue, by view.
pub open spec fn param_entry(name: &str, kind: ParamKind, description: &str, required: bool) -> ParamView {
    ParamView { name: name@, kind, description: description@, required }
}

/// The tool catalogue, by view: each tool's name, description and input
/// parameters (name, JSON kind, description, and whether it is required).
pub open spec fn tool_table() -> Seq<ToolView> {
    seq![
        ToolView {
            name: "register"@,
            description: "Register an agent name with the running Aerial daemon."@,
            params: seq![
                param_entry("name", ParamKind::Text, "Human-readable agent name.", true),
            ],
        },
        ToolView {
            name: "tell"@,
            description: "Send a message from one agent to another through the daemon."@,
            params: seq![
                param_entry("from", ParamKind::Text, "Sender agent name.", true),
                param_entry("to", ParamKind::Text, "Recipient agent name.", true),
                param_entry("body", ParamKind::Text, "Message body.", true),
                param_entry("in_reply_to", ParamKind::Text, "Optional parent envelope UUID for lineage tracking.", false),
                param_entry("create", ParamKind::Flag, "Register the recipient first if it is not registered yet.", false),
            ],
        },
        ToolView {
            name: "inbox"@,
            description: "List pending (unacknowledged) messages for an agent."@,
            params: seq![
                param_entry("agent", ParamKind::Text, "Agent name whose mailbox to read.", true),
            ],
        },
        ToolView {
            name: "done"@,
            description: "Acknowledge (remove) a pending message from an agent's mailbox by envelope id."@,
            params: seq![
                param_entry("agent", ParamKind::Text, "Agent name whose message to acknowledge.", true),
                param_entry("id", ParamKind::Text, "Envelope UUID to acknowledge.", true),
            ],
        },
        ToolView {
            name: "history"@,
            description: "Show recent sent-message history across all agents."@,
            params: seq![
                param_entry("limit", ParamKind::Integer, "Maximum number of recent messages to return.", false),
            ],
        },
        ToolView {
            name: "status"@,
            description: "Show an optional agent inbox plus recent sent-message history."@,
            params: seq![
                param_entry("agent", ParamKind::Text, "Optional agent name whose pending mailbox should be included.", false),
                param_entry("limit", ParamKind::Integer, "Maximum number of recent history messages to return.", false),
            ],
        },
        ToolView {
            name: "drain"@,
            description: "Acknowledge every pending message for an agent."@,
            params: seq![
                param_entry("agent", ParamKind::Text, "Agent name whose pending mailbox should be acknowledged.", true),
            ],
        },
        ToolView {
            name: "exchange"@,
            description: "Register two agents, send a message, then return the recipient inbox and recent history."@,
            params: seq![
                param_entry("from", ParamKind::Text, "Sender agent name.", true),
                param_entry("to", ParamKind::Text, "Recipient agent name.", true),
                param_entry("body", ParamKind::Text, "Message body.", true),
                param_entry("in_reply_to", ParamKind::Text, "Optional parent envelope UUID for lineage tracking.", false),
                param_entry("limit", ParamKind::Integer, "Maximum number of recent history messages to return.", false),
            ],
        },
    ]
}

fn tool(name: &str, description: &str, params: Vec<ToolParam>) -> (r: ToolSpec)
    ensures
        r.name@ == name@,
        r.description@ == description@,
        r.params@ == params@,
{
    ToolSpec { name: String::from_str(name), description: String::from_str(description), params }
}

/// The tools offered to MCP clients, in order: the primitive tools that map
/// one to one onto daemon requests, then the macro tools. Each tool carries
/// its input schema: every parameter with its JSON kind, its description and
/// whether it is required.
pub fn tool_catalog() -> (r: Vec<ToolSpec>)
    ensures
        r@.map_values(|t: ToolSpec| t@) == tool_table(),
        r.len() == tool_table().len(),
        forall|i: int| 0 <= i < r.len() ==> #[trigger] r[i]@ == tool_table()[i],
{
    let ghost table = tool_table();
    let mut tools: Vec<ToolSpec> = Vec::new();

    let mut params: Vec<ToolParam> = Vec::new();
    params.push(param("name", ParamKind::Text, "Human-readable agent name.", true));
    let t = tool("register", "Register an agent name with the running Aerial daemon.", params);
    assert(t@ =~= table[0]) by { assert(param_views(t.params@) =~= table[0].params); }
    tools.push(t);

    let mut params: Vec<ToolParam> = Vec::new();
    params.push(param("from", ParamKind::Text, "Sender agent name.", true));
    params.push(param("to", ParamKind::Text, "Recipient agent name.", true));
    params.push(param("body", ParamKind::Text, "Message body.", true));
    params.push(param("in_reply_to", ParamKind::Text, "Optional parent envelope UUID for lineage tracking.", false));
    params.push(param("create", ParamKind::Flag, "Register the recipient first if it is not registered yet.", false));
    let t = tool("tell", "Send a message from one agent to another through the daemon.", params);
    assert(t@ =~= table[1]) by { assert(param_views(t.params@) =~= table[1].params); }
    tools.push(t);

    let mut params: Vec<ToolParam> = Vec::new();
    params.push(param("agent", ParamKind::Text, "Agent name whose mailbox to read.", true));
    let t = tool("inbox", "List pending (unacknowledged) messages for an agent.", params);
    assert(t@ =~= table[2]) by { assert(param_views(t.params@) =~= table[2].params); }
    tools.push(t);

    let mut params: Vec<ToolParam> = Vec::new();
    params.push(param("agent", ParamKind::Text, "Agent name whose message to acknowledge.", true));
    params.push(param("id", ParamKind::Text, "Envelope UUID to acknowledge.", true));
    let t = tool("done", "Acknowledge (remove) a pending message from an agent's mailbox by envelope id.", params);
    assert(t@ =~= table[3]) by { assert(param_views(t.params@) =~= table[3].params); }
    tools.push(t);

    let mut params: Vec<ToolParam> = Vec::new();
    params.push(param("limit", ParamKind::Integer, "Maximum number of recent messages to return.", false));
    let t = tool("history", "Show recent sent-message history across all agents.", params);
    assert(t@ =~= table[4]) by { assert(param_views(t.params@) =~= table[4].params); }
    tools.push(t);

    let mut params: Vec<ToolParam> = Vec::new();
    params.push(param("agent", ParamKind::Text, "Optional agent name whose pending mailbox should be included.", false));
    params.push(param("limit", ParamKind::Integer, "Maximum number of recent history messages to return.", false));
    let t = tool("status", "Show an optional agent inbox plus recent sent-message history.", params);
    assert(t@ =~= table[5]) by { assert(param_views(t.params@) =~= table[5].params); }
    tools.push(t);

    let mut params: Vec<ToolParam> = Vec::new();
    params.push(param("agent", ParamKind::Text, "Agent name whose pending mailbox should be acknowledged.", true));
    let t = tool("drain", "Acknowledge every pending message for an agent.", params);
    assert(t@ =~= table[6]) by { assert(param_views(t.params@) =~= table[6].params); }
    tools.push(t);

    let mut params: Vec<ToolParam> = Vec::new();
    params.push(param("from", ParamKind::Text, "Sender agent name.", true));
    params.push(param("to", ParamKind::Text, "Recipient agent name.", true));
    params.push(param("body", ParamKind::Text, "Message body.", true));
    params.push(param("in_reply_to", ParamKind::Text, "Optional parent envelope UUID for lineage tracking.", false));
    params.push(param("limit", ParamKind::Integer, "Maximum number of recent history messages to return.", false));
    let t = tool("exchange", "Register two agents, send a message, then return the recipient inbox and recent history.", params);
    assert(t@ =~= table[7]) by { assert(param_views(t.params@) =~= table[7].params); }
    tools.push(t);

    assert(tools@.map_values(|t: ToolSpec| t@) =~= table);
    assert forall|i: int| 0 <= i < tools.len() implies #[trigger] tools[i]@ == table[i] by {
        assert(tools@.map_values(|t: ToolSpec| t@)[i] == tools[i]@);
    }
    tools
}


/// The parts of the `initialize` answer the adapter decides: the protocol
/// revision and the server's name.
#[derive(Clone, Debug, PartialEq, Eq)]
pub struct InitializeResult {
    pub protocol_version: String,
    pub server_name: String,
}

/// The `initialize` answer: the client's requested protocol revision echoed
/// back when it names one, else the default; the server is `aerial`.
pub fn initialize_result(params: Option<&RpcParams>) -> (r: InitializeResult)
    ensures
        r.protocol_version@ == match params {
            Some(p) => match p.protocol_version {
                Some(v) => v@,
                None => "2024-11-05"@,
            },
            None => "2024-11-05"@,
        },
        r.server_name@ == "aerial"@,
{
    let protocol_version = match params {
        Some(p) => match &p.protocol_version {
            Some(v) => v.clone(),
            None => default_protocol_version(),
        },
        None => default_protocol_version(),
    };
    InitializeResult { protocol_version, server_name: String::from_str("aerial") }
}

} // verus!
