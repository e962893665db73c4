//! The append-only message history across all agents, and its compact
//! one-line rendering.

use vstd::prelude::*;

use crate::envelope::{payload_body, Envelope};
use crate::text::{decimal_string, decimal_text, push_char};

verus! {

/// One sent message as recorded in the history.
#[derive(Debug, PartialEq)]
pub struct TranscriptMessage {
    pub envelope: Envelope,
    pub from_name: String,
    pub to_name: String,
}

impl Clone for TranscriptMessage {
    fn clone(&self) -> (r: TranscriptMessage)
        ensures
            r == *self,
    {
        TranscriptMessage {
            envelope: self.envelope.clone(),
            from_name: self.from_name.clone(),
            to_name: self.to_name.clone(),
        }
    }
}

/// How one character of a body appears in a summary: backslash and double
/// quote are escaped with a backslash, a line break becomes a space.
pub open spec fn escaped_char(c: char) -> Seq<char> {
    if c == '\\' {
        seq!['\\', '\\']
    } else if c == '"' {
        seq!['\\', '"']
    } else if c == '\n' {
        seq![' ']
    } else {
        seq![c]
    }
}

/// A text with every character escaped as in `escaped_char`.
pub open spec fn escaped(s: Seq<char>) -> Seq<char>
    decreases s.len(),
{
    if s.len() == 0 {
        Seq::empty()
    } else {
        escaped(s.drop_last()) + escaped_char(s.last())
    }
}

/// A body cut to its first 50 characters, marked with ` ....` when cut.
pub open spec fn clipped(body: Seq<char>) -> Seq<char> {
    if body.len() > 50 {
        body.take(50) + " ...."@
    } else {
        body
    }
}

/// The one-line summary of a body shown in the history view.
pub open spec fn body_summary(body: Seq<char>) -> Seq<char> {
    escaped(clipped(body))
}

/// `Agent <from> -> Agent <to> "<summary>"`.
pub open spec fn summary_line(from: Seq<char>, to: Seq<char>, body: Seq<char>) -> Seq<char> {
    "Agent "@ + from + " -> Agent "@ + to + " \""@ + body_summary(body) + "\""@
}

fn push_escaped(out: &mut String, s: &str)
    ensures
        final(out)@ == old(out)@ + escaped(s@),
{
    let n = s.unicode_len();
    let mut i: usize = 0;
    while i < n
        invariant
            n == s@.len(),
            i <= n,
            out@ == old(out)@ + escaped(s@.take(i as int)),
        decreases n - i,
    {
        let c = s.get_char(i);
        assert(s@.take(i + 1).drop_last() =~= s@.take(i as int));
        assert(s@.take(i + 1).last() == c);
        let ghost before = out@;
        if c == '\\' {
            out.append("\\\\");
        } else if c == '"' {
            out.append("\\\"");
        } else if c == '\n' {
            push_char(out, ' ');
        } else {
            push_char(out, c);
        }
        proof {
            if c == '\\' {
                reveal_strlit("\\\\");
                assert(out@ =~= before + seq!['\\', '\\']);
            } else if c == '"' {
                reveal_strlit("\\\"");
                assert(out@ =~= before + seq!['\\', '"']);
            } else {
                assert(out@ =~= before + escaped_char(c));
            }
            assert(out@ =~= old(out)@ + escaped(s@.take(i + 1)));
        }
        i = i + 1;
    }
    assert(s@.take(n as int) =~= s@);
}

/// The compact summary text of a message body.
pub fn summarize_body(body: &str) -> (r: String)
    ensures
        r@ == body_summary(body@),
{
    let mut out = String::new();
    if body.unicode_len() > 50 {
        let mut cut = String::from_str(body.substring_char(0, 50));
        cut.append(" ....");
        push_escaped(&mut out, cut.as_str());
    } else {
        push_escaped(&mut out, body);
    }
    assert(out@ =~= body_summary(body@));
    out
}

impl TranscriptMessage {
    /// The compact history line `Agent <from> -> Agent <to> "<body summary>"`.
    pub fn render_summary(&self) -> (r: String)
        ensures
            r@ == summary_line(self.from_name@, self.to_name@, payload_body(self.envelope.payload@)),
    {
        let body = self.envelope.body();
        let mut out = String::from_str("Agent ");
        out.append(self.from_name.as_str());
        out.append(" -> Agent ");
        out.append(self.to_name.as_str());
        out.append(" \"");
        let summary = summarize_body(body.as_str());
        out.append(summary.as_str());
        out.append("\"");
        assert(out@ =~= summary_line(self.from_name@, self.to_name@, payload_body(self.envelope.payload@)));
        out
    }
}

/// The last `limit` messages (all of them when there is no limit or fewer
/// messages than the limit), oldest first.
pub open spec fn tail_of(s: Seq<TranscriptMessage>, limit: Option<usize>) -> Seq<TranscriptMessage> {
    match limit {
        None => s,
        Some(n) => if n >= s.len() {
            s
        } else {
            s.subrange(s.len() - n, s.len() as int)
        },
    }
}

/// The in-memory image of the history log: where it is kept and its messages.
#[derive(Debug)]
pub struct Transcript {
    path: String,
    messages: Vec<TranscriptMessage>,
}

impl Transcript {
    /// The messages, oldest first.
    pub closed spec fn view(&self) -> Seq<TranscriptMessage> {
        self.messages@
    }

    /// Where the log is kept.
    pub closed spec fn location(&self) -> Seq<char> {
        self.path@
    }

    /// An empty history kept at `path`.
    pub fn new(path: String) -> (r: Transcript)
        ensures
            r@ == Seq::<TranscriptMessage>::empty(),
            r.location() == path@,
    {
        Transcript { path, messages: Vec::new() }
    }

    /// The history kept at `path` holding `messages`, as read back from storage.
    pub fn from_messages(path: String, messages: Vec<TranscriptMessage>) -> (r: Transcript)
        ensures
            r@ == messages@,
            r.location() == path@,
    {
        Transcript { path, messages }
    }

    /// Where the log is kept.
    pub fn path(&self) -> (r: &str)
        ensures
            r@ == self.location(),
    {
        self.path.as_str()
    }

    /// Records `message` at the end of the history.
    pub fn append(&mut self, message: &TranscriptMessage)
        ensures
            final(self)@ == old(self)@.push(*message),
            final(self).location() == old(self).location(),
    {
        self.messages.push(message.clone());
    }

    /// All messages, oldest first.
    pub fn messages(&self) -> (r: Vec<TranscriptMessage>)
        ensures
            r@ == self@,
    {
        let r = self.messages.clone();
        assert(r@ =~= self.messages@);
        r
    }

    /// The most recent `limit` messages, oldest first; all of them without a limit.
    pub fn tail(&self, limit: Option<usize>) -> (r: Vec<TranscriptMessage>)
        ensures
            r@ == tail_of(self@, limit),
    {
        let n = self.messages.len();
        let start: usize = match limit {
            None => 0,
            Some(k) => if k >= n {
                0
            } else {
                n - k
            },
        };
        let mut out: Vec<TranscriptMessage> = Vec::new();
        let mut i: usize = start;
        while i < n
            invariant
                start <= i <= n,
                n == self.messages@.len(),
                out@ == self.messages@.subrange(start as int, i as int),
            decreases n - i,
        {
            out.push(self.messages[i].clone());
            assert(self.messages@.subrange(start as int, i + 1) =~= self.messages@.subrange(
                start as int,
                i as int,
            ).push(self.messages@[i as int]));
            i = i + 1;
        }
        assert(self.messages@.subrange(0, n as int) =~= self.messages@);
        out
    }
}

/// Without a limit the tail is the whole history; with a limit `n` it is the
/// last `n` messages (all of them when there are fewer), in their order: a
/// suffix of the history of length `min(n, len)`.
pub proof fn law_tail_is_the_newest_suffix(s: Seq<TranscriptMessage>, limit: Option<usize>)
    ensures
        limit is None ==> tail_of(s, limit) == s,
        limit matches Some(n) ==> tail_of(s, limit).len() == (if n < s.len() { n as int } else { s.len() as int }),
        forall|i: int|
            0 <= i < tail_of(s, limit).len() ==> #[trigger] tail_of(s, limit)[i] == s[s.len() - tail_of(s, limit).len()
                + i],
{
}

/// After recording a message, the most recent `k + 1` messages are the most
/// recent `k` from before followed by the new one.
pub proof fn law_append_then_tail(s: Seq<TranscriptMessage>, m: TranscriptMessage, k: usize)
    requires
        k < usize::MAX,
    ensures
        tail_of(s.push(m), Some((k + 1) as usize)) == tail_of(s, Some(k)).push(m),
        tail_of(s.push(m), Some(1)) == seq![m],
{
    if k < s.len() {
        assert(tail_of(s.push(m), Some((k + 1) as usize)) =~= tail_of(s, Some(k)).push(m));
    } else {
        assert(tail_of(s.push(m), Some((k + 1) as usize)) =~= tail_of(s, Some(k)).push(m));
    }
    assert(tail_of(s.push(m), Some(1)) =~= seq![m]);
}

} // verus!

verus! {

/// Why the history log could not be read or written.
#[derive(Clone, Debug, PartialEq, Eq)]
pub enum TranscriptError {
    /// Storage failed at `path`.
    Io { path: String, message: String },
    /// Line `line` (counting from 1) of the log at `path` is not a message.
    InvalidRecord { path: String, line: usize, message: String },
    /// A message could not be encoded.
    Encode(String),
}

impl TranscriptError {
    /// The text of the error, as shown to users.
    pub open spec fn message_text(&self) -> Seq<char> {
        match self {
            TranscriptError::Io { path, message } => "transcript io error at "@ + path@ + ": "@ + message@,
            TranscriptError::InvalidRecord { path, line, message } => "invalid transcript record at "@ + path@ + ":"@
                + decimal_text(*line as nat) + ": "@ + message@,
            TranscriptError::Encode(m) => "failed to encode transcript record: "@ + m@,
        }
    }

    /// The text of the error, as shown to users.
    pub fn message(&self) -> (r: String)
        ensures
            r@ == self.message_text(),
    {
        match self {
            TranscriptError::Io { path, message } => {
                let mut r = String::from_str("transcript io error at ");
                r.append(path.as_str());
                r.append(": ");
                r.append(message.as_str());
                r
            },
            TranscriptError::InvalidRecord { path, line, message } => {
                let mut r = String::from_str("invalid transcript record at ");
                r.append(path.as_str());
                r.append(":");
                let n = decimal_string(*line);
                r.append(n.as_str());
                r.append(": ");
                r.append(message.as_str());
                r
            },
            TranscriptError::Encode(m) => {
                let mut r = String::from_str("failed to encode transcript record: ");
                r.append(m.as_str());
                r
            },
        }
    }
}

} // verus!
