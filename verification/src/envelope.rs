//! The message unit: an envelope addressed from one agent to another.

use vstd::prelude::*;

use crate::ids::{
    hex_digit, hyphenated_string, hyphenated_text, is_random_uuid, random_uuid, simple_string, simple_text,
};

verus! {

/// An agent's stable identity: a UUID held as its 128-bit value.
#[derive(Clone, Copy, Debug, PartialEq, Eq, Hash, Structural)]
pub struct AgentId(pub u128);

impl AgentId {
    /// A fresh random (version 4) identity.
    pub fn new() -> (r: AgentId)
        ensures
            is_random_uuid(r.0),
    {
        AgentId(random_uuid())
    }

    /// The UUID value of this identity.
    pub fn as_uuid(&self) -> (r: u128)
        ensures
            r == self.0,
    {
        self.0
    }

    /// The first 12 hexadecimal digits of the UUID, used in compact views.
    pub fn short(&self) -> (r: String)
        ensures
            r@ == simple_text(self.0).take(12),
    {
        let full = simple_string(self.0);
        let mut r = String::new();
        let mut i: usize = 0;
        while i < 12
            invariant
                i <= 12,
                full@ == simple_text(self.0),
                r@ == simple_text(self.0).take(i as int),
            decreases 12 - i,
        {
            let c = full.as_str().get_char(i);
            crate::text::push_char(&mut r, c);
            assert(simple_text(self.0).take(i + 1) =~= simple_text(self.0).take(i as int).push(c));
            i = i + 1;
        }
        r
    }

    /// The canonical hyphenated text of the UUID.
    pub fn to_text(&self) -> (r: String)
        ensures
            r@ == hyphenated_text(self.0),
    {
        hyphenated_string(self.0)
    }
}

impl Default for AgentId {
    fn default() -> (r: AgentId)
        ensures
            is_random_uuid(r.0),
    {
        AgentId::new()
    }
}

} // verus!

verus! {

/// What an envelope carries.
#[derive(Clone, Copy, Debug, PartialEq, Eq, Structural)]
pub enum MessageKind {
    Message,
    Ack,
    Resume,
    TaskClaim,
}

/// An envelope: identity, addressing, optional lineage, kind, JSON payload
/// (held as its JSON text) and the send time in Unix milliseconds.
#[derive(Debug, PartialEq)]
pub struct Envelope {
    pub id: u128,
    pub from: AgentId,
    pub to: AgentId,
    pub from_name: Option<String>,
    pub to_name: Option<String>,
    pub in_reply_to: Option<u128>,
    pub kind: MessageKind,
    pub payload: String,
    pub sent_at: u64,
}

/// A copy of an optional string.
pub fn copy_optional_text(o: &Option<String>) -> (r: Option<String>)
    ensures
        r == *o,
{
    match o {
        Some(s) => Some(s.clone()),
        None => None,
    }
}

impl Clone for Envelope {
    fn clone(&self) -> (r: Envelope)
        ensures
            r == *self,
    {
        Envelope {
            id: self.id,
            from: self.from,
            to: self.to,
            from_name: copy_optional_text(&self.from_name),
            to_name: copy_optional_text(&self.to_name),
            in_reply_to: self.in_reply_to,
            kind: self.kind,
            payload: self.payload.clone(),
            sent_at: self.sent_at,
        }
    }
}

impl Envelope {
    /// An envelope with the given id, sent at `sent_at`; no names and no
    /// parent.
    pub fn stamped(from: AgentId, to: AgentId, kind: MessageKind, payload: String, id: u128, sent_at: u64) -> (r: Envelope)
        ensures
            r == Envelope::stamped_spec(from, to, kind, payload, id, sent_at),
    {
        Envelope { id, from, to, from_name: None, to_name: None, in_reply_to: None, kind, payload, sent_at }
    }

    /// A new envelope with a fresh random id, stamped with the current time
    /// (see [`now_unix_millis`]); no names and no parent.
    pub fn new(from: AgentId, to: AgentId, kind: MessageKind, payload: String) -> (r: Envelope)
        ensures
            is_random_uuid(r.id),
            r == Envelope::stamped_spec(from, to, kind, payload, r.id, r.sent_at),
    {
        let id = random_uuid();
        let sent_at = now_unix_millis();
        Envelope::stamped(from, to, kind, payload, id, sent_at)
    }

    /// The envelope [`Envelope::stamped`] builds.
    pub open spec fn stamped_spec(from: AgentId, to: AgentId, kind: MessageKind, payload: String, id: u128, sent_at: u64) -> Envelope {
        Envelope { id, from, to, from_name: None, to_name: None, in_reply_to: None, kind, payload, sent_at }
    }

    /// The same envelope, marked as a reply to `parent`.
    pub fn reply_to(self, parent: u128) -> (r: Envelope)
        ensures
            r == (Envelope { in_reply_to: Some(parent), ..self }),
    {
        let mut e = self;
        e.in_reply_to = Some(parent);
        e
    }

    /// The same envelope, carrying the sender's and recipient's names.
    pub fn with_names(self, from: String, to: String) -> (r: Envelope)
        ensures
            r == (Envelope { from_name: Some(from), to_name: Some(to), ..self }),
    {
        let mut e = self;
        e.from_name = Some(from);
        e.to_name = Some(to);
        e
    }

    /// The payload's `body` member when it is a string, else the empty text.
    pub fn body(&self) -> (r: String)
        ensures
            r@ == payload_body(self.payload@),
    {
        let key = String::from_str("body");
        proof {
            reveal_strlit("body");
        }
        match json_str_member(self.payload.as_str(), key.as_str()) {
            Some(b) => b,
            None => String::new(),
        }
    }
}

/// The `body` member of a JSON payload text, or the empty text where there is
/// no such string member.
pub open spec fn payload_body(payload: Seq<char>) -> Seq<char> {
    match json_text_str_member(payload, "body"@) {
        Some(b) => b,
        None => Seq::empty(),
    }
}

/// The payload text of a plain message: the JSON object `{"body": body}`.
pub open spec fn body_payload(body: Seq<char>) -> Seq<char> {
    json_single_member_text("body"@, body)
}

/// The JSON payload text `{"body": <body>}` of a plain message.
pub fn message_payload(body: &str) -> (r: String)
    ensures
        r@ == body_payload(body@),
        payload_body(r@) == body@,
{
    json_object_text(String::from_str("body").as_str(), body)
}

/// What serde_json makes of `text` parsed as JSON: the string held by member
/// `key` of the object, if the text is an object with such a string member.
pub uninterp spec fn json_text_str_member(text: Seq<char>, key: Seq<char>) -> Option<Seq<char>>;

/// One character of a JSON string's contents as serde_json writes it: `"`
/// and `\` behind a backslash, the named escapes for backspace, tab, line
/// feed, form feed and carriage return, `\u00XX` (lower-case hex) for the
/// other control characters below U+0020, and any other character as is.
pub open spec fn json_escaped_char(c: char) -> Seq<char> {
    if c == '"' {
        seq!['\\', '"']
    } else if c == '\\' {
        seq!['\\', '\\']
    } else if c == '\u{8}' {
        seq!['\\', 'b']
    } else if c == '\t' {
        seq!['\\', 't']
    } else if c == '\n' {
        seq!['\\', 'n']
    } else if c == '\u{c}' {
        seq!['\\', 'f']
    } else if c == '\r' {
        seq!['\\', 'r']
    } else if (c as u32) < 0x20 {
        seq!['\\', 'u', '0', '0', hex_digit(((c as u32) / 16) as u8), hex_digit(((c as u32) % 16) as u8)]
    } else {
        seq![c]
    }
}

/// The contents of a JSON string holding `s`, each character escaped.
pub open spec fn json_escaped(s: Seq<char>) -> Seq<char>
    decreases s.len(),
{
    if s.len() == 0 {
        Seq::empty()
    } else {
        json_escaped(s.drop_last()) + json_escaped_char(s.last())
    }
}

/// The JSON string literal holding `s`.
pub open spec fn json_quoted(s: Seq<char>) -> Seq<char> {
    seq!['"'] + json_escaped(s) + seq!['"']
}

/// The compact JSON text of a one-member object `{key: value}` whose value
/// is a string, as serde_json writes it: no spaces around `:`.
pub open spec fn json_single_member_text(key: Seq<char>, value: Seq<char>) -> Seq<char> {
    seq!['{'] + json_quoted(key) + seq![':'] + json_quoted(value) + seq!['}']
}

/// `serde_json::from_str::<serde_json::Value>` on `text`, then `Value::get`
/// with `key` and `Value::as_str`: the string member `key` of a JSON object
/// text, or `None` when the text is not JSON, not an object, lacks the member
/// or holds a non-string there.
#[verifier::external_body]
pub(crate) fn json_str_member(text: &str, key: &str) -> (r: Option<String>)
    ensures
        match r {
            Some(s) => json_text_str_member(text@, key@) == Some(s@),
            None => json_text_str_member(text@, key@) is None,
        },
{
    serde_json::from_str::<serde_json::Value>(text).ok().and_then(
        |v| v.get(key).and_then(|m| m.as_str()).map(|s| s.to_string()),
    )
}

/// `Value::to_string` (the compact `Display` of serde_json) of the object
/// `{key: value}`, a `Value::Object` with one `Value::String` member: the
/// text [`json_single_member_text`] states. serde_json writes valid JSON, so
/// reading the member `key` back from the text gives `value`.
#[verifier::external_body]
pub(crate) fn json_object_text(key: &str, value: &str) -> (r: String)
    ensures
        r@ == json_single_member_text(key@, value@),
        json_text_str_member(r@, key@) == Some(value@),
{
    let mut members = serde_json::Map::new();
    members.insert(key.to_string(), serde_json::Value::String(value.to_string()));
    serde_json::Value::Object(members).to_string()
}

/// The time stamp kept for a clock reading in whole milliseconds since the
/// Unix epoch: the reading itself where it fits in 64 bits; 0 where the clock
/// read before the epoch (`None`) or the count does not fit.
pub open spec fn stamp_of(reading: Option<u128>) -> u64 {
    match reading {
        Some(ms) => if ms <= u64::MAX as u128 { ms as u64 } else { 0 },
        None => 0,
    }
}

/// Later clock readings never give earlier stamps, as long as both fit in
/// 64 bits; a reading that fits is kept exactly.
pub proof fn law_stamps_follow_readings(earlier: u128, later: u128)
    requires
        earlier <= later,
        later <= u64::MAX,
    ensures
        stamp_of(Some(earlier)) <= stamp_of(Some(later)),
        stamp_of(Some(later)) == later,
{
}

/// The time stamp kept for a clock reading (see [`stamp_of`]).
pub fn stamp_from_reading(reading: Option<u128>) -> (r: u64)
    ensures
        r == stamp_of(reading),
{
    match reading {
        Some(ms) => if ms <= u64::MAX as u128 { ms as u64 } else { 0 },
        None => 0,
    }
}

/// The current time as Unix milliseconds, kept by [`stamp_from_reading`]:
/// 0 when the clock reads before the Unix epoch or beyond what 64 bits hold.
pub fn now_unix_millis() -> (r: u64) {
    let reading = match since_unix_epoch(&system_now()) {
        Some(elapsed) => Some(whole_millis(&elapsed)),
        None => None,
    };
    stamp_from_reading(reading)
}

/// `std::time::SystemTime`, carried opaque.
#[verifier::external_type_specification]
#[verifier::external_body]
pub struct ExSystemTime(std::time::SystemTime);

/// `std::time::SystemTime::now`: the system clock's current reading. Nothing
/// is claimed of it.
#[verifier::external_body]
fn system_now() -> (r: std::time::SystemTime) {
    std::time::SystemTime::now()
}

/// `SystemTime::duration_since(UNIX_EPOCH)`: the time elapsed since the Unix
/// epoch, `None` where `t` lies before it. Nothing is claimed of the value.
#[verifier::external_body]
fn since_unix_epoch(t: &std::time::SystemTime) -> (r: Option<std::time::Duration>) {
    t.duration_since(std::time::UNIX_EPOCH).ok()
}

/// `Duration::as_millis`: the whole milliseconds of `d`. `Duration` is opaque
/// here, so nothing is claimed of the count.
#[verifier::external_body]
fn whole_millis(d: &std::time::Duration) -> (r: u128) {
    d.as_millis()
}

} // verus!
