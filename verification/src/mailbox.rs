//! A durable per-agent mailbox: an append-only log of records. An envelope
//! record delivers a message; an ack record retires the message with that id.
//! What is pending is a function of the log alone, so reopening the log gives
//! the same pending messages.

use vstd::prelude::*;

use crate::envelope::Envelope;
use crate::text::{decimal_string, decimal_text};

verus! {

/// One line of a mailbox log.
#[derive(Debug, PartialEq)]
pub enum MailboxRecord {
    Envelope { envelope: Envelope },
    Ack { id: u128 },
}

impl Clone for MailboxRecord {
    fn clone(&self) -> (r: MailboxRecord)
        ensures
            r == *self,
    {
        match self {
            MailboxRecord::Envelope { envelope } => MailboxRecord::Envelope { envelope: envelope.clone() },
            MailboxRecord::Ack { id } => MailboxRecord::Ack { id: *id },
        }
    }
}

/// The envelope id a record speaks of.
pub open spec fn record_id(r: MailboxRecord) -> u128 {
    match r {
        MailboxRecord::Envelope { envelope } => envelope.id,
        MailboxRecord::Ack { id } => id,
    }
}

/// Some record of the log speaks of `id`.
pub open spec fn mentions(rs: Seq<MailboxRecord>, id: u128) -> bool {
    exists|i: int| 0 <= i < rs.len() && record_id(#[trigger] rs[i]) == id
}

/// The log holds an ack for `id`.
pub open spec fn acked(rs: Seq<MailboxRecord>, id: u128) -> bool {
    exists|i: int| 0 <= i < rs.len() && #[trigger] rs[i] == (MailboxRecord::Ack { id })
}

/// The envelopes of `s` whose id is not `id`, in order.
pub open spec fn without_id(s: Seq<Envelope>, id: u128) -> Seq<Envelope>
    decreases s.len(),
{
    if s.len() == 0 {
        s
    } else if s.last().id == id {
        without_id(s.drop_last(), id)
    } else {
        without_id(s.drop_last(), id).push(s.last())
    }
}

/// The pending envelopes of a log, in delivery order: an envelope record
/// whose id no earlier record spoke of joins the end; a later envelope record
/// with a known id changes nothing; an ack drops the envelope with its id.
pub open spec fn pending_of(rs: Seq<MailboxRecord>) -> Seq<Envelope>
    decreases rs.len(),
{
    if rs.len() == 0 {
        Seq::empty()
    } else {
        let prev = pending_of(rs.drop_last());
        match rs.last() {
            MailboxRecord::Envelope { envelope } => {
                if mentions(rs.drop_last(), envelope.id) {
                    prev
                } else {
                    prev.push(envelope)
                }
            },
            MailboxRecord::Ack { id } => without_id(prev, id),
        }
    }
}

/// `without_id` keeps exactly the envelopes with another id, in order.
pub proof fn lemma_without_id(s: Seq<Envelope>, id: u128)
    ensures
        forall|e: Envelope| #[trigger] without_id(s, id).contains(e) <==> (s.contains(e) && e.id != id),
        without_id(s, id).len() <= s.len(),
        (forall|i: int| 0 <= i < s.len() ==> (#[trigger] s[i]).id != id) ==> without_id(s, id) == s,
    decreases s.len(),
{
    if s.len() > 0 {
        let t = s.drop_last();
        lemma_without_id(t, id);
        assert(s =~= t.push(s.last()));
        let w = without_id(t, id);
        let x = s.last();
        assert forall|e: Envelope| #[trigger] without_id(s, id).contains(e) <==> (s.contains(e) && e.id != id) by {
            if t.contains(e) {
                let k = choose|k: int| 0 <= k < t.len() && t[k] == e;
                assert(s[k] == e);
            }
            if s.contains(e) && e != x {
                let k = choose|k: int| 0 <= k < s.len() && s[k] == e;
                assert(k != s.len() - 1);
                assert(t[k] == e);
            }
            if x.id != id {
                assert(without_id(s, id) == w.push(x));
                if w.contains(e) {
                    let k = choose|k: int| 0 <= k < w.len() && w[k] == e;
                    assert(w.push(x)[k] == e);
                }
                if w.push(x).contains(e) && e != x {
                    let k = choose|k: int| 0 <= k < w.push(x).len() && w.push(x)[k] == e;
                    assert(w[k] == e);
                }
                assert(w.push(x)[w.len() as int] == x);
                assert(s[s.len() - 1] == x);
            } else {
                assert(without_id(s, id) == w);
            }
        }
        if forall|i: int| 0 <= i < s.len() ==> (#[trigger] s[i]).id != id {
            assert forall|i: int| 0 <= i < t.len() implies (#[trigger] t[i]).id != id by {
                assert(t[i] == s[i]);
            }
            assert(s[s.len() - 1].id != id);
        }
    }
}

/// Every pending envelope was delivered by an envelope record of the log.
pub proof fn lemma_pending_delivered(rs: Seq<MailboxRecord>)
    ensures
        forall|e: Envelope|
            #[trigger] pending_of(rs).contains(e) ==> exists|i: int|
                0 <= i < rs.len() && rs[i] == (MailboxRecord::Envelope { envelope: e }),
    decreases rs.len(),
{
    if rs.len() > 0 {
        let t = rs.drop_last();
        lemma_pending_delivered(t);
        lemma_without_id(pending_of(t), record_id(rs.last()));
        assert forall|e: Envelope| #[trigger] pending_of(rs).contains(e) implies exists|i: int|
            0 <= i < rs.len() && rs[i] == (MailboxRecord::Envelope { envelope: e }) by {
            if pending_of(t).contains(e) {
                let i = choose|i: int| 0 <= i < t.len() && t[i] == (MailboxRecord::Envelope { envelope: e });
                assert(rs[i] == t[i]);
            } else {
                assert(rs[rs.len() - 1] == (MailboxRecord::Envelope { envelope: e }));
            }
        }
    }
}

/// No two pending envelopes share an id.
pub proof fn lemma_pending_ids_distinct(rs: Seq<MailboxRecord>)
    ensures
        forall|i: int, j: int|
            0 <= i < j < pending_of(rs).len() ==> (#[trigger] pending_of(rs)[i]).id != (
            #[trigger] pending_of(rs)[j]).id,
    decreases rs.len(),
{
    if rs.len() > 0 {
        let t = rs.drop_last();
        let prev = pending_of(t);
        lemma_pending_ids_distinct(t);
        match rs.last() {
            MailboxRecord::Envelope { envelope } => {
                if !mentions(t, envelope.id) {
                    lemma_pending_delivered(t);
                    assert forall|i: int| 0 <= i < prev.len() implies (#[trigger] prev[i]).id
                        != envelope.id by {
                        assert(prev.contains(prev[i]));
                        let k = choose|k: int|
                            0 <= k < t.len() && t[k] == (MailboxRecord::Envelope { envelope: prev[i] });
                        assert(record_id(t[k]) == prev[i].id);
                    }
                }
            },
            MailboxRecord::Ack { id } => {
                lemma_without_id_distinct(prev, id);
            },
        }
    }
}

proof fn lemma_without_id_distinct(s: Seq<Envelope>, id: u128)
    requires
        forall|i: int, j: int| 0 <= i < j < s.len() ==> (#[trigger] s[i]).id != (#[trigger] s[j]).id,
    ensures
        forall|i: int, j: int|
            0 <= i < j < without_id(s, id).len() ==> (#[trigger] without_id(s, id)[i]).id != (
            #[trigger] without_id(s, id)[j]).id,
    decreases s.len(),
{
    if s.len() > 0 {
        let t = s.drop_last();
        assert forall|i: int, j: int| 0 <= i < j < t.len() implies (#[trigger] t[i]).id != (
        #[trigger] t[j]).id by {
            assert(t[i] == s[i] && t[j] == s[j]);
        }
        lemma_without_id_distinct(t, id);
        if s.last().id != id {
            let w = without_id(t, id);
            lemma_without_id(t, id);
            assert forall|i: int| 0 <= i < w.len() implies (#[trigger] w[i]).id != s.last().id by {
                assert(w.contains(w[i]));
                let k = choose|k: int| 0 <= k < t.len() && t[k] == w[i];
                assert(s[k] == t[k]);
                assert(s[s.len() - 1] == s.last());
            }
            assert forall|i: int, j: int| 0 <= i < j < w.push(s.last()).len() implies (
            #[trigger] w.push(s.last())[i]).id != (#[trigger] w.push(s.last())[j]).id by {
                if j < w.len() {
                    assert(w.push(s.last())[i] == w[i]);
                    assert(w.push(s.last())[j] == w[j]);
                } else {
                    assert(w.push(s.last())[i] == w[i]);
                }
            }
        }
    }
}


/// An envelope whose id the log has not spoken of becomes pending, at the end.
pub proof fn law_new_envelope_joins_pending(rs: Seq<MailboxRecord>, e: Envelope)
    requires
        !mentions(rs, e.id),
    ensures
        pending_of(rs.push(MailboxRecord::Envelope { envelope: e })) == pending_of(rs).push(e),
{
    assert(rs.push(MailboxRecord::Envelope { envelope: e }).drop_last() =~= rs);
}

/// Delivering again an envelope whose id the log already speaks of (a
/// redelivery, or one already acked) leaves the pending messages unchanged.
pub proof fn law_known_envelope_changes_nothing(rs: Seq<MailboxRecord>, e: Envelope)
    requires
        mentions(rs, e.id),
    ensures
        pending_of(rs.push(MailboxRecord::Envelope { envelope: e })) == pending_of(rs),
{
    assert(rs.push(MailboxRecord::Envelope { envelope: e }).drop_last() =~= rs);
}

/// An ack drops exactly the pending envelope with its id; the others stay,
/// in order. Acking an id that is not pending changes nothing.
pub proof fn law_ack_retires_only_its_id(rs: Seq<MailboxRecord>, id: u128)
    ensures
        pending_of(rs.push(MailboxRecord::Ack { id })) == without_id(pending_of(rs), id),
        forall|e: Envelope|
            #[trigger] pending_of(rs.push(MailboxRecord::Ack { id })).contains(e) <==> (
            pending_of(rs).contains(e) && e.id != id),
        (forall|i: int| 0 <= i < pending_of(rs).len() ==> (#[trigger] pending_of(rs)[i]).id != id)
            ==> pending_of(rs.push(MailboxRecord::Ack { id })) == pending_of(rs),
{
    assert(rs.push(MailboxRecord::Ack { id }).drop_last() =~= rs);
    lemma_without_id(pending_of(rs), id);
}

/// Once the log holds an ack for an id, no envelope with that id is pending,
/// however the log grows.
pub proof fn law_acked_never_pending(rs: Seq<MailboxRecord>, id: u128)
    requires
        acked(rs, id),
    ensures
        forall|e: Envelope| #[trigger] pending_of(rs).contains(e) ==> e.id != id,
    decreases rs.len(),
{
    let t = rs.drop_last();
    let prev = pending_of(t);
    if rs.last() == (MailboxRecord::Ack { id }) {
        lemma_without_id(prev, id);
    } else {
        let i = choose|i: int| 0 <= i < rs.len() && #[trigger] rs[i] == (MailboxRecord::Ack { id });
        assert(i != rs.len() - 1);
        assert(t[i] == rs[i]);
        assert(acked(t, id));
        law_acked_never_pending(t, id);
        assert(record_id(t[i]) == id);
        match rs.last() {
            MailboxRecord::Envelope { envelope } => {
                if envelope.id == id {
                    assert(mentions(t, envelope.id));
                } else {
                    assert forall|e: Envelope| #[trigger] pending_of(rs).contains(e) implies e.id != id by {
                        if prev.contains(e) {
                        } else {
                            let k = choose|k: int| 0 <= k < prev.push(envelope).len() && prev.push(envelope)[k] == e;
                            if k < prev.len() {
                                assert(prev[k] == e);
                            }
                        }
                    }
                }
            },
            MailboxRecord::Ack { id: other } => {
                lemma_without_id(prev, other);
            },
        }
    }
}

/// An envelope stays pending from its first delivery for as long as the log
/// holds no ack for its id.
pub proof fn law_pending_until_acked(rs: Seq<MailboxRecord>, i: int, e: Envelope)
    requires
        0 <= i < rs.len(),
        rs[i] == (MailboxRecord::Envelope { envelope: e }),
        !mentions(rs.take(i), e.id),
        !acked(rs, e.id),
    ensures
        pending_of(rs).contains(e),
    decreases rs.len(),
{
    let t = rs.drop_last();
    let prev = pending_of(t);
    if i == rs.len() - 1 {
        assert(rs.take(i) =~= t);
        assert(prev.push(e)[prev.len() as int] == e);
    } else {
        assert(t.take(i) =~= rs.take(i));
        assert(t[i] == rs[i]);
        assert(!acked(t, e.id)) by {
            if acked(t, e.id) {
                let k = choose|k: int| 0 <= k < t.len() && #[trigger] t[k] == (MailboxRecord::Ack { id: e.id });
                assert(rs[k] == t[k]);
            }
        }
        law_pending_until_acked(t, i, e);
        let k = choose|k: int| 0 <= k < prev.len() && prev[k] == e;
        match rs.last() {
            MailboxRecord::Envelope { envelope } => {
                if !mentions(t, envelope.id) {
                    assert(prev.push(envelope)[k] == e);
                }
            },
            MailboxRecord::Ack { id } => {
                assert(rs[rs.len() - 1] == rs.last());
                assert(id != e.id);
                lemma_without_id(prev, id);
            },
        }
    }
}


/// Holds of the envelopes whose id is not `id`.
pub open spec fn other_than(id: u128) -> spec_fn(Envelope) -> bool {
    |e: Envelope| e.id != id
}

proof fn lemma_without_id_is_filter(s: Seq<Envelope>, id: u128)
    ensures
        without_id(s, id) == s.filter(other_than(id)),
    decreases s.len(),
{
    reveal(Seq::filter);
    if s.len() > 0 {
        lemma_without_id_is_filter(s.drop_last(), id);
    }
}

/// An ack keeps every other pending envelope, in delivery order: what is
/// pending afterwards is the subsequence of what was pending before made of
/// the envelopes with another id.
pub proof fn law_ack_keeps_delivery_order(rs: Seq<MailboxRecord>, id: u128)
    ensures
        pending_of(rs.push(MailboxRecord::Ack { id })) == pending_of(rs).filter(other_than(id)),
{
    law_ack_retires_only_its_id(rs, id);
    lemma_without_id_is_filter(pending_of(rs), id);
}

/// Acking the same id twice is the same as acking it once.
pub proof fn law_ack_is_idempotent(rs: Seq<MailboxRecord>, id: u128)
    ensures
        pending_of(rs.push(MailboxRecord::Ack { id }).push(MailboxRecord::Ack { id })) == pending_of(
            rs.push(MailboxRecord::Ack { id }),
        ),
{
    let once = rs.push(MailboxRecord::Ack { id });
    law_ack_retires_only_its_id(rs, id);
    law_ack_retires_only_its_id(once, id);
    assert forall|i: int| 0 <= i < pending_of(once).len() implies (#[trigger] pending_of(once)[i]).id != id by {
        assert(pending_of(once).contains(pending_of(once)[i]));
    }
}

/// The ack records for `ids`, in order.
pub open spec fn ack_records(ids: Seq<u128>) -> Seq<MailboxRecord> {
    ids.map_values(|id: u128| MailboxRecord::Ack { id })
}

/// The ids of a list of envelopes, in order.
pub open spec fn envelope_ids(s: Seq<Envelope>) -> Seq<u128> {
    s.map_values(|e: Envelope| e.id)
}

/// Acking a list of ids retires exactly the pending envelopes with those ids;
/// every other pending envelope stays pending.
pub proof fn law_acks_retire_their_ids(rs: Seq<MailboxRecord>, ids: Seq<u128>)
    ensures
        forall|e: Envelope|
            #[trigger] pending_of(rs + ack_records(ids)).contains(e) <==> (pending_of(rs).contains(e)
                && !ids.contains(e.id)),
    decreases ids.len(),
{
    if ids.len() == 0 {
        assert(rs + ack_records(ids) =~= rs);
    } else {
        let init = ids.drop_last();
        let last = ids.last();
        law_acks_retire_their_ids(rs, init);
        let base = rs + ack_records(init);
        assert(rs + ack_records(ids) =~= base.push(MailboxRecord::Ack { id: last }));
        law_ack_retires_only_its_id(base, last);
        assert forall|x: u128| #[trigger] ids.contains(x) <==> (init.contains(x) || x == last) by {
            if ids.contains(x) && x != last {
                let k = choose|k: int| 0 <= k < ids.len() && ids[k] == x;
                assert(k != ids.len() - 1);
                assert(init[k] == x);
            }
            if init.contains(x) {
                let k = choose|k: int| 0 <= k < init.len() && init[k] == x;
                assert(ids[k] == x);
            }
            if x == last {
                assert(ids[ids.len() - 1] == x);
            }
        }
    }
}

/// Draining a mailbox, acking every pending id in pending order, leaves
/// nothing pending.
pub proof fn law_drain_leaves_nothing_pending(rs: Seq<MailboxRecord>)
    ensures
        pending_of(rs + ack_records(envelope_ids(pending_of(rs)))) == Seq::<Envelope>::empty(),
{
    let p = pending_of(rs);
    let ids = envelope_ids(p);
    law_acks_retire_their_ids(rs, ids);
    let after = pending_of(rs + ack_records(ids));
    if after.len() > 0 {
        let e = after[0];
        assert(after.contains(e));
        let k = choose|k: int| 0 <= k < p.len() && p[k] == e;
        assert(ids[k] == e.id);
        assert(ids.contains(e.id));
    }
    assert(after =~= Seq::<Envelope>::empty());
}

fn holds_id(ids: &Vec<u128>, id: u128) -> (r: bool)
    ensures
        r == ids@.contains(id),
{
    let mut i: usize = 0;
    while i < ids.len()
        invariant
            i <= ids.len(),
            forall|j: int| 0 <= j < i ==> ids@[j] != id,
        decreases ids.len() - i,
    {
        if ids[i] == id {
            return true;
        }
        i = i + 1;
    }
    false
}

fn drop_id(v: &Vec<Envelope>, id: u128) -> (r: Vec<Envelope>)
    ensures
        r@ == without_id(v@, id),
{
    let mut out: Vec<Envelope> = Vec::new();
    let mut i: usize = 0;
    while i < v.len()
        invariant
            i <= v.len(),
            out@ == without_id(v@.take(i as int), id),
        decreases v.len() - i,
    {
        assert(v@.take(i + 1).drop_last() =~= v@.take(i as int));
        if v[i].id != id {
            out.push(v[i].clone());
        }
        i = i + 1;
    }
    assert(v@.take(v.len() as int) =~= v@);
    out
}

/// The in-memory image of a mailbox log: where it is kept and its records.
#[derive(Debug)]
pub struct Mailbox {
    path: String,
    records: Vec<MailboxRecord>,
}

impl Clone for Mailbox {
    fn clone(&self) -> (r: Mailbox)
        ensures
            r@ == self@,
            r.location() == self.location(),
    {
        Mailbox { path: self.path.clone(), records: self.records.clone() }
    }
}

impl Mailbox {
    /// The records of the log, oldest first.
    pub closed spec fn view(&self) -> Seq<MailboxRecord> {
        self.records@
    }

    /// Where the log is kept.
    pub closed spec fn location(&self) -> Seq<char> {
        self.path@
    }

    /// An empty log kept at `path`.
    pub fn new(path: String) -> (r: Mailbox)
        ensures
            r@ == Seq::<MailboxRecord>::empty(),
            r.location() == path@,
    {
        Mailbox { path, records: Vec::new() }
    }

    /// The log kept at `path` holding `records`, as read back from storage.
    pub fn from_records(path: String, records: Vec<MailboxRecord>) -> (r: Mailbox)
        ensures
            r@ == records@,
            r.location() == path@,
    {
        Mailbox { path, records }
    }

    /// Where the log is kept.
    pub fn path(&self) -> (r: &str)
        ensures
            r@ == self.location(),
    {
        self.path.as_str()
    }

    /// The records of the log, oldest first.
    pub fn records(&self) -> (r: &Vec<MailboxRecord>)
        ensures
            r@ == self@,
    {
        &self.records
    }

    /// Delivers `envelope`: appends an envelope record and returns it, to be
    /// written to storage.
    pub fn enqueue(&mut self, envelope: &Envelope) -> (r: MailboxRecord)
        ensures
            r == (MailboxRecord::Envelope { envelope: *envelope }),
            final(self)@ == old(self)@.push(r),
            final(self).location() == old(self).location(),
    {
        let record = MailboxRecord::Envelope { envelope: envelope.clone() };
        self.records.push(record.clone());
        record
    }

    /// Retires the envelope `id`: appends an ack record and returns it, to be
    /// written to storage.
    pub fn ack(&mut self, id: u128) -> (r: MailboxRecord)
        ensures
            r == (MailboxRecord::Ack { id }),
            final(self)@ == old(self)@.push(r),
            final(self).location() == old(self).location(),
    {
        self.records.push(MailboxRecord::Ack { id });
        MailboxRecord::Ack { id }
    }

    /// The envelopes delivered and not yet acked, in delivery order.
    pub fn pending(&self) -> (r: Vec<Envelope>)
        ensures
            r@ == pending_of(self@),
    {
        let rs = &self.records;
        let mut out: Vec<Envelope> = Vec::new();
        let mut seen: Vec<u128> = Vec::new();
        let mut i: usize = 0;
        while i < rs.len()
            invariant
                i <= rs.len(),
                out@ == pending_of(rs@.take(i as int)),
                forall|x: u128| #[trigger] seen@.contains(x) <==> mentions(rs@.take(i as int), x),
            decreases rs.len() - i,
        {
            let ghost before = rs@.take(i as int);
            let ghost after = rs@.take(i + 1);
            assert(after.drop_last() =~= before);
            assert(after.last() == rs@[i as int]);
            let ghost old_seen = seen@;
            let rid: u128 = match &rs[i] {
                MailboxRecord::Envelope { envelope } => {
                    if !holds_id(&seen, envelope.id) {
                        out.push(envelope.clone());
                    }
                    envelope.id
                },
                MailboxRecord::Ack { id } => {
                    out = drop_id(&out, *id);
                    *id
                },
            };
            seen.push(rid);
            proof {
                assert(rid == record_id(after[i as int]));
                assert forall|x: u128| #[trigger] seen@.contains(x) <==> mentions(after, x) by {
                    if seen@.contains(x) && x != rid {
                        let k = choose|k: int| 0 <= k < seen@.len() && seen@[k] == x;
                        assert(k < old_seen.len());
                        assert(old_seen[k] == x);
                        assert(old_seen.contains(x));
                    }
                    if old_seen.contains(x) {
                        let k = choose|k: int| 0 <= k < old_seen.len() && old_seen[k] == x;
                        assert(seen@[k] == x);
                    }
                    if x == rid {
                        assert(seen@[old_seen.len() as int] == x);
                    }
                    if mentions(before, x) {
                        let k = choose|k: int| 0 <= k < before.len() && record_id(#[trigger] before[k]) == x;
                        assert(after[k] == before[k]);
                    }
                    if mentions(after, x) {
                        let k = choose|k: int| 0 <= k < after.len() && record_id(#[trigger] after[k]) == x;
                        if k < before.len() {
                            assert(after[k] == before[k]);
                        }
                    }
                }
            }
            i = i + 1;
        }
        assert(rs@.take(rs.len() as int) =~= rs@);
        out
    }
}

} // verus!

verus! {

/// Why a mailbox log could not be read or written.
#[derive(Clone, Debug, PartialEq, Eq)]
pub enum MailboxError {
    /// Storage failed at `path`.
    Io { path: String, message: String },
    /// Line `line` (counting from 1) of the log at `path` is not a record.
    InvalidRecord { path: String, line: usize, message: String },
    /// A record could not be encoded.
    Encode(String),
}

impl MailboxError {
    /// The text of the error, as shown to users.
    pub open spec fn message_text(&self) -> Seq<char> {
        match self {
            MailboxError::Io { path, message } => "mailbox io error at "@ + path@ + ": "@ + message@,
            MailboxError::InvalidRecord { path, line, message } => "invalid mailbox record at "@ + path@ + ":"@
                + decimal_text(*line as nat) + ": "@ + message@,
            MailboxError::Encode(m) => "failed to encode mailbox record: "@ + m@,
        }
    }

    /// The text of the error, as shown to users.
    pub fn message(&self) -> (r: String)
        ensures
            r@ == self.message_text(),
    {
        match self {
            MailboxError::Io { path, message } => {
                let mut r = String::from_str("mailbox io error at ");
                r.append(path.as_str());
                r.append(": ");
                r.append(message.as_str());
                r
            },
            MailboxError::InvalidRecord { path, line, message } => {
                let mut r = String::from_str("invalid mailbox record at ");
                r.append(path.as_str());
                r.append(":");
                let n = decimal_string(*line);
                r.append(n.as_str());
                r.append(": ");
                r.append(message.as_str());
                r
            },
            MailboxError::Encode(m) => {
                let mut r = String::from_str("failed to encode mailbox record: ");
                r.append(m.as_str());
                r
            },
        }
    }
}

} // verus!
