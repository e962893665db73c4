//! Wake-up subscriptions: which watcher connections hear of new mail for
//! which agent, and why a watcher that subscribes before reading the pending
//! mail misses no envelope.

use vstd::prelude::*;

use crate::daemon::{arrival_event, replay_events};
use crate::envelope::Envelope;
use crate::mailbox::{acked, law_pending_until_acked, mentions, pending_of, MailboxRecord};
use crate::protocol::WatchEvent;
use crate::text::same_text;

verus! {

/// The tokens of the subscriptions to `agent`, in subscription order.
pub open spec fn tokens_for(subs: Seq<(u64, Seq<char>)>, agent: Seq<char>) -> Seq<u64>
    decreases subs.len(),
{
    if subs.len() == 0 {
        Seq::empty()
    } else {
        let rest = tokens_for(subs.drop_last(), agent);
        if subs.last().1 == agent {
            rest.push(subs.last().0)
        } else {
            rest
        }
    }
}

/// The subscriptions other than the one with `token`, in order.
pub open spec fn without_token(subs: Seq<(u64, Seq<char>)>, token: u64) -> Seq<(u64, Seq<char>)>
    decreases subs.len(),
{
    if subs.len() == 0 {
        subs
    } else {
        let rest = without_token(subs.drop_last(), token);
        if subs.last().0 == token {
            rest
        } else {
            rest.push(subs.last())
        }
    }
}

/// The subscriptions left after ending those with the tokens `dead`, one
/// after the other.
pub open spec fn without_tokens(subs: Seq<(u64, Seq<char>)>, dead: Seq<u64>) -> Seq<(u64, Seq<char>)>
    decreases dead.len(),
{
    if dead.len() == 0 {
        subs
    } else {
        without_token(without_tokens(subs, dead.drop_last()), dead.last())
    }
}

proof fn lemma_without_token_subset(subs: Seq<(u64, Seq<char>)>, token: u64)
    ensures
        forall|x: (u64, Seq<char>)| #[trigger] without_token(subs, token).contains(x) ==> subs.contains(x),
    decreases subs.len(),
{
    if subs.len() > 0 {
        let init = subs.drop_last();
        lemma_without_token_subset(init, token);
        assert forall|x: (u64, Seq<char>)| #[trigger] without_token(subs, token).contains(x) implies subs.contains(x) by {
            let w = without_token(init, token);
            if w.contains(x) {
                let k = choose|k: int| 0 <= k < init.len() && init[k] == x;
                assert(subs[k] == x);
            } else {
                let k = choose|k: int| 0 <= k < without_token(subs, token).len() && without_token(subs, token)[k] == x;
                assert(without_token(subs, token) == w.push(subs.last()));
                if k < w.len() {
                    assert(w[k] == x);
                }
                assert(subs[subs.len() - 1] == x);
            }
        }
    }
}

proof fn lemma_without_token_spares(subs: Seq<(u64, Seq<char>)>, token: u64, other: Seq<char>)
    requires
        forall|i: int| 0 <= i < subs.len() && (#[trigger] subs[i]).1 == other ==> subs[i].0 != token,
    ensures
        tokens_for(without_token(subs, token), other) == tokens_for(subs, other),
    decreases subs.len(),
{
    if subs.len() > 0 {
        let init = subs.drop_last();
        assert forall|i: int| 0 <= i < init.len() && (#[trigger] init[i]).1 == other implies init[i].0 != token by {
            assert(init[i] == subs[i]);
        }
        lemma_without_token_spares(init, token, other);
        let w = without_token(init, token);
        let last = subs.last();
        assert(subs[subs.len() - 1] == last);
        if last.0 != token {
            assert(without_token(subs, token) == w.push(last));
            assert(w.push(last).drop_last() =~= w);
            assert(w.push(last).last() == last);
        }
    }
}

/// Pruning the dead connections of the agent being notified touches no
/// other agent: when no subscription of `other` holds a dead token, the
/// connections watching `other` are the same, in the same order, before and
/// after.
pub proof fn law_pruning_spares_other_agents(subs: Seq<(u64, Seq<char>)>, dead: Seq<u64>, other: Seq<char>)
    requires
        forall|i: int, j: int|
            0 <= i < subs.len() && 0 <= j < dead.len() && (#[trigger] subs[i]).1 == other ==> subs[i].0
                != #[trigger] dead[j],
    ensures
        tokens_for(without_tokens(subs, dead), other) == tokens_for(subs, other),
    decreases dead.len(),
{
    if dead.len() > 0 {
        let init = dead.drop_last();
        assert forall|i: int, j: int|
            0 <= i < subs.len() && 0 <= j < init.len() && (#[trigger] subs[i]).1 == other implies subs[i].0
                != #[trigger] init[j] by {
            assert(init[j] == dead[j]);
        }
        law_pruning_spares_other_agents(subs, init, other);
        let rest = without_tokens(subs, init);
        lemma_without_tokens_subset(subs, init);
        assert forall|i: int| 0 <= i < rest.len() && (#[trigger] rest[i]).1 == other implies rest[i].0
            != dead.last() by {
            assert(rest.contains(rest[i]));
            let k = choose|k: int| 0 <= k < subs.len() && subs[k] == rest[i];
            assert(dead[dead.len() - 1] == dead.last());
        }
        lemma_without_token_spares(rest, dead.last(), other);
    }
}

proof fn lemma_without_tokens_subset(subs: Seq<(u64, Seq<char>)>, dead: Seq<u64>)
    ensures
        forall|x: (u64, Seq<char>)| #[trigger] without_tokens(subs, dead).contains(x) ==> subs.contains(x),
    decreases dead.len(),
{
    if dead.len() > 0 {
        lemma_without_tokens_subset(subs, dead.drop_last());
        lemma_without_token_subset(without_tokens(subs, dead.drop_last()), dead.last());
    }
}

/// The live watcher subscriptions, each a token handed to one connection
/// and the agent it watches.
#[derive(Debug)]
pub struct Watchers {
    subs: Vec<(u64, String)>,
    next: u64,
}

impl Watchers {
    /// The live subscriptions (token, agent), oldest first.
    pub closed spec fn view(&self) -> Seq<(u64, Seq<char>)> {
        self.subs@.map_values(|s: (u64, String)| (s.0, s.1@))
    }

    /// How many tokens have been handed out; the next one is this count.
    pub closed spec fn issued(&self) -> u64 {
        self.next
    }

    /// No token is live twice, and every live token is below the next one
    /// to hand out.
    pub closed spec fn wf(&self) -> bool {
        &&& forall|i: int, j: int|
            0 <= i < j < self.subs@.len() ==> (#[trigger] self.subs@[i]).0 != (#[trigger] self.subs@[j]).0
        &&& forall|i: int| 0 <= i < self.subs@.len() ==> (#[trigger] self.subs@[i]).0 < self.next
    }

    /// No subscriptions.
    pub fn new() -> (r: Watchers)
        ensures
            r.wf(),
            r@ == Seq::<(u64, Seq<char>)>::empty(),
            r.issued() == 0,
    {
        let r = Watchers { subs: Vec::new(), next: 0 };
        assert(r@ =~= Seq::<(u64, Seq<char>)>::empty());
        r
    }

    /// Subscribes a connection to `agent`'s new mail and hands back its
    /// token, the next one in order, which no live subscription holds;
    /// `None` exactly when every 64-bit token has been handed out.
    pub fn subscribe(&mut self, agent: String) -> (r: Option<u64>)
        requires
            old(self).wf(),
        ensures
            final(self).wf(),
            r is None <==> old(self).issued() == u64::MAX,
            match r {
                Some(token) => {
                    &&& token == old(self).issued()
                    &&& final(self).issued() == old(self).issued() + 1
                    &&& final(self)@ == old(self)@.push((token, agent@))
                    &&& forall|i: int| 0 <= i < old(self)@.len() ==> (#[trigger] old(self)@[i]).0 != token
                },
                None => final(self)@ == old(self)@ && final(self).issued() == old(self).issued(),
            },
    {
        if self.next == u64::MAX {
            return None;
        }
        let token = self.next;
        let ghost old_subs = self.subs@;
        self.subs.push((token, agent));
        self.next = self.next + 1;
        proof {
            assert(self@ =~= old(self)@.push((token, self.subs@[self.subs@.len() - 1].1@)));
            assert forall|i: int| 0 <= i < old(self)@.len() implies (#[trigger] old(self)@[i]).0 != token by {
                assert(old(self)@[i].0 == old_subs[i].0);
            }
        }
        Some(token)
    }

    /// The tokens of the connections watching `agent`, oldest first: the
    /// ones to wake when mail for `agent` arrives.
    pub fn notify_targets(&self, agent: &str) -> (r: Vec<u64>)
        ensures
            r@ == tokens_for(self@, agent@),
    {
        let mut out: Vec<u64> = Vec::new();
        let mut i: usize = 0;
        while i < self.subs.len()
            invariant
                i <= self.subs.len(),
                out@ == tokens_for(self@.take(i as int), agent@),
                self@ == self.subs@.map_values(|s: (u64, String)| (s.0, s.1@)),
            decreases self.subs.len() - i,
        {
            proof {
                assert(self@.take(i + 1).drop_last() =~= self@.take(i as int));
                assert(self@.take(i + 1).last() == self@[i as int]);
            }
            if same_text(self.subs[i].1.as_str(), agent) {
                out.push(self.subs[i].0);
            }
            i = i + 1;
        }
        proof {
            assert(self@.take(self.subs.len() as int) =~= self@);
        }
        out
    }

    /// The wake-ups owed when mail `id` arrives for `agent`: one arrival
    /// event for each connection watching `agent`, oldest first.
    pub fn deliveries(&self, agent: &str, id: u128) -> (r: Vec<(u64, WatchEvent)>)
        ensures
            r.len() == tokens_for(self@, agent@).len(),
            forall|i: int|
                0 <= i < r.len() ==> (#[trigger] r[i]).0 == tokens_for(self@, agent@)[i] && (r[i].1 matches WatchEvent::Message {
                    agent: a,
                    id: m,
                } && a@ == agent@ && m == id),
    {
        let targets = self.notify_targets(agent);
        let mut out: Vec<(u64, WatchEvent)> = Vec::new();
        let mut i: usize = 0;
        while i < targets.len()
            invariant
                i <= targets.len(),
                targets@ == tokens_for(self@, agent@),
                out.len() == i,
                forall|j: int|
                    0 <= j < i ==> (#[trigger] out[j]).0 == targets@[j] && (out[j].1 matches WatchEvent::Message {
                        agent: a,
                        id: m,
                    } && a@ == agent@ && m == id),
            decreases targets.len() - i,
        {
            out.push((targets[i], arrival_event(agent, id)));
            i = i + 1;
        }
        out
    }

    /// Ends the subscriptions of the connections that went away, `dead`, in
    /// order; the others stay, in order.
    pub fn prune(&mut self, dead: &Vec<u64>)
        requires
            old(self).wf(),
        ensures
            final(self).wf(),
            final(self)@ == without_tokens(old(self)@, dead@),
            final(self).issued() == old(self).issued(),
    {
        let mut i: usize = 0;
        while i < dead.len()
            invariant
                i <= dead.len(),
                self.wf(),
                self@ == without_tokens(old(self)@, dead@.take(i as int)),
                self.issued() == old(self).issued(),
            decreases dead.len() - i,
        {
            self.retire(dead[i]);
            proof {
                assert(dead@.take(i + 1).drop_last() =~= dead@.take(i as int));
                assert(dead@.take(i + 1).last() == dead@[i as int]);
            }
            i = i + 1;
        }
        proof {
            assert(dead@.take(dead.len() as int) =~= dead@);
        }
    }

    /// Ends the subscription with `token` (its connection went away); the
    /// others stay, in order.
    pub fn retire(&mut self, token: u64)
        requires
            old(self).wf(),
        ensures
            final(self).wf(),
            final(self)@ == without_token(old(self)@, token),
            final(self).issued() == old(self).issued(),
    {
        let ghost before = self@;
        let mut kept: Vec<(u64, String)> = Vec::new();
        let mut i: usize = 0;
        while i < self.subs.len()
            invariant
                i <= self.subs.len(),
                before == self.subs@.map_values(|s: (u64, String)| (s.0, s.1@)),
                kept@.map_values(|s: (u64, String)| (s.0, s.1@)) == without_token(before.take(i as int), token),
                forall|a: int| 0 <= a < kept@.len() ==> exists|b: int| 0 <= b < i && #[trigger] kept@[a] == self.subs@[b],
                forall|a: int, c: int| 0 <= a < c < kept@.len() ==> exists|b: int, d: int|
                    0 <= b < d < i && #[trigger] kept@[a] == self.subs@[b] && #[trigger] kept@[c] == self.subs@[d],
            decreases self.subs.len() - i,
        {
            proof {
                assert(before.take(i + 1).drop_last() =~= before.take(i as int));
                assert(before.take(i + 1).last() == before[i as int]);
            }
            if self.subs[i].0 != token {
                let ghost old_kept = kept@;
                kept.push((self.subs[i].0, self.subs[i].1.clone()));
                proof {
                    assert(kept@.map_values(|s: (u64, String)| (s.0, s.1@)) =~= old_kept.map_values(
                        |s: (u64, String)| (s.0, s.1@),
                    ).push(before[i as int]));
                    assert(kept@[old_kept.len() as int] == self.subs@[i as int]);
                    assert forall|a: int| 0 <= a < kept@.len() implies exists|b: int|
                        0 <= b < i + 1 && #[trigger] kept@[a] == self.subs@[b] by {
                        if a < old_kept.len() {
                            assert(kept@[a] == old_kept[a]);
                        }
                    }
                    assert forall|a: int, c: int| 0 <= a < c < kept@.len() implies exists|b: int, d: int|
                        0 <= b < d < i + 1 && #[trigger] kept@[a] == self.subs@[b] && #[trigger] kept@[c]
                            == self.subs@[d] by {
                        assert(kept@[a] == old_kept[a]);
                        if c < old_kept.len() {
                            assert(kept@[c] == old_kept[c]);
                        } else {
                            let b = choose|b: int| 0 <= b < i && #[trigger] old_kept[a] == self.subs@[b];
                            assert(kept@[c] == self.subs@[i as int]);
                        }
                    }
                }
            }
            i = i + 1;
        }
        proof {
            assert(before.take(self.subs.len() as int) =~= before);
        }
        let ghost old_subs = self.subs@;
        self.subs = kept;
        proof {
            assert forall|a: int, c: int| 0 <= a < c < self.subs@.len() implies (#[trigger] self.subs@[a]).0
                != (#[trigger] self.subs@[c]).0 by {
                let (b, d) = choose|b: int, d: int|
                    0 <= b < d < old_subs.len() && #[trigger] self.subs@[a] == old_subs[b] && #[trigger] self.subs@[c]
                        == old_subs[d];
            }
            assert forall|a: int| 0 <= a < self.subs@.len() implies (#[trigger] self.subs@[a]).0 < self.next by {
                let b = choose|b: int| 0 <= b < old_subs.len() && #[trigger] self.subs@[a] == old_subs[b];
            }
        }
    }
}

impl Default for Watchers {
    fn default() -> (r: Watchers)
        ensures
            r.wf(),
            r@ == Seq::<(u64, Seq<char>)>::empty(),
            r.issued() == 0,
    {
        Watchers::new()
    }
}

/// A watch connection being opened: it is subscribed first, and only then
/// can its agent's pending mail be replayed to it, so mail that arrives in
/// between is announced or replayed.
#[derive(Debug)]
pub struct WatchOpening {
    token: u64,
    agent: String,
}

impl WatchOpening {
    /// The subscription's token.
    pub closed spec fn token_of(&self) -> u64 {
        self.token
    }

    /// The watched agent.
    pub closed spec fn agent_of(&self) -> Seq<char> {
        self.agent@
    }

    /// Opens a watch of `agent`: subscribes it to new mail under the next
    /// token; `None` exactly when every 64-bit token has been handed out.
    pub fn subscribe(watchers: &mut Watchers, agent: String) -> (r: Option<WatchOpening>)
        requires
            old(watchers).wf(),
        ensures
            final(watchers).wf(),
            r is None <==> old(watchers).issued() == u64::MAX,
            match r {
                Some(opening) => {
                    &&& opening.agent_of() == agent@
                    &&& opening.token_of() == old(watchers).issued()
                    &&& final(watchers).issued() == old(watchers).issued() + 1
                    &&& final(watchers)@ == old(watchers)@.push((opening.token_of(), agent@))
                    &&& forall|i: int|
                        0 <= i < old(watchers)@.len() ==> (#[trigger] old(watchers)@[i]).0 != opening.token_of()
                },
                None => final(watchers)@ == old(watchers)@ && final(watchers).issued() == old(watchers).issued(),
            },
    {
        match watchers.subscribe(agent.clone()) {
            Some(token) => Some(WatchOpening { token, agent }),
            None => None,
        }
    }

    /// The subscription's token.
    pub fn token(&self) -> (r: u64)
        ensures
            r == self.token_of(),
    {
        self.token
    }

    /// The events replaying `pending`, the agent's pending mail read after
    /// the subscription: one per envelope, in pending order.
    pub fn replay(&self, pending: &Vec<Envelope>) -> (r: Vec<WatchEvent>)
        ensures
            r.len() == pending.len(),
            forall|i: int|
                0 <= i < r.len() ==> ((#[trigger] r[i]) matches WatchEvent::Message { agent: a, id } && a@
                    == self.agent_of() && id == pending[i].id),
    {
        replay_events(self.agent.as_str(), pending)
    }
}

/// One step of the daemon's wake-up machinery, in the order the steps
/// happened across all connections.
pub enum HubStep {
    /// Connection `token` subscribed to `agent`'s new mail.
    Subscribe { token: u64, agent: Seq<char> },
    /// Connection `token` went away.
    Retire { token: u64 },
    /// A record was appended to `agent`'s mailbox (a send's envelope, or an ack).
    Append { agent: Seq<char>, record: MailboxRecord },
    /// Every connection then subscribed to `agent` was told of envelope `id`.
    Notify { agent: Seq<char>, id: u128 },
    /// Connection `token` read its agent's pending mail and was told of each
    /// pending envelope.
    Replay { token: u64, agent: Seq<char> },
}

/// The records of `agent`'s mailbox after the first `n` steps.
pub open spec fn mailbox_after(steps: Seq<HubStep>, n: int, agent: Seq<char>) -> Seq<MailboxRecord>
    decreases n,
{
    if n <= 0 {
        Seq::empty()
    } else {
        let prev = mailbox_after(steps, n - 1, agent);
        match steps[n - 1] {
            HubStep::Append { agent: a, record } => if a == agent { prev.push(record) } else { prev },
            _ => prev,
        }
    }
}

/// Connection `token` is subscribed to `agent` when step `n` happens.
pub open spec fn subscribed_at(steps: Seq<HubStep>, n: int, token: u64, agent: Seq<char>) -> bool {
    exists|k: int|
        0 <= k < n && #[trigger] steps[k] == (HubStep::Subscribe { token, agent }) && forall|m: int|
            k < m < n ==> #[trigger] steps[m] != (HubStep::Retire { token })
}

/// Connection `token`, watching `agent`, is told of envelope `id`: by a
/// notification while it is subscribed, or by a replay of the pending mail
/// that holds the envelope.
pub open spec fn told_of(steps: Seq<HubStep>, token: u64, agent: Seq<char>, id: u128) -> bool {
    ||| exists|j: int|
        0 <= j < steps.len() && #[trigger] steps[j] == (HubStep::Notify { agent, id }) && subscribed_at(
            steps,
            j,
            token,
            agent,
        )
    ||| exists|r: int|
        0 <= r < steps.len() && #[trigger] steps[r] == (HubStep::Replay { token, agent }) && exists|e: crate::envelope::Envelope|
            e.id == id && #[trigger] pending_of(mailbox_after(steps, r, agent)).contains(e)
}

proof fn lemma_mailbox_grows(steps: Seq<HubStep>, i: int, n: int, agent: Seq<char>)
    requires
        0 <= i <= n,
    ensures
        mailbox_after(steps, i, agent).len() <= mailbox_after(steps, n, agent).len(),
        mailbox_after(steps, n, agent).take(mailbox_after(steps, i, agent).len() as int) == mailbox_after(
            steps,
            i,
            agent,
        ),
    decreases n - i,
{
    if i < n {
        lemma_mailbox_grows(steps, i, n - 1, agent);
        let a = mailbox_after(steps, i, agent);
        let m = mailbox_after(steps, n - 1, agent);
        match steps[n - 1] {
            HubStep::Append { agent: b, record } => {
                if b == agent {
                    assert(m.push(record).take(a.len() as int) =~= m.take(a.len() as int));
                }
            },
            _ => {},
        }
    } else {
        assert(mailbox_after(steps, n, agent).take(mailbox_after(steps, n, agent).len() as int)
            =~= mailbox_after(steps, n, agent));
    }
}

/// A watcher that subscribes before it reads the pending mail misses no
/// envelope: for every envelope a send appends to the watched agent's
/// mailbox and then announces, the watcher is told of it, either by the
/// replay (the envelope was appended before the read and not acked by then)
/// or by the announcement (the envelope was appended after the read, so the
/// watcher was already subscribed). Duplicates are possible; losses are not.
pub proof fn law_subscribed_watcher_misses_nothing(
    steps: Seq<HubStep>,
    token: u64,
    agent: Seq<char>,
    s: int,
    r: int,
    i: int,
    j: int,
    e: crate::envelope::Envelope,
)
    requires
        0 <= s < r < steps.len(),
        steps[s] == (HubStep::Subscribe { token, agent }),
        steps[r] == (HubStep::Replay { token, agent }),
        forall|m: int| s < m < steps.len() ==> #[trigger] steps[m] != (HubStep::Retire { token }),
        0 <= i < j < steps.len(),
        steps[i] == (HubStep::Append { agent, record: MailboxRecord::Envelope { envelope: e } }),
        !mentions(mailbox_after(steps, i, agent), e.id),
        steps[j] == (HubStep::Notify { agent, id: e.id }),
        !acked(mailbox_after(steps, r, agent), e.id),
    ensures
        told_of(steps, token, agent, e.id),
{
    if i < r {
        lemma_mailbox_grows(steps, i + 1, r, agent);
        let rs = mailbox_after(steps, r, agent);
        let before = mailbox_after(steps, i, agent);
        let p = before.len() as int;
        assert(mailbox_after(steps, i + 1, agent) == before.push(MailboxRecord::Envelope { envelope: e }));
        assert(rs[p] == mailbox_after(steps, i + 1, agent)[p]);
        assert(rs.take(p) =~= before) by {
            assert(rs.take(p + 1).take(p) =~= rs.take(p));
            assert(before.push(MailboxRecord::Envelope { envelope: e }).take(p) =~= before);
        }
        law_pending_until_acked(rs, p, e);
        assert(pending_of(mailbox_after(steps, r, agent)).contains(e));
    } else {
        assert(i != r);
        assert(steps[s] == (HubStep::Subscribe { token, agent }));
        assert(subscribed_at(steps, j, token, agent));
    }
}

} // verus!
