//! The daemon's registry: which agent identity currently answers to a name.
//! The newest registration under a name wins.

use vstd::prelude::*;

use crate::directory::{entries_map, lemma_entry_at, NameMap};
use crate::envelope::{now_unix_millis, AgentId};
use crate::ids::is_random_uuid;
use crate::text::text_before;

verus! {

/// An agent registered under a name, with the time it connected (Unix ms).
#[derive(Debug, PartialEq, Eq)]
pub struct RegisteredAgent {
    pub id: AgentId,
    pub name: String,
    pub connected_at: u64,
}

impl Clone for RegisteredAgent {
    fn clone(&self) -> (r: RegisteredAgent)
        ensures
            r == *self,
    {
        RegisteredAgent { id: self.id, name: self.name.clone(), connected_at: self.connected_at }
    }
}

/// Registered agents by name.
#[derive(Debug)]
pub struct Registry {
    by_name: NameMap<RegisteredAgent>,
}

impl Registry {
    /// Well-formed: each name maps to an agent carrying that name.
    pub closed spec fn wf(&self) -> bool {
        &&& self.by_name.wf()
        &&& forall|k: Seq<char>| #[trigger] self.by_name@.contains_key(k) ==> self.by_name@[k].name@ == k
    }

    /// The registered agents by name.
    pub closed spec fn view(&self) -> Map<Seq<char>, RegisteredAgent> {
        self.by_name@
    }

    /// An empty registry.
    pub fn new() -> (r: Registry)
        ensures
            r.wf(),
            r@ == Map::<Seq<char>, RegisteredAgent>::empty(),
    {
        Registry { by_name: NameMap::new() }
    }

    /// Registers a fresh random identity under `name`, connected now; it
    /// replaces whatever answered to the name before.
    pub fn register(&mut self, name: String) -> (r: RegisteredAgent)
        requires
            old(self).wf(),
        ensures
            final(self).wf(),
            r.name == name,
            is_random_uuid(r.id.0),
            final(self)@ == old(self)@.insert(name@, r),
    {
        let id = AgentId::new();
        let now = now_unix_millis();
        self.restore(name, id, now)
    }

    /// Registers the known identity `id` under `name`, last seen at
    /// `last_seen`; it replaces whatever answered to the name before.
    pub fn restore(&mut self, name: String, id: AgentId, last_seen: u64) -> (r: RegisteredAgent)
        requires
            old(self).wf(),
        ensures
            final(self).wf(),
            r == (RegisteredAgent { id, name, connected_at: last_seen }),
            final(self)@ == old(self)@.insert(name@, r),
    {
        let agent = RegisteredAgent { id, name: name.clone(), connected_at: last_seen };
        self.by_name.insert(name, agent.clone());
        agent
    }

    /// The agent registered under `name`.
    pub fn resolve(&self, name: &str) -> (r: Option<&RegisteredAgent>)
        requires
            self.wf(),
        ensures
            match r {
                Some(a) => self@.contains_key(name@) && *a == self@[name@],
                None => !self@.contains_key(name@),
            },
    {
        self.by_name.get(name)
    }

    /// Removes the registration under `name`, handing it back.
    pub fn unregister(&mut self, name: &str) -> (r: Option<RegisteredAgent>)
        requires
            old(self).wf(),
        ensures
            final(self).wf(),
            final(self)@ == old(self)@.remove(name@),
            match r {
                Some(a) => old(self)@.contains_key(name@) && a == old(self)@[name@],
                None => !old(self)@.contains_key(name@),
            },
    {
        self.by_name.remove(name)
    }

    /// Number of registered names.
    pub fn len(&self) -> (r: usize)
        requires
            self.wf(),
        ensures
            r == self@.dom().len(),
    {
        self.by_name.len()
    }

    /// Whether no name is registered.
    pub fn is_empty(&self) -> (r: bool)
        requires
            self.wf(),
        ensures
            r == (self@.dom().len() == 0),
    {
        self.by_name.len() == 0
    }

    /// Every registered agent once, in increasing name order.
    pub fn agents(&self) -> (r: Vec<RegisteredAgent>)
        requires
            self.wf(),
        ensures
            r.len() == self@.dom().len(),
            forall|i: int|
                0 <= i < r.len() ==> self@.contains_key(#[trigger] r[i].name@) && self@[r[i].name@]
                    == r[i],
            forall|k: Seq<char>|
                #[trigger] self@.contains_key(k) ==> exists|i: int| 0 <= i < r.len() && r[i].name@ == k,
            forall|i: int, j: int|
                0 <= i < j < r.len() ==> text_before(#[trigger] r[i].name@, #[trigger] r[j].name@),
    {
        proof {
            self.by_name.lemma_unfold();
        }
        let n = self.by_name.len();
        let mut out: Vec<RegisteredAgent> = Vec::new();
        let mut i: usize = 0;
        while i < n
            invariant
                self.wf(),
                n == self.by_name.seq().len(),
                n == self@.dom().len(),
                i <= n,
                out.len() == i,
                self.by_name@ == entries_map(self.by_name.seq()),
                crate::directory::names_increase(self.by_name.seq()),
                forall|j: int| 0 <= j < i ==> #[trigger] out[j] == self.by_name.seq()[j].1,
            decreases n - i,
        {
            let entry = self.by_name.entry(i);
            proof {
                lemma_entry_at(self.by_name.seq(), i as int);
            }
            out.push(entry.1.clone());
            i = i + 1;
        }
        proof {
            let s = self.by_name.seq();
            assert forall|j: int| 0 <= j < out.len() implies self@.contains_key(#[trigger] out[j].name@)
                && self@[out[j].name@] == out[j] by {
                lemma_entry_at(s, j);
            }
            assert forall|k: Seq<char>| #[trigger] self@.contains_key(k) implies exists|j: int|
                0 <= j < out.len() && out[j].name@ == k by {
                let j = crate::directory::name_position(s, k);
                lemma_entry_at(s, j);
                assert(out[j].name@ == k);
            }
            assert forall|a: int, b: int| 0 <= a < b < out.len() implies text_before(
                #[trigger] out[a].name@,
                #[trigger] out[b].name@,
            ) by {
                lemma_entry_at(s, a);
                lemma_entry_at(s, b);
                assert(text_before(s[a].0@, s[b].0@));
            }
        }
        out
    }
}

impl Default for Registry {
    fn default() -> (r: Registry)
        ensures
            r.wf(),
            r@ == Map::<Seq<char>, RegisteredAgent>::empty(),
    {
        Registry::new()
    }
}


/// The newest registration under a name wins: registering the name twice
/// leaves one entry, the second registration, and no other name is touched.
pub proof fn law_newest_registration_wins(
    registered: Map<Seq<char>, RegisteredAgent>,
    name: Seq<char>,
    first: RegisteredAgent,
    second: RegisteredAgent,
)
    ensures
        registered.insert(name, first).insert(name, second) == registered.insert(name, second),
        registered.insert(name, second)[name] == second,
        registered.insert(name, first).dom() == registered.insert(name, first).insert(name, second).dom(),
{
    assert(registered.insert(name, first).insert(name, second) =~= registered.insert(name, second));
}

} // verus!
