//! A map keyed by names, kept as a vector of entries in strictly increasing
//! name order, so that each name occurs at most once and listings come out
//! sorted.

use vstd::prelude::*;

use crate::text::{compare_text, lemma_text_order, text_before, TextOrder};

verus! {

/// Entries whose names strictly increase.
pub open spec fn names_increase<V>(s: Seq<(String, V)>) -> bool {
    forall|i: int, j: int| 0 <= i < j < s.len() ==> text_before(#[trigger] s[i].0@, #[trigger] s[j].0@)
}

/// Some entry of `s` carries the name `k`.
pub open spec fn has_name<V>(s: Seq<(String, V)>, k: Seq<char>) -> bool {
    exists|i: int| 0 <= i < s.len() && #[trigger] s[i].0@ == k
}

/// A position of an entry carrying the name `k`.
pub open spec fn name_position<V>(s: Seq<(String, V)>, k: Seq<char>) -> int {
    choose|i: int| 0 <= i < s.len() && #[trigger] s[i].0@ == k
}

/// The map from names to values that a list of entries stands for.
pub open spec fn entries_map<V>(s: Seq<(String, V)>) -> Map<Seq<char>, V> {
    Map::new(|k: Seq<char>| has_name(s, k), |k: Seq<char>| s[name_position(s, k)].1)
}

/// In a well-ordered list the entry at `i` is the one its name maps to.
pub proof fn lemma_entry_at<V>(s: Seq<(String, V)>, i: int)
    requires
        names_increase(s),
        0 <= i < s.len(),
    ensures
        entries_map(s).contains_key(s[i].0@),
        entries_map(s)[s[i].0@] == s[i].1,
{
    let k = s[i].0@;
    assert(has_name(s, k));
    let j = name_position(s, k);
    if j < i {
        assert(text_before(s[j].0@, s[i].0@));
        lemma_text_order(k, k, k);
    } else if i < j {
        assert(text_before(s[i].0@, s[j].0@));
        lemma_text_order(k, k, k);
    }
    assert(j == i);
    assert(entries_map(s)[k] == s[j].1);
}

/// A name-keyed map held as name-ordered entries.
#[derive(Debug)]
pub struct NameMap<V> {
    entries: Vec<(String, V)>,
}

impl<V> NameMap<V> {
    /// The entries are in strictly increasing name order.
    pub closed spec fn wf(&self) -> bool {
        names_increase(self.entries@)
    }

    /// The entries in name order.
    pub closed spec fn seq(&self) -> Seq<(String, V)> {
        self.entries@
    }

    /// The map the entries stand for.
    pub closed spec fn view(&self) -> Map<Seq<char>, V> {
        entries_map(self.entries@)
    }

    /// The map is the one the ordered entries stand for.
    pub proof fn lemma_unfold(&self)
        ensures
            self.wf() == names_increase(self.seq()),
            self@ == entries_map(self.seq()),
    {
    }

    /// An empty map.
    pub fn new() -> (r: Self)
        ensures
            r.wf(),
            r.seq().len() == 0,
            r@ == Map::<Seq<char>, V>::empty(),
    {
        let r = NameMap { entries: Vec::new() };
        assert(r@ =~= Map::<Seq<char>, V>::empty());
        r
    }

    /// Position of the first entry not before `key`, and whether it carries `key`.
    fn locate(&self, key: &str) -> (r: (usize, bool))
        requires
            self.wf(),
        ensures
            r.0 <= self.seq().len(),
            forall|i: int| 0 <= i < r.0 ==> text_before(#[trigger] self.seq()[i].0@, key@),
            r.1 <==> (r.0 < self.seq().len() && self.seq()[r.0 as int].0@ == key@),
            !r.1 && r.0 < self.seq().len() ==> text_before(key@, self.seq()[r.0 as int].0@),
            r.1 <==> self@.contains_key(key@),
    {
        let n = self.entries.len();
        let mut i: usize = 0;
        while i < n
            invariant
                n == self.entries@.len(),
                self.wf(),
                i <= n,
                forall|j: int| 0 <= j < i ==> text_before(#[trigger] self.entries@[j].0@, key@),
            decreases n - i,
        {
            match compare_text(self.entries[i].0.as_str(), key) {
                TextOrder::Before => {
                    i = i + 1;
                },
                TextOrder::Same => {
                    proof {
                        lemma_entry_at(self.entries@, i as int);
                    }
                    return (i, true);
                },
                TextOrder::After => {
                    proof {
                        self.lemma_absent(key@, i as int);
                    }
                    return (i, false);
                },
            }
        }
        proof {
            self.lemma_absent(key@, i as int);
        }
        (i, false)
    }

    proof fn lemma_absent(&self, key: Seq<char>, p: int)
        requires
            self.wf(),
            0 <= p <= self.seq().len(),
            forall|j: int| 0 <= j < p ==> text_before(#[trigger] self.seq()[j].0@, key),
            p < self.seq().len() ==> text_before(key, self.seq()[p].0@),
        ensures
            !self@.contains_key(key),
    {
        let s = self.entries@;
        if has_name(s, key) {
            let j = choose|j: int| 0 <= j < s.len() && #[trigger] s[j].0@ == key;
            lemma_text_order(key, key, key);
            if j > p {
                assert(text_before(s[p].0@, s[j].0@));
                lemma_text_order(key, s[p].0@, key);
            } else if j == p {
            } else {
                assert(text_before(s[j].0@, key));
            }
        }
    }

    /// The value stored under `key`.
    pub fn get(&self, key: &str) -> (r: Option<&V>)
        requires
            self.wf(),
        ensures
            match r {
                Some(v) => self@.contains_key(key@) && *v == self@[key@],
                None => !self@.contains_key(key@),
            },
    {
        let (p, found) = self.locate(key);
        if found {
            proof {
                lemma_entry_at(self.entries@, p as int);
            }
            Some(&self.entries[p].1)
        } else {
            None
        }
    }

    /// Number of entries.
    pub fn len(&self) -> (r: usize)
        requires
            self.wf(),
        ensures
            r == self.seq().len(),
            r == self@.dom().len(),
    {
        proof {
            self.lemma_len();
        }
        self.entries.len()
    }

    proof fn lemma_len(&self)
        requires
            self.wf(),
        ensures
            self@.dom().len() == self.seq().len(),
    {
        let s = self.entries@;
        let names = s.map_values(|e: (String, V)| e.0@);
        assert forall|i: int, j: int| 0 <= i < names.len() && 0 <= j < names.len() && i != j
            implies names[i] != names[j] by {
            lemma_text_order(s[i].0@, s[j].0@, s[i].0@);
            if i < j {
                assert(text_before(s[i].0@, s[j].0@));
            } else {
                assert(text_before(s[j].0@, s[i].0@));
                lemma_text_order(s[j].0@, s[i].0@, s[j].0@);
            }
        }
        assert(names.no_duplicates());
        names.unique_seq_to_set();
        assert forall|k: Seq<char>| #[trigger] self@.dom().contains(k) <==> names.to_set().contains(k) by {
            if self@.dom().contains(k) {
                let j = choose|j: int| 0 <= j < s.len() && #[trigger] s[j].0@ == k;
                assert(names[j] == k);
            }
            if names.to_set().contains(k) {
                let j = choose|j: int| 0 <= j < names.len() && names[j] == k;
                assert(s[j].0@ == k);
            }
        }
        assert(self@.dom() =~= names.to_set());
    }

    /// Stores `value` under `key`, replacing what was there.
    pub fn insert(&mut self, key: String, value: V)
        requires
            old(self).wf(),
        ensures
            final(self).wf(),
            final(self)@ == old(self)@.insert(key@, value),
    {
        let (p, found) = self.locate(key.as_str());
        let ghost s = self.entries@;
        let ghost k = key@;
        let ghost e = (key, value);
        if found {
            self.entries.set(p, (key, value));
            proof {
                let t = self.entries@;
                assert(t =~= s.update(p as int, e));
                assert forall|i: int, j: int| 0 <= i < j < t.len() implies text_before(
                    #[trigger] t[i].0@,
                    #[trigger] t[j].0@,
                ) by {
                    assert(s[i].0@ == t[i].0@ || i == p);
                    assert(s[j].0@ == t[j].0@ || j == p);
                    assert(text_before(s[i].0@, s[j].0@));
                }
                self.lemma_same_keys_update(s, p as int, e);
            }
        } else {
            self.entries.insert(p, (key, value));
            proof {
                let t = self.entries@;
                assert(t =~= s.insert(p as int, e));
                assert forall|i: int, j: int| 0 <= i < j < t.len() implies text_before(
                    #[trigger] t[i].0@,
                    #[trigger] t[j].0@,
                ) by {
                    if j < p {
                        assert(text_before(s[i].0@, s[j].0@));
                    } else if j == p {
                        assert(text_before(s[i].0@, k));
                    } else if i < p {
                        assert(text_before(s[i].0@, s[j - 1].0@));
                    } else if i == p {
                        assert(text_before(k, s[p as int].0@));
                        if j - 1 > p {
                            assert(text_before(s[p as int].0@, s[j - 1].0@));
                            lemma_text_order(k, s[p as int].0@, s[j - 1].0@);
                        }
                    } else {
                        assert(text_before(s[i - 1].0@, s[j - 1].0@));
                    }
                }
                self.lemma_inserted_keys(s, p as int, e);
            }
        }
    }

    proof fn lemma_same_keys_update(&self, s: Seq<(String, V)>, p: int, e: (String, V))
        requires
            names_increase(s),
            0 <= p < s.len(),
            s[p].0@ == e.0@,
            self.entries@ == s.update(p, e),
            self.wf(),
        ensures
            self@ == entries_map(s).insert(e.0@, e.1),
    {
        let t = self.entries@;
        let m = entries_map(s).insert(e.0@, e.1);
        assert forall|k: Seq<char>| #[trigger] self@.dom().contains(k) <==> m.dom().contains(k) by {
            if has_name(t, k) {
                let j = choose|j: int| 0 <= j < t.len() && #[trigger] t[j].0@ == k;
                assert(s[j].0@ == k);
            }
            if has_name(s, k) {
                let j = choose|j: int| 0 <= j < s.len() && #[trigger] s[j].0@ == k;
                assert(t[j].0@ == k);
            }
            if k == e.0@ {
                assert(t[p].0@ == k);
            }
        }
        assert forall|k: Seq<char>| #[trigger] self@.dom().contains(k) implies self@[k] == m[k] by {
            let j = choose|j: int| 0 <= j < t.len() && #[trigger] t[j].0@ == k;
            lemma_entry_at(t, j);
            if j != p {
                assert(t[j] == s[j]);
                lemma_entry_at(s, j);
                if j < p {
                    assert(text_before(t[j].0@, t[p].0@));
                } else {
                    assert(text_before(t[p].0@, t[j].0@));
                }
                lemma_text_order(k, k, k);
                assert(k != e.0@);
            } else {
                assert(t[p] == e);
            }
        }
        assert(self@ =~= m);
    }

    proof fn lemma_inserted_keys(&self, s: Seq<(String, V)>, p: int, e: (String, V))
        requires
            names_increase(s),
            0 <= p <= s.len(),
            !has_name(s, e.0@),
            self.entries@ == s.insert(p, e),
            self.wf(),
        ensures
            self@ == entries_map(s).insert(e.0@, e.1),
    {
        let t = self.entries@;
        let m = entries_map(s).insert(e.0@, e.1);
        assert forall|k: Seq<char>| #[trigger] self@.dom().contains(k) <==> m.dom().contains(k) by {
            if has_name(t, k) {
                let j = choose|j: int| 0 <= j < t.len() && #[trigger] t[j].0@ == k;
                if j < p {
                    assert(s[j].0@ == k);
                } else if j > p {
                    assert(s[j - 1].0@ == k);
                }
            }
            if has_name(s, k) {
                let j = choose|j: int| 0 <= j < s.len() && #[trigger] s[j].0@ == k;
                if j < p {
                    assert(t[j].0@ == k);
                } else {
                    assert(t[j + 1].0@ == k);
                }
            }
            if k == e.0@ {
                assert(t[p].0@ == k);
            }
        }
        assert forall|k: Seq<char>| #[trigger] self@.dom().contains(k) implies self@[k] == m[k] by {
            let j = choose|j: int| 0 <= j < t.len() && #[trigger] t[j].0@ == k;
            lemma_entry_at(t, j);
            if j < p {
                lemma_entry_at(s, j);
            } else if j > p {
                lemma_entry_at(s, j - 1);
            }
        }
        assert(self@ =~= m);
    }

    /// Takes out the value stored under `key`.
    pub fn remove(&mut self, key: &str) -> (r: Option<V>)
        requires
            old(self).wf(),
        ensures
            final(self).wf(),
            final(self)@ == old(self)@.remove(key@),
            match r {
                Some(v) => old(self)@.contains_key(key@) && v == old(self)@[key@],
                None => !old(self)@.contains_key(key@),
            },
    {
        let (p, found) = self.locate(key);
        if found {
            proof {
                lemma_entry_at(self.entries@, p as int);
            }
            let ghost s = self.entries@;
            let (_, v) = self.entries.remove(p);
            proof {
                let t = self.entries@;
                assert(t =~= s.remove(p as int));
                assert forall|i: int, j: int| 0 <= i < j < t.len() implies text_before(
                    #[trigger] t[i].0@,
                    #[trigger] t[j].0@,
                ) by {
                    if j < p {
                        assert(text_before(s[i].0@, s[j].0@));
                    } else if i < p {
                        assert(text_before(s[i].0@, s[j + 1].0@));
                    } else {
                        assert(text_before(s[i + 1].0@, s[j + 1].0@));
                    }
                }
                self.lemma_removed_keys(s, p as int, key@);
            }
            Some(v)
        } else {
            proof {
                assert(self@ =~= self@.remove(key@));
            }
            None
        }
    }

    proof fn lemma_removed_keys(&self, s: Seq<(String, V)>, p: int, k0: Seq<char>)
        requires
            names_increase(s),
            0 <= p < s.len(),
            s[p].0@ == k0,
            self.entries@ == s.remove(p),
            self.wf(),
        ensures
            self@ == entries_map(s).remove(k0),
    {
        let t = self.entries@;
        let m = entries_map(s).remove(k0);
        assert forall|k: Seq<char>| #[trigger] self@.dom().contains(k) <==> m.dom().contains(k) by {
            if has_name(t, k) {
                let j = choose|j: int| 0 <= j < t.len() && #[trigger] t[j].0@ == k;
                if j < p {
                    assert(s[j].0@ == k);
                    assert(text_before(s[j].0@, s[p].0@));
                    lemma_text_order(k, k, k);
                } else {
                    assert(s[j + 1].0@ == k);
                    assert(text_before(s[p].0@, s[j + 1].0@));
                    lemma_text_order(k, k, k);
                }
            }
            if has_name(s, k) && k != k0 {
                let j = choose|j: int| 0 <= j < s.len() && #[trigger] s[j].0@ == k;
                if j < p {
                    assert(t[j].0@ == k);
                } else {
                    assert(j != p);
                    assert(t[j - 1].0@ == k);
                }
            }
        }
        assert forall|k: Seq<char>| #[trigger] self@.dom().contains(k) implies self@[k] == m[k] by {
            let j = choose|j: int| 0 <= j < t.len() && #[trigger] t[j].0@ == k;
            lemma_entry_at(t, j);
            assert(m.dom().contains(k));
            assert(k != k0);
            if j < p {
                assert(t[j] == s[j]);
                lemma_entry_at(s, j);
            } else {
                assert(t[j] == s[j + 1]);
                lemma_entry_at(s, j + 1);
            }
        }
        assert(self@ =~= m);
    }

    /// The entry at position `i` in name order.
    pub fn entry(&self, i: usize) -> (r: &(String, V))
        requires
            i < self.seq().len(),
        ensures
            *r == self.seq()[i as int],
    {
        &self.entries[i]
    }
}

} // verus!
