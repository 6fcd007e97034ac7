//! The connection → player directory: which player identifier each
//! live connection most recently announced. Entries are created on the
//! first message that names a player and deleted when the connection
//! closes; many connections may name the same player over time, but at
//! any instant each connection names at most one.

use vstd::prelude::*;

use crate::assoc::assoc_distinct;
use crate::assoc::assoc_map;
use crate::assoc::lemma_assoc_map_absent;
use crate::assoc::lemma_assoc_map_index;
use crate::assoc::lemma_assoc_map_push;
use crate::assoc::lemma_assoc_map_remove;
use crate::assoc::lemma_assoc_map_update;

verus! {

/// The directory as an association sequence over character keys.
pub open spec fn conn_kv(s: Seq<(String, String)>) -> Seq<(Seq<char>, Seq<char>)> {
    s.map_values(|p: (String, String)| (p.0@, p.1@))
}

/// Maps each live connection identifier to the player identifier it
/// most recently announced.
pub struct ConnPlayerMap {
    entries: Vec<(String, String)>,
}

impl View for ConnPlayerMap {
    type V = Map<Seq<char>, Seq<char>>;

    open spec fn view(&self) -> Map<Seq<char>, Seq<char>> {
        assoc_map(self.entries_seq())
    }
}

impl ConnPlayerMap {
    /// The directory as an association sequence, in insertion order.
    pub closed spec fn entries_seq(&self) -> Seq<(Seq<char>, Seq<char>)> {
        conn_kv(self.entries@)
    }

    /// Pairwise-distinct connection identifiers.
    pub open spec fn wf(&self) -> bool {
        assoc_distinct(self.entries_seq())
    }

    pub fn new() -> (m: ConnPlayerMap)
        ensures
            m.wf(),
            m@ == Map::<Seq<char>, Seq<char>>::empty(),
    {
        let m = ConnPlayerMap { entries: Vec::new() };
        proof {
            assert(m.entries_seq() =~= Seq::<(Seq<char>, Seq<char>)>::empty());
        }
        m
    }

    /// Index of the entry for `key`, if any.
    fn find_index(&self, key: &str) -> (r: Option<usize>)
        ensures
            match r {
                Some(i) => i < self.entries_seq().len() && self.entries_seq()[i as int].0 == key@,
                None => forall|j: int|
                    0 <= j < self.entries_seq().len() ==> self.entries_seq()[j].0 != key@,
            },
    {
        let n = self.entries.len();
        let mut i: usize = 0;
        while i < n
            invariant
                n == self.entries@.len(),
                i <= n,
                forall|j: int| 0 <= j < i ==> self.entries_seq()[j].0 != key@,
            decreases n - i,
        {
            if *self.entries[i].0.as_str() == *key {
                return Some(i);
            }
            i += 1;
        }
        None
    }

    /// Records (or overwrites) which player this connection represents.
    pub fn insert(&mut self, client_id: String, player_id: String)
        requires
            old(self).wf(),
        ensures
            final(self).wf(),
            final(self)@ == old(self)@.insert(client_id@, player_id@),
    {
        let ghost cid = client_id@;
        let ghost pid = player_id@;
        let ghost e0 = self.entries_seq();
        let idx = self.find_index(client_id.as_str());
        match idx {
            Some(i) => {
                self.entries[i] = (client_id, player_id);
                proof {
                    assert(self.entries_seq() =~= e0.update(i as int, (e0[i as int].0, pid)));
                    lemma_assoc_map_update(e0, i as int, pid);
                    assert(assoc_distinct(self.entries_seq()));
                }
            },
            None => {
                self.entries.push((client_id, player_id));
                proof {
                    assert(self.entries_seq() =~= e0.push((cid, pid)));
                    lemma_assoc_map_push(e0, cid, pid);
                    assert(assoc_distinct(self.entries_seq()));
                }
            },
        }
    }

    /// Deletes the entry for this connection, returning the player
    /// identifier it named, if any.
    pub fn remove(&mut self, client_id: &str) -> (r: Option<String>)
        requires
            old(self).wf(),
        ensures
            final(self).wf(),
            final(self)@ == old(self)@.remove(client_id@),
            match r {
                Some(p) => old(self)@.dom().contains(client_id@) && p@ == old(self)@[client_id@],
                None => !old(self)@.dom().contains(client_id@),
            },
    {
        let ghost e0 = self.entries_seq();
        let idx = self.find_index(client_id);
        match idx {
            Some(i) => {
                proof {
                    lemma_assoc_map_index(e0, i as int);
                }
                let entry = self.entries.remove(i);
                proof {
                    assert(self.entries_seq() =~= e0.remove(i as int));
                    lemma_assoc_map_remove(e0, i as int);
                }
                Some(entry.1)
            },
            None => {
                proof {
                    lemma_assoc_map_absent(e0, client_id@);
                    assert(assoc_map(e0).remove(client_id@) =~= assoc_map(e0));
                }
                None
            },
        }
    }

    /// The player identifier this connection currently names, if any.
    pub fn get(&self, client_id: &str) -> (r: Option<&String>)
        requires
            self.wf(),
        ensures
            match r {
                Some(p) => self@.dom().contains(client_id@) && p@ == self@[client_id@],
                None => !self@.dom().contains(client_id@),
            },
    {
        let idx = self.find_index(client_id);
        match idx {
            Some(i) => {
                proof {
                    lemma_assoc_map_index(self.entries_seq(), i as int);
                }
                Some(&self.entries[i].1)
            },
            None => {
                proof {
                    lemma_assoc_map_absent(self.entries_seq(), client_id@);
                }
                None
            },
        }
    }
}

} // verus!
