//! The connection registry: the set of connections that may currently
//! be sent to, in registration order. The registry decides membership
//! and broadcast recipients; the embedding application owns the actual
//! send handles, keyed by the same identifiers, performs the sends and
//! reports back which of them failed.

use vstd::prelude::*;

verus! {

/// The identifiers as character sequences, in registration order.
pub open spec fn ids_of(s: Seq<String>) -> Seq<Seq<char>> {
    s.map_values(|c: String| c@)
}

/// Pairwise-distinct identifiers.
pub open spec fn ids_distinct(s: Seq<Seq<char>>) -> bool {
    forall|i: int, j: int| 0 <= i < j < s.len() ==> s[i] != s[j]
}

/// Removing one element of a duplicate-free sequence: what stays and
/// what goes.
pub proof fn lemma_ids_remove(s: Seq<Seq<char>>, i: int)
    requires
        ids_distinct(s),
        0 <= i < s.len(),
    ensures
        ids_distinct(s.remove(i)),
        !s.remove(i).contains(s[i]),
        forall|c: Seq<char>| c != s[i] ==> (s.remove(i).contains(c) <==> s.contains(c)),
{
    let t = s.remove(i);
    assert forall|a: int, b: int| 0 <= a < b < t.len() implies t[a] != t[b] by {
        if b < i {
            assert(t[a] == s[a] && t[b] == s[b]);
        } else if a < i {
            assert(t[a] == s[a] && t[b] == s[b + 1]);
        } else {
            assert(t[a] == s[a + 1] && t[b] == s[b + 1]);
        }
    }
    assert forall|j: int| 0 <= j < t.len() implies t[j] != s[i] by {
        if j < i {
            assert(t[j] == s[j]);
        } else {
            assert(t[j] == s[j + 1]);
        }
    }
    if t.contains(s[i]) {
        let j = choose|j: int| 0 <= j < t.len() && t[j] == s[i];
        assert(false);
    }
    assert forall|c: Seq<char>| c != s[i] implies (t.contains(c) <==> s.contains(c)) by {
        if t.contains(c) {
            let j = choose|j: int| 0 <= j < t.len() && t[j] == c;
            if j < i {
                assert(s[j] == c);
            } else {
                assert(s[j + 1] == c);
            }
        }
        if s.contains(c) {
            let j = choose|j: int| 0 <= j < s.len() && s[j] == c;
            if j < i {
                assert(t[j] == c);
            } else if j > i {
                assert(t[j - 1] == c);
            }
        }
    }
}

/// Relies on `uuid`'s version-4 generator and its hyphenated
/// `to_string` rendering: a freshly drawn random identifier, printed as
/// 36 characters. Nothing further can be promised of a random value.
#[verifier::external_body]
fn fresh_connection_id() -> (r: String)
    ensures
        r@.len() == 36,
{
    uuid::Uuid::new_v4().to_string()
}

/// Whether `c` occurs among the first `k` entries of `failed`.
pub open spec fn among_first(failed: Seq<String>, k: int, c: Seq<char>) -> bool {
    exists|j: int| 0 <= j < k && ids_of(failed)[j] == c
}

/// The registry proper: connection identifiers in registration order.
pub struct Registry {
    conns: Vec<String>,
}

impl View for Registry {
    type V = Seq<Seq<char>>;

    closed spec fn view(&self) -> Seq<Seq<char>> {
        ids_of(self.conns@)
    }
}

impl Registry {
    /// No identifier is registered twice.
    pub open spec fn wf(&self) -> bool {
        ids_distinct(self@)
    }

    pub fn new() -> (r: Registry)
        ensures
            r.wf(),
            r@ == Seq::<Seq<char>>::empty(),
    {
        let r = Registry { conns: Vec::new() };
        proof {
            assert(r@ =~= Seq::<Seq<char>>::empty());
        }
        r
    }

    /// Index of the identifier, if registered.
    fn find_index(&self, key: &str) -> (r: Option<usize>)
        ensures
            match r {
                Some(i) => i < self@.len() && self@[i as int] == key@,
                None => forall|j: int| 0 <= j < self@.len() ==> self@[j] != key@,
            },
    {
        let n = self.conns.len();
        let mut i: usize = 0;
        while i < n
            invariant
                n == self.conns@.len(),
                i <= n,
                forall|j: int| 0 <= j < i ==> self@[j] != key@,
            decreases n - i,
        {
            if *self.conns[i].as_str() == *key {
                return Some(i);
            }
            i += 1;
        }
        None
    }

    /// Whether the identifier is currently registered.
    pub fn contains(&self, conn_id: &str) -> (r: bool)
        ensures
            r == self@.contains(conn_id@),
    {
        let idx = self.find_index(conn_id);
        match idx {
            Some(i) => {
                proof {
                    assert(self@.contains(conn_id@)) by {
                        assert(self@[i as int] == conn_id@);
                    }
                }
                true
            },
            None => {
                proof {
                    if self@.contains(conn_id@) {
                        let j = choose|j: int| 0 <= j < self@.len() && self@[j] == conn_id@;
                        assert(false);
                    }
                }
                false
            },
        }
    }

    /// How many connections are registered.
    pub fn count(&self) -> (r: usize)
        ensures
            r == self@.len(),
    {
        self.conns.len()
    }

    /// Adds the identifier; a no-op when it is already registered.
    pub fn register(&mut self, conn_id: String)
        requires
            old(self).wf(),
        ensures
            final(self).wf(),
            old(self)@.contains(conn_id@) ==> final(self)@ == old(self)@,
            !old(self)@.contains(conn_id@) ==> final(self)@ == old(self)@.push(conn_id@),
            final(self)@.contains(conn_id@),
    {
        let ghost cid = conn_id@;
        let ghost s0 = self@;
        let idx = self.find_index(conn_id.as_str());
        match idx {
            Some(i) => {
                proof {
                    assert(s0.contains(cid)) by {
                        assert(s0[i as int] == cid);
                    }
                }
            },
            None => {
                self.conns.push(conn_id);
                proof {
                    assert(self@ =~= s0.push(cid));
                    if s0.contains(cid) {
                        let j = choose|j: int| 0 <= j < s0.len() && s0[j] == cid;
                        assert(false);
                    }
                    assert(ids_distinct(self@));
                    assert(self@[s0.len() as int] == cid);
                }
            },
        }
    }

    /// Draws a fresh random identifier, registers it and hands it back.
    pub fn register_fresh(&mut self) -> (r: String)
        requires
            old(self).wf(),
        ensures
            final(self).wf(),
            old(self)@.contains(r@) ==> final(self)@ == old(self)@,
            !old(self)@.contains(r@) ==> final(self)@ == old(self)@.push(r@),
            final(self)@.contains(r@),
    {
        let id = fresh_connection_id();
        self.register(id.clone());
        id
    }

    /// Removes the identifier; a no-op when it is not registered.
    pub fn deregister(&mut self, conn_id: &str)
        requires
            old(self).wf(),
        ensures
            final(self).wf(),
            !final(self)@.contains(conn_id@),
            forall|c: Seq<char>|
                c != conn_id@ ==> (final(self)@.contains(c) <==> old(self)@.contains(c)),
            old(self)@.contains(conn_id@) ==> final(self)@.len() == old(self)@.len() - 1,
            !old(self)@.contains(conn_id@) ==> final(self)@ == old(self)@,
    {
        let ghost s0 = self@;
        let idx = self.find_index(conn_id);
        match idx {
            Some(i) => {
                proof {
                    assert(s0.contains(conn_id@)) by {
                        assert(s0[i as int] == conn_id@);
                    }
                }
                self.conns.remove(i);
                proof {
                    assert(self@ =~= s0.remove(i as int));
                    lemma_ids_remove(s0, i as int);
                }
            },
            None => {
                proof {
                    if s0.contains(conn_id@) {
                        let j = choose|j: int| 0 <= j < s0.len() && s0[j] == conn_id@;
                        assert(false);
                    }
                }
            },
        }
    }

    /// A snapshot of every registered connection other than the sender:
    /// the recipients of one broadcast.
    pub fn recipients_except(&self, sender_id: &str) -> (r: Vec<String>)
        requires
            self.wf(),
        ensures
            ids_distinct(ids_of(r@)),
            forall|c: Seq<char>|
                ids_of(r@).contains(c) <==> (self@.contains(c) && c != sender_id@),
            self@.contains(sender_id@) ==> r@.len() == self@.len() - 1,
            !self@.contains(sender_id@) ==> r@.len() == self@.len(),
    {
        let n = self.conns.len();
        let mut r: Vec<String> = Vec::new();
        let mut i: usize = 0;
        proof {
            assert(ids_of(r@) =~= Seq::<Seq<char>>::empty());
        }
        while i < n
            invariant
                n == self.conns@.len(),
                i <= n,
                self.wf(),
                ids_distinct(ids_of(r@)),
                forall|c: Seq<char>|
                    ids_of(r@).contains(c) <==> (exists|j: int|
                        0 <= j < i && self@[j] == c && c != sender_id@),
                (exists|j: int| 0 <= j < i && self@[j] == sender_id@) ==> r@.len() == i - 1,
                !(exists|j: int| 0 <= j < i && self@[j] == sender_id@) ==> r@.len() == i,
            decreases n - i,
        {
            let ghost r0 = ids_of(r@);
            let cur = &self.conns[i];
            if !(*cur.as_str() == *sender_id) {
                r.push(cur.clone());
                proof {
                    assert(ids_of(r@) =~= r0.push(self@[i as int]));
                    assert forall|c: Seq<char>| ids_of(r@).contains(c) implies (exists|j: int|
                        0 <= j < i + 1 && self@[j] == c && c != sender_id@) by {
                        let k = choose|k: int| 0 <= k < ids_of(r@).len() && ids_of(r@)[k] == c;
                        if k < r0.len() {
                            assert(r0[k] == c);
                            assert(r0.contains(c));
                        } else {
                            assert(self@[i as int] == c);
                        }
                    }
                    assert forall|c: Seq<char>| (exists|j: int|
                        0 <= j < i + 1 && self@[j] == c && c != sender_id@) implies ids_of(
                        r@,
                    ).contains(c) by {
                        let j = choose|j: int|
                            0 <= j < i + 1 && self@[j] == c && c != sender_id@;
                        if j < i {
                            assert(r0.contains(c));
                            let k = choose|k: int| 0 <= k < r0.len() && r0[k] == c;
                            assert(ids_of(r@)[k] == c);
                        } else {
                            assert(ids_of(r@)[r0.len() as int] == c);
                        }
                    }
                    assert(ids_distinct(ids_of(r@))) by {
                        if r0.contains(self@[i as int]) {
                            let j = choose|j: int|
                                0 <= j < i && self@[j] == self@[i as int] && self@[i as int]
                                    != sender_id@;
                            assert(false);
                        }
                        assert forall|a: int, b: int|
                            0 <= a < b < ids_of(r@).len() implies ids_of(r@)[a] != ids_of(
                            r@,
                        )[b] by {
                            if b < r0.len() {
                                assert(r0[a] == ids_of(r@)[a] && r0[b] == ids_of(r@)[b]);
                            } else {
                                assert(r0[a] == ids_of(r@)[a]);
                                assert(r0.contains(r0[a]));
                            }
                        }
                    }
                }
            } else {
                proof {
                    assert(self@[i as int] == sender_id@);
                    assert forall|c: Seq<char>| ids_of(r@).contains(c) implies (exists|j: int|
                        0 <= j < i + 1 && self@[j] == c && c != sender_id@) by {}
                    assert forall|c: Seq<char>| (exists|j: int|
                        0 <= j < i + 1 && self@[j] == c && c != sender_id@) implies ids_of(
                        r@,
                    ).contains(c) by {
                        let j = choose|j: int|
                            0 <= j < i + 1 && self@[j] == c && c != sender_id@;
                        assert(0 <= j < i && self@[j] == c && c != sender_id@);
                    }
                }
            }
            i += 1;
        }
        proof {
            assert forall|c: Seq<char>| (self@.contains(c) && c != sender_id@) implies (exists|
                j: int,
            | 0 <= j < n && self@[j] == c && c != sender_id@) by {
                let j = choose|j: int| 0 <= j < self@.len() && self@[j] == c;
            }
            if self@.contains(sender_id@) {
                let j = choose|j: int| 0 <= j < self@.len() && self@[j] == sender_id@;
            }
        }
        r
    }

    /// Removes every connection whose send failed during a broadcast:
    /// the deferred clean-up pass.
    pub fn apply_failures(&mut self, failed: &Vec<String>)
        requires
            old(self).wf(),
        ensures
            final(self).wf(),
            forall|c: Seq<char>|
                final(self)@.contains(c) <==> (old(self)@.contains(c) && !ids_of(
                    failed@,
                ).contains(c)),
    {
        let ghost s0 = self@;
        let n = failed.len();
        let mut i: usize = 0;
        while i < n
            invariant
                n == failed@.len(),
                self.wf(),
                i <= n,
                forall|c: Seq<char>|
                    self@.contains(c) <==> (s0.contains(c) && !among_first(failed@, i as int, c)),
            decreases n - i,
        {
            let ghost iprev = i as int;
            let ghost before = self@;
            self.deregister(failed[i].as_str());
            i += 1;
            proof {
                let fid = failed@[iprev]@;
                assert(ids_of(failed@)[iprev] == fid);
                assert(i as int == iprev + 1);
                assert forall|c: Seq<char>|
                    self@.contains(c) <==> (s0.contains(c) && !among_first(
                        failed@,
                        i as int,
                        c,
                    )) by {
                    if self@.contains(c) {
                        if c == fid {
                            assert(false);
                        }
                        assert(before.contains(c));
                        assert(s0.contains(c));
                        if among_first(failed@, i as int, c) {
                            let j = choose|j: int| 0 <= j < i as int && ids_of(failed@)[j] == c;
                            if j < iprev {
                                assert(among_first(failed@, iprev, c));
                                assert(false);
                            } else {
                                assert(c == fid);
                                assert(false);
                            }
                        }
                    }
                    if s0.contains(c) && !among_first(failed@, i as int, c) {
                        if c == fid {
                            assert(0 <= iprev < i as int && ids_of(failed@)[iprev] == c);
                            assert(among_first(failed@, i as int, c));
                            assert(false);
                        }
                        if among_first(failed@, iprev, c) {
                            let j = choose|j: int| 0 <= j < iprev && ids_of(failed@)[j] == c;
                            assert(0 <= j < i as int && ids_of(failed@)[j] == c);
                            assert(among_first(failed@, i as int, c));
                            assert(false);
                        }
                        assert(before.contains(c));
                        assert(self@.contains(c));
                    }
                }
            }
        }
        proof {
            assert forall|c: Seq<char>|
                ids_of(failed@).contains(c) == among_first(failed@, n as int, c) by {
                if ids_of(failed@).contains(c) {
                    let j = choose|j: int|
                        0 <= j < ids_of(failed@).len() && ids_of(failed@)[j] == c;
                    assert(among_first(failed@, n as int, c));
                }
                if among_first(failed@, n as int, c) {
                    let j = choose|j: int| 0 <= j < n && ids_of(failed@)[j] == c;
                    assert(ids_of(failed@).contains(c));
                }
            }
        }
    }
}

} // verus!
