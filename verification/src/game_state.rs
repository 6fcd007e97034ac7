//! The game-state store: last-known position and metadata for every
//! player the relay has seen, keyed by the player identifier.
//!
//! Both tables are kept as association vectors with pairwise-distinct
//! keys; their mathematical model is a pair of finite maps from the
//! identifier's character sequence to the stored value.

use vstd::prelude::*;

use crate::assoc::assoc_distinct;
use crate::assoc::assoc_map;
use crate::assoc::lemma_assoc_map_absent;
use crate::assoc::lemma_assoc_map_index;
use crate::assoc::lemma_assoc_map_push;
use crate::assoc::lemma_assoc_map_remove;
use crate::assoc::lemma_assoc_map_update;

verus! {

/// A point on the shared playing field.
#[derive(Clone, Copy, PartialEq, Eq, Structural, Debug)]
pub struct Position {
    pub x: i32,
    pub y: i32,
}

/// Everything the relay retains about one player. `online` is flipped
/// rather than the record being deleted when the player's connection
/// drops, so that a later rejoin under the same name can restore state.
pub struct PlayerInfo {
    pub name: String,
    pub color: String,
    pub position: Position,
    pub online: bool,
}

/// Mathematical image of a `PlayerInfo`.
pub ghost struct PlayerInfoV {
    pub name: Seq<char>,
    pub color: Seq<char>,
    pub position: Position,
    pub online: bool,
}

impl View for PlayerInfo {
    type V = PlayerInfoV;

    open spec fn view(&self) -> PlayerInfoV {
        PlayerInfoV {
            name: self.name@,
            color: self.color@,
            position: self.position,
            online: self.online,
        }
    }
}

impl Clone for PlayerInfo {
    fn clone(&self) -> (r: Self)
        ensures
            r@ == self@,
    {
        PlayerInfo {
            name: self.name.clone(),
            color: self.color.clone(),
            position: self.position,
            online: self.online,
        }
    }
}

impl PlayerInfoV {
    /// A freshly created record: online, at the given position.
    pub open spec fn new_online(name: Seq<char>, color: Seq<char>, position: Position) -> PlayerInfoV {
        PlayerInfoV { name, color, position, online: true }
    }

    /// The same record moved to a (possibly) new position.
    pub open spec fn with_position(self, position: Position) -> PlayerInfoV {
        PlayerInfoV { position, ..self }
    }

    /// The same record with its online flag set as given.
    pub open spec fn with_online(self, online: bool) -> PlayerInfoV {
        PlayerInfoV { online, ..self }
    }
}

/// The position table as an association sequence over character keys.
pub open spec fn positions_kv(s: Seq<(String, Position)>) -> Seq<(Seq<char>, Position)> {
    s.map_values(|p: (String, Position)| (p.0@, p.1))
}

/// The info table as an association sequence over character keys.
pub open spec fn infos_kv(s: Seq<(String, PlayerInfo)>) -> Seq<(Seq<char>, PlayerInfoV)> {
    s.map_values(|p: (String, PlayerInfo)| (p.0@, p.1@))
}

/// The store proper: one association vector per table.
pub struct GameState {
    positions: Vec<(String, Position)>,
    infos: Vec<(String, PlayerInfo)>,
}

/// Mathematical image of the store: the two tables as finite maps.
pub ghost struct GameStateV {
    pub positions: Map<Seq<char>, Position>,
    pub infos: Map<Seq<char>, PlayerInfoV>,
}

impl View for GameState {
    type V = GameStateV;

    open spec fn view(&self) -> GameStateV {
        GameStateV { positions: assoc_map(self.positions_seq()), infos: assoc_map(self.infos_seq()) }
    }
}

impl GameState {
    /// The position table as an association sequence, in its snapshot
    /// (insertion) order.
    pub closed spec fn positions_seq(&self) -> Seq<(Seq<char>, Position)> {
        positions_kv(self.positions@)
    }

    /// The info table as an association sequence, in its snapshot
    /// (insertion) order.
    pub closed spec fn infos_seq(&self) -> Seq<(Seq<char>, PlayerInfoV)> {
        infos_kv(self.infos@)
    }

    /// Both tables hold pairwise-distinct keys.
    pub open spec fn wf(&self) -> bool {
        assoc_distinct(self.positions_seq()) && assoc_distinct(self.infos_seq())
    }

    pub fn new() -> (s: GameState)
        ensures
            s.wf(),
            s@.positions == Map::<Seq<char>, Position>::empty(),
            s@.infos == Map::<Seq<char>, PlayerInfoV>::empty(),
            s.positions_seq() == Seq::<(Seq<char>, Position)>::empty(),
            s.infos_seq() == Seq::<(Seq<char>, PlayerInfoV)>::empty(),
    {
        let s = GameState { positions: Vec::new(), infos: Vec::new() };
        proof {
            assert(s.positions_seq() =~= Seq::<(Seq<char>, Position)>::empty());
            assert(s.infos_seq() =~= Seq::<(Seq<char>, PlayerInfoV)>::empty());
        }
        s
    }

    /// Index of the entry for `key` in the position table, if any.
    fn find_position_index(&self, key: &str) -> (r: Option<usize>)
        ensures
            match r {
                Some(i) => i < self.positions_seq().len() && self.positions_seq()[i as int].0
                    == key@,
                None => forall|j: int|
                    0 <= j < self.positions_seq().len() ==> self.positions_seq()[j].0 != key@,
            },
    {
        let n = self.positions.len();
        let mut i: usize = 0;
        while i < n
            invariant
                n == self.positions@.len(),
                i <= n,
                forall|j: int| 0 <= j < i ==> self.positions_seq()[j].0 != key@,
            decreases n - i,
        {
            if *self.positions[i].0.as_str() == *key {
                return Some(i);
            }
            i += 1;
        }
        None
    }

    /// Index of the entry for `key` in the info table, if any.
    fn find_info_index(&self, key: &str) -> (r: Option<usize>)
        ensures
            match r {
                Some(i) => i < self.infos_seq().len() && self.infos_seq()[i as int].0 == key@,
                None => forall|j: int|
                    0 <= j < self.infos_seq().len() ==> self.infos_seq()[j].0 != key@,
            },
    {
        let n = self.infos.len();
        let mut i: usize = 0;
        while i < n
            invariant
                n == self.infos@.len(),
                i <= n,
                forall|j: int| 0 <= j < i ==> self.infos_seq()[j].0 != key@,
            decreases n - i,
        {
            if *self.infos[i].0.as_str() == *key {
                return Some(i);
            }
            i += 1;
        }
        None
    }

    /// Unconditionally records the player's last-known position; if the
    /// player also has an info record, the position is mirrored there.
    pub fn update_player_position(&mut self, player_id: String, position: Position)
        requires
            old(self).wf(),
        ensures
            final(self).wf(),
            final(self)@.positions == old(self)@.positions.insert(player_id@, position),
            old(self)@.infos.dom().contains(player_id@) ==> final(self)@.infos == old(
                self,
            )@.infos.insert(player_id@, old(self)@.infos[player_id@].with_position(position)),
            !old(self)@.infos.dom().contains(player_id@) ==> final(self)@.infos == old(
                self,
            )@.infos,
    {
        let ghost pid = player_id@;
        let idx_pos = self.find_position_index(player_id.as_str());
        let idx_info = self.find_info_index(player_id.as_str());
        let ghost p0 = self.positions_seq();
        let ghost i0 = self.infos_seq();
        match idx_info {
            Some(i) => {
                self.infos[i].1.position = position;
                proof {
                    assert(self.infos_seq() =~= i0.update(
                        i as int,
                        (i0[i as int].0, i0[i as int].1.with_position(position)),
                    ));
                    lemma_assoc_map_update(i0, i as int, i0[i as int].1.with_position(position));
                    assert(assoc_distinct(self.infos_seq()));
                    lemma_assoc_map_index(i0, i as int);
                }
            },
            None => {
                proof {
                    lemma_assoc_map_absent(i0, pid);
                }
            },
        }
        match idx_pos {
            Some(i) => {
                self.positions[i] = (player_id, position);
                proof {
                    assert(self.positions_seq() =~= p0.update(i as int, (p0[i as int].0, position)));
                    lemma_assoc_map_update(p0, i as int, position);
                    assert(assoc_distinct(self.positions_seq()));
                }
            },
            None => {
                proof {
                    lemma_assoc_map_absent(p0, pid);
                }
                self.positions.push((player_id, position));
                proof {
                    assert(self.positions_seq() =~= p0.push((pid, position)));
                    lemma_assoc_map_push(p0, pid, position);
                    assert(assoc_distinct(self.positions_seq()));
                }
            },
        }
    }

    /// Creates (or overwrites) the record for a freshly joined player:
    /// online, at the given position, in both tables.
    pub fn add_player_info(&mut self, player_id: String, name: String, color: String, position: Position)
        requires
            old(self).wf(),
        ensures
            final(self).wf(),
            final(self)@.infos == old(self)@.infos.insert(
                player_id@,
                PlayerInfoV::new_online(name@, color@, position),
            ),
            final(self)@.positions == old(self)@.positions.insert(player_id@, position),
    {
        let ghost pid = player_id@;
        let ghost rec = PlayerInfoV::new_online(name@, color@, position);
        let idx_pos = self.find_position_index(player_id.as_str());
        let idx_info = self.find_info_index(player_id.as_str());
        let ghost p0 = self.positions_seq();
        let ghost i0 = self.infos_seq();
        let info = PlayerInfo { name, color, position, online: true };
        match idx_info {
            Some(i) => {
                self.infos[i] = (player_id.clone(), info);
                proof {
                    assert(self.infos_seq() =~= i0.update(i as int, (i0[i as int].0, rec)));
                    lemma_assoc_map_update(i0, i as int, rec);
                    assert(assoc_distinct(self.infos_seq()));
                }
            },
            None => {
                self.infos.push((player_id.clone(), info));
                proof {
                    assert(self.infos_seq() =~= i0.push((pid, rec)));
                    lemma_assoc_map_push(i0, pid, rec);
                    assert(assoc_distinct(self.infos_seq()));
                }
            },
        }
        match idx_pos {
            Some(i) => {
                self.positions[i] = (player_id, position);
                proof {
                    assert(self.positions_seq() =~= p0.update(i as int, (p0[i as int].0, position)));
                    lemma_assoc_map_update(p0, i as int, position);
                    assert(assoc_distinct(self.positions_seq()));
                }
            },
            None => {
                self.positions.push((player_id, position));
                proof {
                    assert(self.positions_seq() =~= p0.push((pid, position)));
                    lemma_assoc_map_push(p0, pid, position);
                    assert(assoc_distinct(self.positions_seq()));
                }
            },
        }
    }

    /// Flips the player's online flag to false; a no-op when the player
    /// is unknown.
    pub fn set_player_offline(&mut self, player_id: &str)
        requires
            old(self).wf(),
        ensures
            final(self).wf(),
            final(self)@.positions == old(self)@.positions,
            old(self)@.infos.dom().contains(player_id@) ==> final(self)@.infos == old(
                self,
            )@.infos.insert(player_id@, old(self)@.infos[player_id@].with_online(false)),
            !old(self)@.infos.dom().contains(player_id@) ==> final(self)@.infos == old(
                self,
            )@.infos,
    {
        let idx = self.find_info_index(player_id);
        let ghost i0 = self.infos_seq();
        match idx {
            Some(i) => {
                self.infos[i].1.online = false;
                proof {
                    assert(self.infos_seq() =~= i0.update(
                        i as int,
                        (i0[i as int].0, i0[i as int].1.with_online(false)),
                    ));
                    lemma_assoc_map_update(i0, i as int, i0[i as int].1.with_online(false));
                    assert(assoc_distinct(self.infos_seq()));
                    lemma_assoc_map_index(i0, i as int);
                }
            },
            None => {
                proof {
                    lemma_assoc_map_absent(i0, player_id@);
                }
            },
        }
    }

    /// The identifier of the first player (in table order) whose display
    /// name matches; ties on the name go to the earliest-created record.
    pub fn find_player_by_name(&self, name: &str) -> (r: Option<&String>)
        ensures
            match r {
                Some(id) => find_by_name_at(self.infos_seq(), name@) matches Some(i) && id@
                    == self.infos_seq()[i].0,
                None => find_by_name_at(self.infos_seq(), name@) is None,
            },
    {
        let n = self.infos.len();
        let mut i: usize = 0;
        while i < n
            invariant
                n == self.infos@.len(),
                i <= n,
                forall|j: int| 0 <= j < i ==> self.infos_seq()[j].1.name != name@,
            decreases n - i,
        {
            if *self.infos[i].1.name.as_str() == *name {
                proof {
                    lemma_find_by_name_at(self.infos_seq(), name@);
                    match find_by_name_at(self.infos_seq(), name@) {
                        Some(fi) => {
                            if fi < i as int {
                                assert(self.infos_seq()[fi].1.name != name@);
                                assert(false);
                            }
                            if fi > i as int {
                                assert(self.infos_seq()[i as int].1.name != name@);
                                assert(false);
                            }
                        },
                        None => {
                            assert(self.infos_seq()[i as int].1.name != name@);
                            assert(false);
                        },
                    }
                }
                return Some(&self.infos[i].0);
            }
            i += 1;
        }
        proof {
            lemma_find_by_name_at(self.infos_seq(), name@);
        }
        None
    }

    /// Migrates a player's record from one identifier to another: the
    /// source entries are deleted, the destination is (re)created online
    /// with the carried-over metadata and position. A no-op when the old
    /// identifier is unknown.
    pub fn update_player_id(&mut self, old_player_id: &str, new_player_id: String)
        requires
            old(self).wf(),
        ensures
            final(self).wf(),
            !old(self)@.infos.dom().contains(old_player_id@) ==> final(self)@.infos == old(
                self,
            )@.infos && final(self)@.positions == old(self)@.positions,
            old(self)@.infos.dom().contains(old_player_id@) ==> final(self)@.infos == old(
                self,
            )@.infos.remove(old_player_id@).insert(
                new_player_id@,
                old(self)@.infos[old_player_id@].with_online(true),
            ),
            old(self)@.infos.dom().contains(old_player_id@) && old(self)@.positions.dom().contains(
                old_player_id@,
            ) ==> final(self)@.positions == old(self)@.positions.remove(old_player_id@).insert(
                new_player_id@,
                old(self)@.positions[old_player_id@],
            ),
            old(self)@.infos.dom().contains(old_player_id@) && !old(
                self,
            )@.positions.dom().contains(old_player_id@) ==> final(self)@.positions == old(
                self,
            )@.positions,
    {
        let ghost newid = new_player_id@;
        let idx = self.find_info_index(old_player_id);
        let ghost i0 = self.infos_seq();
        let ghost p0 = self.positions_seq();
        match idx {
            Some(i) => {
                proof {
                    lemma_assoc_map_index(i0, i as int);
                }
                let entry = self.infos.remove(i);
                let mut info = entry.1;
                info.online = true;
                proof {
                    assert(self.infos_seq() =~= i0.remove(i as int));
                    lemma_assoc_map_remove(i0, i as int);
                    assert(info@ == i0[i as int].1.with_online(true));
                }
                let ghost i1 = self.infos_seq();
                let idx2 = self.find_info_index(new_player_id.as_str());
                match idx2 {
                    Some(j) => {
                        self.infos[j] = (new_player_id.clone(), info);
                        proof {
                            assert(self.infos_seq() =~= i1.update(
                                j as int,
                                (i1[j as int].0, i0[i as int].1.with_online(true)),
                            ));
                            lemma_assoc_map_update(i1, j as int, i0[i as int].1.with_online(true));
                            assert(assoc_distinct(self.infos_seq()));
                        }
                    },
                    None => {
                        self.infos.push((new_player_id.clone(), info));
                        proof {
                            assert(self.infos_seq() =~= i1.push(
                                (newid, i0[i as int].1.with_online(true)),
                            ));
                            lemma_assoc_map_push(i1, newid, i0[i as int].1.with_online(true));
                            assert(assoc_distinct(self.infos_seq()));
                        }
                    },
                }
                let idxp = self.find_position_index(old_player_id);
                match idxp {
                    Some(p) => {
                        proof {
                            lemma_assoc_map_index(p0, p as int);
                        }
                        let pe = self.positions.remove(p);
                        proof {
                            assert(self.positions_seq() =~= p0.remove(p as int));
                            lemma_assoc_map_remove(p0, p as int);
                        }
                        let ghost p1 = self.positions_seq();
                        let idxq = self.find_position_index(new_player_id.as_str());
                        match idxq {
                            Some(q) => {
                                self.positions[q] = (new_player_id, pe.1);
                                proof {
                                    assert(self.positions_seq() =~= p1.update(
                                        q as int,
                                        (p1[q as int].0, p0[p as int].1),
                                    ));
                                    lemma_assoc_map_update(p1, q as int, p0[p as int].1);
                                    assert(assoc_distinct(self.positions_seq()));
                                }
                            },
                            None => {
                                self.positions.push((new_player_id, pe.1));
                                proof {
                                    assert(self.positions_seq() =~= p1.push(
                                        (newid, p0[p as int].1),
                                    ));
                                    lemma_assoc_map_push(p1, newid, p0[p as int].1);
                                    assert(assoc_distinct(self.positions_seq()));
                                }
                            },
                        }
                    },
                    None => {
                        proof {
                            assert(self.positions_seq() == p0);
                            lemma_assoc_map_absent(p0, old_player_id@);
                        }
                    },
                }
            },
            None => {
                proof {
                    lemma_assoc_map_absent(i0, old_player_id@);
                }
            },
        }
    }

    /// Deletes the player from both tables.
    pub fn remove_player(&mut self, player_id: &str)
        requires
            old(self).wf(),
        ensures
            final(self).wf(),
            final(self)@.positions == old(self)@.positions.remove(player_id@),
            final(self)@.infos == old(self)@.infos.remove(player_id@),
    {
        let ghost p0 = self.positions_seq();
        let ghost i0 = self.infos_seq();
        let idxp = self.find_position_index(player_id);
        match idxp {
            Some(p) => {
                proof {
                    lemma_assoc_map_index(p0, p as int);
                }
                self.positions.remove(p);
                proof {
                    assert(self.positions_seq() =~= p0.remove(p as int));
                    lemma_assoc_map_remove(p0, p as int);
                }
            },
            None => {
                proof {
                    lemma_assoc_map_absent(p0, player_id@);
                    assert(assoc_map(p0).remove(player_id@) =~= assoc_map(p0));
                }
            },
        }
        let idxi = self.find_info_index(player_id);
        match idxi {
            Some(i) => {
                proof {
                    lemma_assoc_map_index(i0, i as int);
                }
                self.infos.remove(i);
                proof {
                    assert(self.infos_seq() =~= i0.remove(i as int));
                    lemma_assoc_map_remove(i0, i as int);
                }
            },
            None => {
                proof {
                    assert(self.infos_seq() == i0);
                    lemma_assoc_map_absent(i0, player_id@);
                    assert(assoc_map(i0).remove(player_id@) =~= assoc_map(i0));
                }
            },
        }
    }

    /// The last-known position of the player, if any.
    pub fn get_player_position(&self, player_id: &str) -> (r: Option<&Position>)
        requires
            self.wf(),
        ensures
            match r {
                Some(p) => self@.positions.dom().contains(player_id@) && *p
                    == self@.positions[player_id@],
                None => !self@.positions.dom().contains(player_id@),
            },
    {
        let idx = self.find_position_index(player_id);
        match idx {
            Some(i) => {
                proof {
                    lemma_assoc_map_index(self.positions_seq(), i as int);
                }
                Some(&self.positions[i].1)
            },
            None => {
                proof {
                    lemma_assoc_map_absent(self.positions_seq(), player_id@);
                }
                None
            },
        }
    }

    /// A borrowed snapshot of the whole position table.
    pub fn get_all_positions(&self) -> (r: &Vec<(String, Position)>)
        ensures
            positions_kv(r@) == self.positions_seq(),
    {
        &self.positions
    }

    /// A borrowed snapshot of the whole info table.
    pub fn get_all_player_info(&self) -> (r: &Vec<(String, PlayerInfo)>)
        ensures
            infos_kv(r@) == self.infos_seq(),
    {
        &self.infos
    }

    /// An owned copy of the info table restricted to players that are
    /// currently online, in table order.
    pub fn get_online_players(&self) -> (r: Vec<(String, PlayerInfo)>)
        ensures
            infos_kv(r@) == self.infos_seq().filter(|p: (Seq<char>, PlayerInfoV)| p.1.online),
    {
        let mut r: Vec<(String, PlayerInfo)> = Vec::new();
        let n = self.infos.len();
        let mut i: usize = 0;
        proof {
            assert(self.infos_seq().take(0) =~= Seq::<(Seq<char>, PlayerInfoV)>::empty());
            assert(infos_kv(r@) =~= Seq::<(Seq<char>, PlayerInfoV)>::empty());
            reveal_with_fuel(Seq::filter, 1);
        }
        while i < n
            invariant
                n == self.infos@.len(),
                i <= n,
                infos_kv(r@) == self.infos_seq().take(i as int).filter(
                    |p: (Seq<char>, PlayerInfoV)| p.1.online,
                ),
            decreases n - i,
        {
            let ghost taken = self.infos_seq().take(i as int);
            if self.infos[i].1.online {
                r.push((self.infos[i].0.clone(), self.infos[i].1.clone()));
            }
            proof {
                let next = self.infos_seq().take(i + 1);
                assert(next =~= taken.push(self.infos_seq()[i as int]));
                taken.lemma_filter_push(
                    self.infos_seq()[i as int],
                    |p: (Seq<char>, PlayerInfoV)| p.1.online,
                );
                if self.infos@[i as int].1.online {
                    assert(infos_kv(r@) =~= taken.filter(
                        |p: (Seq<char>, PlayerInfoV)| p.1.online,
                    ).push(self.infos_seq()[i as int]));
                }
            }
            i += 1;
        }
        proof {
            assert(self.infos_seq().take(n as int) =~= self.infos_seq());
        }
        r
    }
}

/// Index of the first entry in the info table whose display name is
/// `name`, if any.
pub open spec fn find_by_name_at(s: Seq<(Seq<char>, PlayerInfoV)>, name: Seq<char>) -> Option<int>
    decreases s.len(),
{
    if s.len() == 0 {
        None
    } else if s[0].1.name == name {
        Some(0 as int)
    } else {
        match find_by_name_at(s.drop_first(), name) {
            Some(i) => Some(i + 1),
            None => None,
        }
    }
}

/// What `find_by_name_at` yields: the first matching index, or a proof
/// that no entry matches.
pub proof fn lemma_find_by_name_at(s: Seq<(Seq<char>, PlayerInfoV)>, name: Seq<char>)
    ensures
        match find_by_name_at(s, name) {
            Some(i) => 0 <= i < s.len() && s[i].1.name == name && forall|j: int|
                0 <= j < i ==> s[j].1.name != name,
            None => forall|j: int| 0 <= j < s.len() ==> s[j].1.name != name,
        },
    decreases s.len(),
{
    if s.len() > 0 && s[0].1.name != name {
        lemma_find_by_name_at(s.drop_first(), name);
        let t = s.drop_first();
        match find_by_name_at(t, name) {
            Some(i) => {
                assert(t[i] == s[i + 1]);
                assert forall|j: int| 0 <= j < i + 1 implies s[j].1.name != name by {
                    if j > 0 {
                        assert(t[j - 1] == s[j]);
                    }
                }
            },
            None => {
                assert forall|j: int| 0 <= j < s.len() implies s[j].1.name != name by {
                    if j > 0 {
                        assert(t[j - 1] == s[j]);
                    }
                }
            },
        }
    }
}

} // verus!
