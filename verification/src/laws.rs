//! Laws of the relay, stated and proved over the same mathematical
//! models that the executable functions' contracts use: what repeated
//! joins, rejoins, position upserts and broadcasts guarantee.

use vstd::prelude::*;

use crate::assoc::assoc_distinct;
use crate::assoc::assoc_map;
use crate::assoc::lemma_assoc_map_dom;
use crate::assoc::lemma_assoc_map_index;
use crate::game_state::find_by_name_at;
use crate::game_state::lemma_find_by_name_at;
use crate::game_state::GameStateV;
use crate::game_state::PlayerInfoV;
use crate::game_state::Position;
use crate::registry::ids_distinct;
use crate::router::origin;

verus! {

/// A name is unseen in an info table exactly when the first-match scan
/// finds nothing: the bridge between the scan the reconciler runs and
/// the map the contracts speak of.
pub proof fn lemma_find_none_iff_unseen(s: Seq<(Seq<char>, PlayerInfoV)>, name: Seq<char>)
    requires
        assoc_distinct(s),
    ensures
        find_by_name_at(s, name) is None <==> (forall|k: Seq<char>|
            assoc_map(s).dom().contains(k) ==> assoc_map(s)[k].name != name),
{
    lemma_find_by_name_at(s, name);
    lemma_assoc_map_dom(s);
    match find_by_name_at(s, name) {
        Some(i) => {
            lemma_assoc_map_index(s, i);
            assert(assoc_map(s).dom().contains(s[i].0) && assoc_map(s)[s[i].0].name == name);
        },
        None => {
            assert forall|k: Seq<char>| assoc_map(s).dom().contains(k) implies assoc_map(
                s,
            )[k].name != name by {
                let i = choose|i: int| 0 <= i < s.len() && s[i].0 == k;
                lemma_assoc_map_index(s, i);
            }
        },
    }
}

/// The info map after one fresh join: the record the reconciler creates
/// when the announced name is unseen.
pub open spec fn join_new(
    m: Map<Seq<char>, PlayerInfoV>,
    pid: Seq<char>,
    name: Seq<char>,
    color: Seq<char>,
) -> Map<Seq<char>, PlayerInfoV> {
    m.insert(pid, PlayerInfoV::new_online(name, color, origin()))
}

/// The info map after a whole sequence of fresh joins, applied in order.
pub open spec fn apply_joins(
    m: Map<Seq<char>, PlayerInfoV>,
    reqs: Seq<(Seq<char>, Seq<char>, Seq<char>)>,
) -> Map<Seq<char>, PlayerInfoV>
    decreases reqs.len(),
{
    if reqs.len() == 0 {
        m
    } else {
        join_new(
            apply_joins(m, reqs.drop_last()),
            reqs.last().0,
            reqs.last().1,
            reqs.last().2,
        )
    }
}

/// Every name in a joined-up table either came in with one of the join
/// requests or was already there.
pub proof fn lemma_apply_joins_names(
    m: Map<Seq<char>, PlayerInfoV>,
    reqs: Seq<(Seq<char>, Seq<char>, Seq<char>)>,
)
    ensures
        forall|k: Seq<char>| #[trigger]
            apply_joins(m, reqs).dom().contains(k) ==> ((exists|i: int|
                0 <= i < reqs.len() && apply_joins(m, reqs)[k].name == reqs[i].1) || (
            m.dom().contains(k) && apply_joins(m, reqs)[k].name == m[k].name)),
    decreases reqs.len(),
{
    if reqs.len() > 0 {
        lemma_apply_joins_names(m, reqs.drop_last());
        let prev = apply_joins(m, reqs.drop_last());
        let cur = apply_joins(m, reqs);
        assert forall|k: Seq<char>| #[trigger] cur.dom().contains(k) implies ((exists|i: int|
            0 <= i < reqs.len() && cur[k].name == reqs[i].1) || (m.dom().contains(k)
            && cur[k].name == m[k].name)) by {
            if k == reqs.last().0 {
                assert(cur[k].name == reqs[reqs.len() - 1].1);
            } else {
                assert(prev.dom().contains(k) && cur[k] == prev[k]);
                if exists|i: int| 0 <= i < reqs.drop_last().len() && prev[k].name == reqs.drop_last()[i].1 {
                    let i = choose|i: int|
                        0 <= i < reqs.drop_last().len() && prev[k].name == reqs.drop_last()[i].1;
                    assert(cur[k].name == reqs[i].1);
                }
            }
        }
    }
}

/// For any sequence of `player_join` requests with pairwise-distinct
/// names and identifiers, none of the names seen before: every join is
/// a fresh one (its name is still unseen when it is processed), and the
/// final table holds, for each request, an online record under exactly
/// the identifier that request supplied, carrying its name.
pub proof fn lemma_joins_distinct_names(
    m0: Map<Seq<char>, PlayerInfoV>,
    reqs: Seq<(Seq<char>, Seq<char>, Seq<char>)>,
)
    requires
        forall|i: int, j: int| 0 <= i < j < reqs.len() ==> reqs[i].1 != reqs[j].1,
        forall|i: int, j: int| 0 <= i < j < reqs.len() ==> reqs[i].0 != reqs[j].0,
        forall|i: int, k: Seq<char>| #![trigger m0.dom().contains(k), reqs[i]]
            0 <= i < reqs.len() && m0.dom().contains(k) ==> m0[k].name != reqs[i].1,
    ensures
        forall|i: int|
            0 <= i < reqs.len() ==> {
                let fin = apply_joins(m0, reqs);
                &&& fin.dom().contains(#[trigger] reqs[i].0)
                &&& fin[reqs[i].0].online
                &&& fin[reqs[i].0].name == reqs[i].1
            },
        forall|i: int, k: Seq<char>|
            0 <= i < reqs.len() && #[trigger] apply_joins(m0, reqs.take(i)).dom().contains(k)
                ==> apply_joins(m0, reqs.take(i))[k].name != reqs[i].1,
    decreases reqs.len(),
{
    if reqs.len() > 0 {
        let rs = reqs.drop_last();
        let r = reqs.last();
        lemma_joins_distinct_names(m0, rs);
        let prev = apply_joins(m0, rs);
        let fin = apply_joins(m0, reqs);
        assert forall|i: int| 0 <= i < reqs.len() implies {
            &&& fin.dom().contains(#[trigger] reqs[i].0)
            &&& fin[reqs[i].0].online
            &&& fin[reqs[i].0].name == reqs[i].1
        } by {
            if i < reqs.len() - 1 {
                assert(rs[i] == reqs[i]);
                assert(prev.dom().contains(reqs[i].0));
                assert(reqs[i].0 != r.0);
                assert(fin[reqs[i].0] == prev[reqs[i].0]);
            } else {
                assert(fin[r.0] == PlayerInfoV::new_online(r.1, r.2, origin()));
            }
        }
        assert forall|i: int, k: Seq<char>|
            0 <= i < reqs.len() && #[trigger] apply_joins(m0, reqs.take(i)).dom().contains(k)
            implies apply_joins(m0, reqs.take(i))[k].name != reqs[i].1 by {
            if i < reqs.len() - 1 {
                assert(reqs.take(i) =~= rs.take(i));
                assert(rs[i] == reqs[i]);
            } else {
                assert(reqs.take(i) =~= rs);
                lemma_apply_joins_names(m0, rs);
                if exists|j: int| 0 <= j < rs.len() && prev[k].name == rs[j].1 {
                    let j = choose|j: int| 0 <= j < rs.len() && prev[k].name == rs[j].1;
                    assert(reqs[j].1 != r.1);
                } else {
                    assert(m0.dom().contains(k) && prev[k].name == m0[k].name);
                }
            }
        }
    }
}

/// Rejoining under a previously used name with a new identifier
/// migrates state: afterwards the old identifier is absent from both
/// tables and the new identifier holds the prior position, online. The
/// two equations required here are exactly what the reconciler's
/// migration ensures.
pub proof fn lemma_rejoin_migrates(
    before: GameStateV,
    after: GameStateV,
    old_id: Seq<char>,
    new_id: Seq<char>,
)
    requires
        before.infos.dom().contains(old_id),
        before.positions.dom().contains(old_id),
        old_id != new_id,
        after.infos == before.infos.remove(old_id).insert(
            new_id,
            before.infos[old_id].with_online(true),
        ),
        after.positions == before.positions.remove(old_id).insert(
            new_id,
            before.positions[old_id],
        ),
    ensures
        !after.infos.dom().contains(old_id),
        !after.positions.dom().contains(old_id),
        after.infos[new_id].online,
        after.infos[new_id].position == before.infos[old_id].position,
        after.infos[new_id].name == before.infos[old_id].name,
        after.positions[new_id] == before.positions[old_id],
{
}

/// Upserting a position is exact and idempotent: the snapshot taken
/// afterwards maps the player to exactly that position, and applying
/// the same upsert twice yields the same tables as applying it once.
/// The insert formulas required here are what the store's position
/// upsert ensures.
pub proof fn lemma_upsert_exact_and_idempotent(s: GameStateV, pid: Seq<char>, pos: Position)
    ensures
        s.positions.insert(pid, pos)[pid] == pos,
        s.positions.insert(pid, pos).insert(pid, pos) == s.positions.insert(pid, pos),
        ({
            let i1 = if s.infos.dom().contains(pid) {
                s.infos.insert(pid, s.infos[pid].with_position(pos))
            } else {
                s.infos
            };
            let i2 = if i1.dom().contains(pid) {
                i1.insert(pid, i1[pid].with_position(pos))
            } else {
                i1
            };
            i2 == i1
        }),
{
    assert(s.positions.insert(pid, pos).insert(pid, pos) =~= s.positions.insert(pid, pos));
    let i1 = if s.infos.dom().contains(pid) {
        s.infos.insert(pid, s.infos[pid].with_position(pos))
    } else {
        s.infos
    };
    if i1.dom().contains(pid) {
        assert(i1[pid].with_position(pos) == i1[pid]);
        assert(i1.insert(pid, i1[pid].with_position(pos)) =~= i1);
    }
}

/// In a duplicate-free recipient list, exactly one failing recipient
/// costs exactly one delivery.
pub proof fn lemma_one_failure_count(recipients: Seq<Seq<char>>, bad: Seq<char>)
    requires
        ids_distinct(recipients),
        recipients.contains(bad),
    ensures
        recipients.filter(|c: Seq<char>| c != bad).len() == recipients.len() - 1,
    decreases recipients.len(),
{
    broadcast use Seq::lemma_filter_push;
    broadcast use Seq::lemma_filter_len_push;

    let pred = |c: Seq<char>| c != bad;
    let rest = recipients.drop_last();
    assert(recipients =~= rest.push(recipients.last()));
    if recipients.last() == bad {
        assert forall|j: int| 0 <= j < rest.len() implies rest[j] != bad by {
            assert(rest[j] == recipients[j]);
        }
        lemma_filter_keeps_all(rest, bad);
    } else {
        assert(ids_distinct(rest));
        assert(rest.contains(bad)) by {
            let j = choose|j: int| 0 <= j < recipients.len() && recipients[j] == bad;
            assert(rest[j] == bad);
        }
        lemma_one_failure_count(rest, bad);
    }
}

/// Filtering out an element that does not occur keeps everything.
pub proof fn lemma_filter_keeps_all(s: Seq<Seq<char>>, bad: Seq<char>)
    requires
        forall|j: int| 0 <= j < s.len() ==> s[j] != bad,
    ensures
        s.filter(|c: Seq<char>| c != bad).len() == s.len(),
    decreases s.len(),
{
    broadcast use Seq::lemma_filter_push;
    broadcast use Seq::lemma_filter_len_push;

    if s.len() > 0 {
        let rest = s.drop_last();
        assert(s =~= rest.push(s.last()));
        assert forall|j: int| 0 <= j < rest.len() implies rest[j] != bad by {
            assert(rest[j] == s[j]);
        }
        lemma_filter_keeps_all(rest, bad);
    }
}

/// Broadcasting to registered connections from a sender that is not
/// itself registered, with exactly one recipient whose send fails:
/// every member is a recipient, exactly `members.len() - 1` sends
/// succeed, and after the clean-up pass the failed connection is gone
/// while every other member is still registered. The premises are the
/// recipient-snapshot and clean-up contracts of the registry.
pub proof fn lemma_broadcast_one_failure(
    members: Seq<Seq<char>>,
    sender: Seq<char>,
    recipients: Seq<Seq<char>>,
    bad: Seq<char>,
    after: Seq<Seq<char>>,
)
    requires
        ids_distinct(members),
        !members.contains(sender),
        ids_distinct(recipients),
        forall|c: Seq<char>| recipients.contains(c) <==> (members.contains(c) && c != sender),
        recipients.len() == members.len(),
        recipients.contains(bad),
        forall|c: Seq<char>| after.contains(c) <==> (members.contains(c) && c != bad),
    ensures
        recipients.filter(|c: Seq<char>| c != bad).len() == members.len() - 1,
        !after.contains(bad),
        forall|c: Seq<char>| c != bad && members.contains(c) ==> after.contains(c),
{
    lemma_one_failure_count(recipients, bad);
}

} // verus!
