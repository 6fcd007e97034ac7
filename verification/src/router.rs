//! The message router: decides, for every inbound event, how the store,
//! the connection → player directory and the registry change, and which
//! messages go out to whom. The embedding application performs the
//! actual sends and feeds back transport events.

use vstd::prelude::*;

use crate::assoc::lemma_assoc_map_index;
use crate::conn_map::ConnPlayerMap;
use crate::game_state::find_by_name_at;
use crate::game_state::infos_kv;
use crate::game_state::positions_kv;
use crate::game_state::GameState;
use crate::game_state::PlayerInfoV;
use crate::game_state::Position;
use crate::messages::acts_of;
use crate::messages::Action;
use crate::messages::ActionV;
use crate::messages::Envelope;
use crate::messages::EnvelopeV;
use crate::messages::Outbound;
use crate::messages::OutboundV;
use crate::registry::Registry;

verus! {

/// Where a player starts before its first move.
pub open spec fn origin() -> Position {
    Position { x: 0, y: 0 }
}

/// Whether a `player_move` envelope carries both required fields.
pub open spec fn has_move_fields(m: EnvelopeV) -> bool {
    m.player_id is Some && m.position is Some
}

/// Whether a `player_join` envelope carries all three required fields.
pub open spec fn has_join_fields(m: EnvelopeV) -> bool {
    m.player_id is Some && m.player_name is Some && m.color is Some
}

/// The synthetic move telling a joining client about one known player.
pub open spec fn synth_move_action(entry: (Seq<char>, PlayerInfoV)) -> ActionV {
    ActionV::Reply {
        message: OutboundV::PlayerMoveInfo {
            player_id: entry.0,
            player_name: entry.1.name,
            color: entry.1.color,
            position: entry.1.position,
        },
    }
}

/// One synthetic move per known player other than the joining one, in
/// table order: what a fresh client needs to render everyone present.
pub open spec fn synth_moves(infos: Seq<(Seq<char>, PlayerInfoV)>, joining: Seq<char>) -> Seq<
    ActionV,
>
    decreases infos.len(),
{
    if infos.len() == 0 {
        Seq::empty()
    } else {
        synth_moves(infos.drop_last(), joining) + (if infos.last().0 == joining {
            Seq::empty()
        } else {
            seq![synth_move_action(infos.last())]
        })
    }
}

/// Builds the synthetic-move replies for a joining player.
fn synthetic_moves_for(state: &GameState, player_id: &str) -> (r: Vec<Action>)
    ensures
        acts_of(r@) == synth_moves(state.infos_seq(), player_id@),
{
    let infos = state.get_all_player_info();
    let n = infos.len();
    let mut r: Vec<Action> = Vec::new();
    let mut i: usize = 0;
    proof {
        assert(acts_of(r@) =~= Seq::<ActionV>::empty());
        assert(state.infos_seq().take(0) =~= Seq::<(Seq<char>, PlayerInfoV)>::empty());
    }
    while i < n
        invariant
            n == infos@.len(),
            infos_kv(infos@) == state.infos_seq(),
            i <= n,
            acts_of(r@) == synth_moves(state.infos_seq().take(i as int), player_id@),
        decreases n - i,
    {
        let ghost r0 = acts_of(r@);
        if !(*infos[i].0.as_str() == *player_id) {
            r.push(
                Action::Reply {
                    message: Outbound::PlayerMoveInfo {
                        player_id: infos[i].0.clone(),
                        player_name: infos[i].1.name.clone(),
                        color: infos[i].1.color.clone(),
                        position: infos[i].1.position,
                    },
                },
            );
            proof {
                assert(acts_of(r@) =~= r0.push(synth_move_action(state.infos_seq()[i as int])));
            }
        }
        proof {
            let s = state.infos_seq();
            assert(s.take(i + 1).drop_last() =~= s.take(i as int));
            assert(s.take(i + 1).last() == s[i as int]);
            if s[i as int].0 == player_id@ {
                assert(synth_moves(s.take(i + 1), player_id@) =~= synth_moves(
                    s.take(i as int),
                    player_id@,
                ));
            } else {
                assert(synth_moves(s.take(i + 1), player_id@) =~= synth_moves(
                    s.take(i as int),
                    player_id@,
                ) + seq![synth_move_action(s[i as int])]);
                assert(acts_of(r@) =~= r0 + seq![synth_move_action(s[i as int])]);
            }
        }
        i += 1;
    }
    proof {
        assert(state.infos_seq().take(n as int) =~= state.infos_seq());
    }
    r
}

/// An owned copy of the position table, safe to hand to the transport.
fn snapshot_positions(state: &GameState) -> (r: Vec<(String, Position)>)
    ensures
        positions_kv(r@) == state.positions_seq(),
{
    let src = state.get_all_positions();
    let n = src.len();
    let mut r: Vec<(String, Position)> = Vec::new();
    let mut i: usize = 0;
    proof {
        assert(positions_kv(r@) =~= state.positions_seq().take(0));
    }
    while i < n
        invariant
            n == src@.len(),
            positions_kv(src@) == state.positions_seq(),
            i <= n,
            positions_kv(r@) == state.positions_seq().take(i as int),
        decreases n - i,
    {
        let ghost k0 = positions_kv(r@);
        r.push((src[i].0.clone(), src[i].1));
        proof {
            assert(positions_kv(r@) =~= k0.push(state.positions_seq()[i as int]));
            assert(state.positions_seq().take(i + 1) =~= state.positions_seq().take(i as int).push(
                state.positions_seq()[i as int],
            ));
        }
        i += 1;
    }
    proof {
        assert(state.positions_seq().take(n as int) =~= state.positions_seq());
    }
    r
}

/// An owned copy of the info table, safe to hand to the transport.
fn snapshot_infos(state: &GameState) -> (r: Vec<(String, crate::game_state::PlayerInfo)>)
    ensures
        infos_kv(r@) == state.infos_seq(),
{
    let src = state.get_all_player_info();
    let n = src.len();
    let mut r: Vec<(String, crate::game_state::PlayerInfo)> = Vec::new();
    let mut i: usize = 0;
    proof {
        assert(infos_kv(r@) =~= state.infos_seq().take(0));
    }
    while i < n
        invariant
            n == src@.len(),
            infos_kv(src@) == state.infos_seq(),
            i <= n,
            infos_kv(r@) == state.infos_seq().take(i as int),
        decreases n - i,
    {
        let ghost k0 = infos_kv(r@);
        r.push((src[i].0.clone(), src[i].1.clone()));
        proof {
            assert(infos_kv(r@) =~= k0.push(state.infos_seq()[i as int]));
            assert(state.infos_seq().take(i + 1) =~= state.infos_seq().take(i as int).push(
                state.infos_seq()[i as int],
            ));
        }
        i += 1;
    }
    proof {
        assert(state.infos_seq().take(n as int) =~= state.infos_seq());
    }
    r
}

/// Routes one decoded text envelope: updates the shared state and says
/// what to send where. Recognized types are `player_move`,
/// `player_join` and `get_positions`; a recognized type with missing
/// required fields is dropped silently; anything else passes through to
/// everyone else verbatim.
pub fn handle_game_message(
    state: &mut GameState,
    conn_map: &mut ConnPlayerMap,
    sender_id: &str,
    msg: Envelope,
    raw: String,
) -> (actions: Vec<Action>)
    requires
        old(state).wf(),
        old(conn_map).wf(),
    ensures
        final(state).wf(),
        final(conn_map).wf(),
        (msg@.message_type == "player_move"@ && has_move_fields(msg@)) ==> ({
            let pid = msg@.player_id->Some_0;
            let pos = msg@.position->Some_0;
            &&& final(conn_map)@ == old(conn_map)@.insert(sender_id@, pid)
            &&& final(state)@.positions == old(state)@.positions.insert(pid, pos)
            &&& old(state)@.infos.dom().contains(pid) ==> final(state)@.infos == old(
                state,
            )@.infos.insert(pid, old(state)@.infos[pid].with_position(pos))
            &&& !old(state)@.infos.dom().contains(pid) ==> final(state)@.infos == old(
                state,
            )@.infos
            &&& acts_of(actions@) == seq![
                ActionV::Broadcast { message: OutboundV::Verbatim { raw: raw@ } },
            ]
        }),
        (msg@.message_type == "player_move"@ && !has_move_fields(msg@)) ==> ({
            &&& final(state)@ == old(state)@
            &&& final(conn_map)@ == old(conn_map)@
            &&& actions@.len() == 0
        }),
        (msg@.message_type == "player_join"@ && has_join_fields(msg@)) ==> ({
            let pid = msg@.player_id->Some_0;
            let name = msg@.player_name->Some_0;
            let color = msg@.color->Some_0;
            &&& final(conn_map)@ == old(conn_map)@.insert(sender_id@, pid)
            &&& (find_by_name_at(old(state).infos_seq(), name) is None ==> ({
                &&& final(state)@.infos == old(state)@.infos.insert(
                    pid,
                    PlayerInfoV::new_online(name, color, origin()),
                )
                &&& final(state)@.positions == old(state)@.positions.insert(pid, origin())
                &&& acts_of(actions@) == seq![
                    ActionV::Broadcast {
                        message: OutboundV::PlayerJoin {
                            player_id: pid,
                            player_name: name,
                            color,
                        },
                    },
                ] + synth_moves(final(state).infos_seq(), pid)
            }))
            &&& (find_by_name_at(old(state).infos_seq(), name) matches Some(fi) ==> ({
                let exid = old(state).infos_seq()[fi].0;
                &&& old(state)@.infos.dom().contains(exid)
                &&& final(state)@.infos == old(state)@.infos.remove(exid).insert(
                    pid,
                    old(state)@.infos[exid].with_online(true),
                )
                &&& old(state)@.positions.dom().contains(exid) ==> final(state)@.positions == old(
                    state,
                )@.positions.remove(exid).insert(pid, old(state)@.positions[exid])
                &&& !old(state)@.positions.dom().contains(exid) ==> final(state)@.positions == old(
                    state,
                )@.positions
                &&& acts_of(actions@) == seq![
                    ActionV::Broadcast {
                        message: OutboundV::PlayerReconnect {
                            player_id: pid,
                            player_name: name,
                            color,
                        },
                    },
                ] + synth_moves(final(state).infos_seq(), pid)
            }))
        }),
        (msg@.message_type == "player_join"@ && !has_join_fields(msg@)) ==> ({
            &&& final(state)@ == old(state)@
            &&& final(conn_map)@ == old(conn_map)@
            &&& actions@.len() == 0
        }),
        (msg@.message_type == "get_positions"@) ==> ({
            &&& final(state)@ == old(state)@
            &&& final(conn_map)@ == old(conn_map)@
            &&& acts_of(actions@) == seq![
                ActionV::Reply {
                    message: OutboundV::PositionsUpdate {
                        positions: old(state).positions_seq(),
                    },
                },
            ]
        }),
        (msg@.message_type != "player_move"@ && msg@.message_type != "player_join"@
            && msg@.message_type != "get_positions"@) ==> ({
            &&& final(state)@ == old(state)@
            &&& final(conn_map)@ == old(conn_map)@
            &&& acts_of(actions@) == seq![
                ActionV::Broadcast { message: OutboundV::Verbatim { raw: raw@ } },
            ]
        }),
{
    let ghost rawv = raw@;
    proof {
        reveal_strlit("player_move");
        reveal_strlit("player_join");
        reveal_strlit("get_positions");
        assert(("player_move"@).len() == 11);
        assert(("player_join"@).len() == 11);
        assert(("get_positions"@).len() == 13);
        assert(("player_move"@)[7] == 'm');
        assert(("player_join"@)[7] == 'j');
        assert("player_move"@ != "player_join"@);
        assert("player_move"@ != "get_positions"@);
        assert("player_join"@ != "get_positions"@);
    }
    let mut actions: Vec<Action> = Vec::new();
    if *msg.message_type.as_str() == *"player_move" {
        if let (Some(pid), Some(pos)) = (msg.player_id, msg.position) {
            conn_map.insert(sender_id.to_owned(), pid.clone());
            state.update_player_position(pid, pos);
            actions.push(Action::Broadcast { message: Outbound::Verbatim { raw } });
            proof {
                assert(acts_of(actions@) =~= seq![
                    ActionV::Broadcast { message: OutboundV::Verbatim { raw: rawv } },
                ]);
            }
        }
    } else if *msg.message_type.as_str() == *"player_join" {
        if let (Some(pid), Some(name), Some(color)) = (msg.player_id, msg.player_name, msg.color) {
            let ghost pidv = pid@;
            let ghost namev = name@;
            let ghost colorv = color@;
            conn_map.insert(sender_id.to_owned(), pid.clone());
            let existing_id: Option<String> = match state.find_player_by_name(name.as_str()) {
                Some(s) => Some(s.clone()),
                None => None,
            };
            match existing_id {
                Some(exid) => {
                    proof {
                        crate::game_state::lemma_find_by_name_at(old(state).infos_seq(), namev);
                        let fi = find_by_name_at(old(state).infos_seq(), namev)->Some_0;
                        lemma_assoc_map_index(old(state).infos_seq(), fi);
                    }
                    state.update_player_id(exid.as_str(), pid.clone());
                    actions.push(
                        Action::Broadcast {
                            message: Outbound::PlayerReconnect {
                                player_id: pid.clone(),
                                player_name: name,
                                color,
                            },
                        },
                    );
                    proof {
                        assert(acts_of(actions@) =~= seq![
                            ActionV::Broadcast {
                                message: OutboundV::PlayerReconnect {
                                    player_id: pidv,
                                    player_name: namev,
                                    color: colorv,
                                },
                            },
                        ]);
                    }
                },
                None => {
                    proof {
                        crate::game_state::lemma_find_by_name_at(old(state).infos_seq(), namev);
                    }
                    state.add_player_info(
                        pid.clone(),
                        name.clone(),
                        color.clone(),
                        Position { x: 0, y: 0 },
                    );
                    actions.push(
                        Action::Broadcast {
                            message: Outbound::PlayerJoin {
                                player_id: pid.clone(),
                                player_name: name,
                                color,
                            },
                        },
                    );
                    proof {
                        assert(acts_of(actions@) =~= seq![
                            ActionV::Broadcast {
                                message: OutboundV::PlayerJoin {
                                    player_id: pidv,
                                    player_name: namev,
                                    color: colorv,
                                },
                            },
                        ]);
                    }
                },
            }
            let ghost first = acts_of(actions@);
            let mut moves = synthetic_moves_for(state, pid.as_str());
            actions.append(&mut moves);
            proof {
                assert(acts_of(actions@) =~= first + synth_moves(
                    state.infos_seq(),
                    pidv,
                ));
            }
        }
    } else if *msg.message_type.as_str() == *"get_positions" {
        let snap = snapshot_positions(state);
        actions.push(Action::Reply { message: Outbound::PositionsUpdate { positions: snap } });
        proof {
            assert(acts_of(actions@) =~= seq![
                ActionV::Reply {
                    message: OutboundV::PositionsUpdate { positions: state.positions_seq() },
                },
            ]);
        }
    } else {
        actions.push(Action::Broadcast { message: Outbound::Verbatim { raw } });
        proof {
            assert(acts_of(actions@) =~= seq![
                ActionV::Broadcast { message: OutboundV::Verbatim { raw: rawv } },
            ]);
        }
    }
    actions
}

/// Routes an opaque binary frame: relayed to everyone else unchanged.
pub fn handle_binary(data: Vec<u8>) -> (actions: Vec<Action>)
    ensures
        acts_of(actions@) == seq![ActionV::Broadcast { message: OutboundV::Binary { data: data@ } }],
{
    let ghost dv = data@;
    let mut actions: Vec<Action> = Vec::new();
    actions.push(Action::Broadcast { message: Outbound::Binary { data } });
    proof {
        assert(acts_of(actions@) =~= seq![
            ActionV::Broadcast { message: OutboundV::Binary { data: dv } },
        ]);
    }
    actions
}

/// Routes a ping frame: answered to the sender with the same payload.
pub fn handle_ping(payload: Vec<u8>) -> (actions: Vec<Action>)
    ensures
        acts_of(actions@) == seq![
            ActionV::Reply { message: OutboundV::Pong { payload: payload@ } },
        ],
{
    let ghost pv = payload@;
    let mut actions: Vec<Action> = Vec::new();
    actions.push(Action::Reply { message: Outbound::Pong { payload } });
    proof {
        assert(acts_of(actions@) =~= seq![
            ActionV::Reply { message: OutboundV::Pong { payload: pv } },
        ]);
    }
    actions
}

/// Routes a text payload that did not decode as the envelope at all:
/// passed through to everyone else as raw text.
pub fn handle_undecoded_text(raw: String) -> (actions: Vec<Action>)
    ensures
        acts_of(actions@) == seq![
            ActionV::Broadcast { message: OutboundV::Verbatim { raw: raw@ } },
        ],
{
    let ghost rv = raw@;
    let mut actions: Vec<Action> = Vec::new();
    actions.push(Action::Broadcast { message: Outbound::Verbatim { raw } });
    proof {
        assert(acts_of(actions@) =~= seq![
            ActionV::Broadcast { message: OutboundV::Verbatim { raw: rv } },
        ]);
    }
    actions
}

/// Accepts a new connection: registers a fresh identifier, pushes the
/// current world to the newcomer when there is one, and announces the
/// connection to everyone else.
pub fn handle_connect(registry: &mut Registry, state: &GameState) -> (r: (String, Vec<Action>))
    requires
        old(registry).wf(),
    ensures
        final(registry).wf(),
        final(registry)@.contains(r.0@),
        old(registry)@.contains(r.0@) ==> final(registry)@ == old(registry)@,
        !old(registry)@.contains(r.0@) ==> final(registry)@ == old(registry)@.push(r.0@),
        state.infos_seq().len() == 0 ==> acts_of(r.1@) == seq![
            ActionV::Broadcast { message: OutboundV::ClientConnected { client_id: r.0@ } },
        ],
        state.infos_seq().len() > 0 ==> acts_of(r.1@) == seq![
            ActionV::Reply {
                message: OutboundV::GameStateSnapshot { players: state.infos_seq() },
            },
            ActionV::Broadcast { message: OutboundV::ClientConnected { client_id: r.0@ } },
        ],
{
    let id = registry.register_fresh();
    let mut actions: Vec<Action> = Vec::new();
    if state.get_all_player_info().len() > 0 {
        let snap = snapshot_infos(state);
        actions.push(Action::Reply { message: Outbound::GameStateSnapshot { players: snap } });
    }
    actions.push(
        Action::Broadcast { message: Outbound::ClientConnected { client_id: id.clone() } },
    );
    proof {
        if state.infos_seq().len() == 0 {
            assert(acts_of(actions@) =~= seq![
                ActionV::Broadcast { message: OutboundV::ClientConnected { client_id: id@ } },
            ]);
        } else {
            assert(acts_of(actions@) =~= seq![
                ActionV::Reply {
                    message: OutboundV::GameStateSnapshot { players: state.infos_seq() },
                },
                ActionV::Broadcast { message: OutboundV::ClientConnected { client_id: id@ } },
            ]);
        }
    }
    (id, actions)
}

/// Cleans up after a connection ends: the owning player (if any) goes
/// offline and the departure is broadcast, then the connection itself
/// is announced as gone and deregistered.
pub fn handle_disconnect(
    state: &mut GameState,
    conn_map: &mut ConnPlayerMap,
    registry: &mut Registry,
    conn_id: &str,
) -> (actions: Vec<Action>)
    requires
        old(state).wf(),
        old(conn_map).wf(),
        old(registry).wf(),
    ensures
        final(state).wf(),
        final(conn_map).wf(),
        final(registry).wf(),
        final(conn_map)@ == old(conn_map)@.remove(conn_id@),
        !final(registry)@.contains(conn_id@),
        forall|c: Seq<char>|
            c != conn_id@ ==> (final(registry)@.contains(c) <==> old(registry)@.contains(c)),
        final(state)@.positions == old(state)@.positions,
        old(conn_map)@.dom().contains(conn_id@) ==> ({
            let pid = old(conn_map)@[conn_id@];
            &&& old(state)@.infos.dom().contains(pid) ==> final(state)@.infos == old(
                state,
            )@.infos.insert(pid, old(state)@.infos[pid].with_online(false))
            &&& !old(state)@.infos.dom().contains(pid) ==> final(state)@.infos == old(
                state,
            )@.infos
        }),
        !old(conn_map)@.dom().contains(conn_id@) ==> final(state)@.infos == old(state)@.infos,
        (old(conn_map)@.dom().contains(conn_id@) && final(state).infos_seq().len() > 0) ==> acts_of(
            actions@,
        ) == seq![
            ActionV::Broadcast {
                message: OutboundV::GameStateSnapshot { players: final(state).infos_seq() },
            },
            ActionV::Broadcast { message: OutboundV::ClientDisconnected { client_id: conn_id@ } },
        ],
        (!old(conn_map)@.dom().contains(conn_id@) || final(state).infos_seq().len() == 0)
            ==> acts_of(actions@) == seq![
            ActionV::Broadcast { message: OutboundV::ClientDisconnected { client_id: conn_id@ } },
        ],
{
    let mut actions: Vec<Action> = Vec::new();
    match conn_map.remove(conn_id) {
        Some(pid) => {
            state.set_player_offline(pid.as_str());
            if state.get_all_player_info().len() > 0 {
                let snap = snapshot_infos(state);
                actions.push(
                    Action::Broadcast { message: Outbound::GameStateSnapshot { players: snap } },
                );
            }
        },
        None => {},
    }
    actions.push(
        Action::Broadcast {
            message: Outbound::ClientDisconnected { client_id: conn_id.to_owned() },
        },
    );
    registry.deregister(conn_id);
    proof {
        if old(conn_map)@.dom().contains(conn_id@) && state.infos_seq().len() > 0 {
            assert(acts_of(actions@) =~= seq![
                ActionV::Broadcast {
                    message: OutboundV::GameStateSnapshot { players: state.infos_seq() },
                },
                ActionV::Broadcast {
                    message: OutboundV::ClientDisconnected { client_id: conn_id@ },
                },
            ]);
        } else {
            assert(acts_of(actions@) =~= seq![
                ActionV::Broadcast {
                    message: OutboundV::ClientDisconnected { client_id: conn_id@ },
                },
            ]);
        }
    }
    actions
}

} // verus!
