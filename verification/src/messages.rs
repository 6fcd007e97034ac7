//! The application-level message envelope, the outbound messages the
//! relay originates, and the routing actions handed back to the
//! transport layer for delivery.

use vstd::prelude::*;

use crate::game_state::PlayerInfo;
use crate::game_state::PlayerInfoV;
use crate::game_state::Position;

verus! {

/// A decoded inbound envelope: the `type` discriminator plus whichever
/// optional fields the payload carried. Missing fields are tolerated at
/// decode time and categorized by the router.
pub struct Envelope {
    pub message_type: String,
    pub player_id: Option<String>,
    pub player_name: Option<String>,
    pub color: Option<String>,
    pub position: Option<Position>,
}

/// Mathematical image of an `Envelope`.
pub ghost struct EnvelopeV {
    pub message_type: Seq<char>,
    pub player_id: Option<Seq<char>>,
    pub player_name: Option<Seq<char>>,
    pub color: Option<Seq<char>>,
    pub position: Option<Position>,
}

impl View for Envelope {
    type V = EnvelopeV;

    open spec fn view(&self) -> EnvelopeV {
        EnvelopeV {
            message_type: self.message_type@,
            player_id: match self.player_id {
                Some(s) => Some(s@),
                None => None,
            },
            player_name: match self.player_name {
                Some(s) => Some(s@),
                None => None,
            },
            color: match self.color {
                Some(s) => Some(s@),
                None => None,
            },
            position: self.position,
        }
    }
}

/// A message the relay sends out, before serialization.
pub enum Outbound {
    /// The inbound payload relayed unchanged (pass-through).
    Verbatim { raw: String },
    /// A fresh player announced to everyone else.
    PlayerJoin { player_id: String, player_name: String, color: String },
    /// A returning player announced under its new identifier.
    PlayerReconnect { player_id: String, player_name: String, color: String },
    /// A synthetic move telling a newly joined client about one
    /// already-known player.
    PlayerMoveInfo { player_id: String, player_name: String, color: String, position: Position },
    /// The full position table, answering a positions request.
    PositionsUpdate { positions: Vec<(String, Position)> },
    /// The full info table, pushed on connect and after departures.
    GameStateSnapshot { players: Vec<(String, PlayerInfo)> },
    /// A connection came up; carries the connection identifier.
    ClientConnected { client_id: String },
    /// A connection went away; carries the connection identifier.
    ClientDisconnected { client_id: String },
    /// An opaque binary payload relayed unchanged.
    Binary { data: Vec<u8> },
    /// The answer to a ping, echoing its payload.
    Pong { payload: Vec<u8> },
}

/// Mathematical image of an `Outbound`.
pub ghost enum OutboundV {
    Verbatim { raw: Seq<char> },
    PlayerJoin { player_id: Seq<char>, player_name: Seq<char>, color: Seq<char> },
    PlayerReconnect { player_id: Seq<char>, player_name: Seq<char>, color: Seq<char> },
    PlayerMoveInfo {
        player_id: Seq<char>,
        player_name: Seq<char>,
        color: Seq<char>,
        position: Position,
    },
    PositionsUpdate { positions: Seq<(Seq<char>, Position)> },
    GameStateSnapshot { players: Seq<(Seq<char>, PlayerInfoV)> },
    ClientConnected { client_id: Seq<char> },
    ClientDisconnected { client_id: Seq<char> },
    Binary { data: Seq<u8> },
    Pong { payload: Seq<u8> },
}

impl View for Outbound {
    type V = OutboundV;

    open spec fn view(&self) -> OutboundV {
        match self {
            Outbound::Verbatim { raw } => OutboundV::Verbatim { raw: raw@ },
            Outbound::PlayerJoin { player_id, player_name, color } => OutboundV::PlayerJoin {
                player_id: player_id@,
                player_name: player_name@,
                color: color@,
            },
            Outbound::PlayerReconnect { player_id, player_name, color } => (
            OutboundV::PlayerReconnect {
                player_id: player_id@,
                player_name: player_name@,
                color: color@,
            }),
            Outbound::PlayerMoveInfo { player_id, player_name, color, position } => (
            OutboundV::PlayerMoveInfo {
                player_id: player_id@,
                player_name: player_name@,
                color: color@,
                position: *position,
            }),
            Outbound::PositionsUpdate { positions } => OutboundV::PositionsUpdate {
                positions: crate::game_state::positions_kv(positions@),
            },
            Outbound::GameStateSnapshot { players } => OutboundV::GameStateSnapshot {
                players: crate::game_state::infos_kv(players@),
            },
            Outbound::ClientConnected { client_id } => OutboundV::ClientConnected {
                client_id: client_id@,
            },
            Outbound::ClientDisconnected { client_id } => OutboundV::ClientDisconnected {
                client_id: client_id@,
            },
            Outbound::Binary { data } => OutboundV::Binary { data: data@ },
            Outbound::Pong { payload } => OutboundV::Pong { payload: payload@ },
        }
    }
}

/// Where one outbound message goes.
pub enum Action {
    /// To the originating connection only.
    Reply { message: Outbound },
    /// To every registered connection except the originating one.
    Broadcast { message: Outbound },
}

/// Mathematical image of an `Action`.
pub ghost enum ActionV {
    Reply { message: OutboundV },
    Broadcast { message: OutboundV },
}

impl View for Action {
    type V = ActionV;

    open spec fn view(&self) -> ActionV {
        match self {
            Action::Reply { message } => ActionV::Reply { message: message@ },
            Action::Broadcast { message } => ActionV::Broadcast { message: message@ },
        }
    }
}

/// The actions of a routing step, as mathematical values.
pub open spec fn acts_of(s: Seq<Action>) -> Seq<ActionV> {
    s.map_values(|a: Action| a@)
}

} // verus!
