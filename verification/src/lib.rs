//! Position-synchronization relay core: a verified game-state store,
//! connection registry, identity reconciler and message router for a
//! multiplayer position relay. Transport (WebSocket framing, async I/O)
//! is left to the embedding application, which feeds decoded frames in
//! and carries the returned actions out.

pub mod assoc;
pub mod conn_map;
pub mod game_state;
pub mod laws;
pub mod messages;
pub mod registry;
pub mod router;
pub mod strings;

pub use conn_map::ConnPlayerMap;
pub use game_state::GameState;
pub use game_state::PlayerInfo;
pub use game_state::Position;
pub use messages::Action;
pub use messages::Envelope;
pub use messages::Outbound;
pub use registry::Registry;
