//! Scenario tests of the router: joins, moves, position requests,
//! pass-through, connect and disconnect handling.

use position_relay::conn_map::ConnPlayerMap;
use position_relay::game_state::GameState;
use position_relay::game_state::Position;
use position_relay::messages::Action;
use position_relay::messages::Envelope;
use position_relay::messages::Outbound;
use position_relay::registry::Registry;
use position_relay::router::handle_binary;
use position_relay::router::handle_connect;
use position_relay::router::handle_disconnect;
use position_relay::router::handle_game_message;
use position_relay::router::handle_ping;
use position_relay::router::handle_undecoded_text;

fn pos(x: i32, y: i32) -> Position {
    Position { x, y }
}

fn envelope(t: &str) -> Envelope {
    Envelope {
        message_type: t.to_string(),
        player_id: None,
        player_name: None,
        color: None,
        position: None,
    }
}

fn join_envelope(pid: &str, name: &str, color: &str) -> Envelope {
    Envelope {
        message_type: "player_join".to_string(),
        player_id: Some(pid.to_string()),
        player_name: Some(name.to_string()),
        color: Some(color.to_string()),
        position: None,
    }
}

fn move_envelope(pid: &str, p: Position) -> Envelope {
    Envelope {
        message_type: "player_move".to_string(),
        player_id: Some(pid.to_string()),
        player_name: None,
        color: None,
        position: Some(p),
    }
}

#[test]
fn join_creates_record_and_broadcasts() {
    let mut state = GameState::new();
    let mut conns = ConnPlayerMap::new();
    let actions = handle_game_message(
        &mut state,
        &mut conns,
        "c1",
        join_envelope("p1", "Ann", "red"),
        "raw".to_string(),
    );
    let infos = state.get_all_player_info();
    assert_eq!(infos.len(), 1);
    assert_eq!(infos[0].0, "p1");
    assert_eq!(infos[0].1.name, "Ann");
    assert_eq!(infos[0].1.color, "red");
    assert_eq!(infos[0].1.position, pos(0, 0));
    assert!(infos[0].1.online);
    assert_eq!(conns.get("c1").unwrap(), "p1");
    assert_eq!(actions.len(), 1);
    match &actions[0] {
        Action::Broadcast { message: Outbound::PlayerJoin { player_id, player_name, color } } => {
            assert_eq!(player_id, "p1");
            assert_eq!(player_name, "Ann");
            assert_eq!(color, "red");
        }
        _ => panic!("expected a player_join broadcast"),
    }
}

#[test]
fn joins_with_distinct_names_keep_distinct_online_identifiers() {
    let mut state = GameState::new();
    let mut conns = ConnPlayerMap::new();
    handle_game_message(
        &mut state,
        &mut conns,
        "c1",
        join_envelope("p1", "Ann", "red"),
        String::new(),
    );
    handle_game_message(
        &mut state,
        &mut conns,
        "c2",
        join_envelope("p2", "Bob", "blue"),
        String::new(),
    );
    handle_game_message(
        &mut state,
        &mut conns,
        "c3",
        join_envelope("p3", "Cid", "green"),
        String::new(),
    );
    let infos = state.get_all_player_info();
    assert_eq!(infos.len(), 3);
    let mut ids: Vec<&str> = infos.iter().map(|(k, _)| k.as_str()).collect();
    ids.sort();
    assert_eq!(ids, vec!["p1", "p2", "p3"]);
    for (_, info) in infos.iter() {
        assert!(info.online);
    }
}

#[test]
fn join_sends_synthetic_moves_for_others() {
    let mut state = GameState::new();
    let mut conns = ConnPlayerMap::new();
    handle_game_message(
        &mut state,
        &mut conns,
        "c1",
        join_envelope("p1", "Ann", "red"),
        String::new(),
    );
    let actions = handle_game_message(
        &mut state,
        &mut conns,
        "c2",
        join_envelope("p2", "Bob", "blue"),
        String::new(),
    );
    assert_eq!(actions.len(), 2);
    match &actions[1] {
        Action::Reply {
            message: Outbound::PlayerMoveInfo { player_id, player_name, color, position },
        } => {
            assert_eq!(player_id, "p1");
            assert_eq!(player_name, "Ann");
            assert_eq!(color, "red");
            assert_eq!(*position, pos(0, 0));
        }
        _ => panic!("expected a synthetic move reply for the earlier player"),
    }
}

#[test]
fn move_updates_store_and_rebroadcasts_verbatim() {
    let mut state = GameState::new();
    let mut conns = ConnPlayerMap::new();
    handle_game_message(
        &mut state,
        &mut conns,
        "c1",
        join_envelope("p1", "Ann", "red"),
        String::new(),
    );
    let raw = "{\"type\":\"player_move\",\"player_id\":\"p1\",\"position\":{\"x\":5,\"y\":7}}";
    let actions = handle_game_message(
        &mut state,
        &mut conns,
        "c1",
        move_envelope("p1", pos(5, 7)),
        raw.to_string(),
    );
    assert_eq!(*state.get_player_position("p1").unwrap(), pos(5, 7));
    assert_eq!(state.get_all_player_info()[0].1.position, pos(5, 7));
    assert_eq!(actions.len(), 1);
    match &actions[0] {
        Action::Broadcast { message: Outbound::Verbatim { raw: sent } } => {
            assert_eq!(sent, raw);
        }
        _ => panic!("expected the original envelope broadcast verbatim"),
    }
}

#[test]
fn move_with_missing_fields_is_dropped() {
    let mut state = GameState::new();
    let mut conns = ConnPlayerMap::new();
    let mut msg = envelope("player_move");
    msg.player_id = Some("p1".to_string());
    let actions = handle_game_message(&mut state, &mut conns, "c1", msg, "raw".to_string());
    assert!(actions.is_empty());
    assert_eq!(state.get_all_positions().len(), 0);
    assert!(conns.get("c1").is_none());
}

#[test]
fn join_with_missing_fields_is_dropped() {
    let mut state = GameState::new();
    let mut conns = ConnPlayerMap::new();
    let mut msg = envelope("player_join");
    msg.player_id = Some("p1".to_string());
    msg.player_name = Some("Ann".to_string());
    let actions = handle_game_message(&mut state, &mut conns, "c1", msg, "raw".to_string());
    assert!(actions.is_empty());
    assert_eq!(state.get_all_player_info().len(), 0);
}

#[test]
fn get_positions_is_answered_only_to_requester() {
    let mut state = GameState::new();
    let mut conns = ConnPlayerMap::new();
    state.update_player_position("p1".to_string(), pos(5, 7));
    let actions = handle_game_message(
        &mut state,
        &mut conns,
        "c1",
        envelope("get_positions"),
        String::new(),
    );
    assert_eq!(actions.len(), 1);
    match &actions[0] {
        Action::Reply { message: Outbound::PositionsUpdate { positions } } => {
            assert_eq!(positions.len(), 1);
            assert_eq!(positions[0].0, "p1");
            assert_eq!(positions[0].1, pos(5, 7));
        }
        _ => panic!("expected a positions_update reply, not a broadcast"),
    }
}

#[test]
fn unknown_type_passes_through() {
    let mut state = GameState::new();
    let mut conns = ConnPlayerMap::new();
    let raw = "{\"type\":\"chat\",\"data\":\"hi\"}";
    let actions = handle_game_message(
        &mut state,
        &mut conns,
        "c1",
        envelope("chat"),
        raw.to_string(),
    );
    assert_eq!(actions.len(), 1);
    match &actions[0] {
        Action::Broadcast { message: Outbound::Verbatim { raw: sent } } => assert_eq!(sent, raw),
        _ => panic!("expected a verbatim pass-through broadcast"),
    }
}

#[test]
fn rejoin_under_new_identifier_migrates() {
    let mut state = GameState::new();
    let mut conns = ConnPlayerMap::new();
    handle_game_message(
        &mut state,
        &mut conns,
        "c1",
        join_envelope("p1", "Ann", "red"),
        String::new(),
    );
    handle_game_message(
        &mut state,
        &mut conns,
        "c1",
        move_envelope("p1", pos(5, 7)),
        String::new(),
    );
    handle_disconnect(&mut state, &mut conns, &mut Registry::new(), "c1");
    let actions = handle_game_message(
        &mut state,
        &mut conns,
        "c2",
        join_envelope("p2", "Ann", "blue"),
        String::new(),
    );
    assert!(state.get_player_position("p1").is_none());
    let infos = state.get_all_player_info();
    assert_eq!(infos.len(), 1);
    assert_eq!(infos[0].0, "p2");
    assert!(infos[0].1.online);
    assert_eq!(infos[0].1.position, pos(5, 7));
    assert_eq!(*state.get_player_position("p2").unwrap(), pos(5, 7));
    match &actions[0] {
        Action::Broadcast {
            message: Outbound::PlayerReconnect { player_id, player_name, color },
        } => {
            assert_eq!(player_id, "p2");
            assert_eq!(player_name, "Ann");
            assert_eq!(color, "blue");
        }
        _ => panic!("expected a player_reconnect broadcast"),
    }
}

#[test]
fn disconnect_marks_offline_and_broadcasts_game_state() {
    let mut state = GameState::new();
    let mut conns = ConnPlayerMap::new();
    let mut registry = Registry::new();
    registry.register("c1".to_string());
    handle_game_message(
        &mut state,
        &mut conns,
        "c1",
        join_envelope("p1", "Ann", "red"),
        String::new(),
    );
    let actions = handle_disconnect(&mut state, &mut conns, &mut registry, "c1");
    let infos = state.get_all_player_info();
    assert!(!infos[0].1.online);
    assert!(conns.get("c1").is_none());
    assert!(!registry.contains("c1"));
    assert_eq!(actions.len(), 2);
    match &actions[0] {
        Action::Broadcast { message: Outbound::GameStateSnapshot { players } } => {
            assert_eq!(players.len(), 1);
            assert_eq!(players[0].0, "p1");
            assert!(!players[0].1.online);
        }
        _ => panic!("expected a game_state broadcast"),
    }
    match &actions[1] {
        Action::Broadcast { message: Outbound::ClientDisconnected { client_id } } => {
            assert_eq!(client_id, "c1");
        }
        _ => panic!("expected a client_disconnected broadcast"),
    }
}

#[test]
fn disconnect_of_playerless_connection_only_announces() {
    let mut state = GameState::new();
    let mut conns = ConnPlayerMap::new();
    let mut registry = Registry::new();
    registry.register("c9".to_string());
    let actions = handle_disconnect(&mut state, &mut conns, &mut registry, "c9");
    assert_eq!(actions.len(), 1);
    match &actions[0] {
        Action::Broadcast { message: Outbound::ClientDisconnected { client_id } } => {
            assert_eq!(client_id, "c9");
        }
        _ => panic!("expected only a client_disconnected broadcast"),
    }
}

#[test]
fn connect_pushes_world_and_announces() {
    let mut state = GameState::new();
    let mut registry = Registry::new();
    state.add_player_info("p1".to_string(), "Ann".to_string(), "red".to_string(), pos(1, 1));
    let (conn_id, actions) = handle_connect(&mut registry, &state);
    assert_eq!(conn_id.len(), 36);
    assert!(registry.contains(&conn_id));
    assert_eq!(actions.len(), 2);
    match &actions[0] {
        Action::Reply { message: Outbound::GameStateSnapshot { players } } => {
            assert_eq!(players.len(), 1);
            assert_eq!(players[0].0, "p1");
        }
        _ => panic!("expected the world snapshot reply first"),
    }
    match &actions[1] {
        Action::Broadcast { message: Outbound::ClientConnected { client_id } } => {
            assert_eq!(*client_id, conn_id);
        }
        _ => panic!("expected a client_connected broadcast"),
    }
}

#[test]
fn connect_to_empty_world_only_announces() {
    let state = GameState::new();
    let mut registry = Registry::new();
    let (conn_id, actions) = handle_connect(&mut registry, &state);
    assert_eq!(actions.len(), 1);
    match &actions[0] {
        Action::Broadcast { message: Outbound::ClientConnected { client_id } } => {
            assert_eq!(*client_id, conn_id);
        }
        _ => panic!("expected a client_connected broadcast"),
    }
}

#[test]
fn binary_ping_and_undecoded_text_routing() {
    let actions = handle_binary(vec![1, 2, 3]);
    assert!(matches!(
        &actions[0],
        Action::Broadcast { message: Outbound::Binary { data } } if *data == vec![1u8, 2, 3]
    ));
    let actions = handle_ping(vec![9]);
    assert!(matches!(
        &actions[0],
        Action::Reply { message: Outbound::Pong { payload } } if *payload == vec![9u8]
    ));
    let actions = handle_undecoded_text("not json".to_string());
    assert!(matches!(
        &actions[0],
        Action::Broadcast { message: Outbound::Verbatim { raw } } if raw == "not json"
    ));
}
