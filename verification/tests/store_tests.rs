//! Tests of the game-state store: creation, upserts, offline flags,
//! name lookup and identifier migration.

use position_relay::GameState;
use position_relay::Position;

fn pos(x: i32, y: i32) -> Position {
    Position { x, y }
}

#[test]
fn new_store_is_empty() {
    let s = GameState::new();
    assert_eq!(s.get_all_positions().len(), 0);
    assert_eq!(s.get_all_player_info().len(), 0);
    assert!(s.get_player_position("p1").is_none());
}

#[test]
fn upsert_position_reflected_in_snapshot() {
    let mut s = GameState::new();
    s.update_player_position("p1".to_string(), pos(5, 7));
    let snap = s.get_all_positions();
    assert_eq!(snap.len(), 1);
    assert_eq!(snap[0].0, "p1");
    assert_eq!(snap[0].1, pos(5, 7));
}

#[test]
fn repeated_upsert_is_idempotent() {
    let mut s = GameState::new();
    s.update_player_position("p1".to_string(), pos(3, 4));
    let first: Vec<(String, Position)> = s.get_all_positions().clone();
    s.update_player_position("p1".to_string(), pos(3, 4));
    let second: Vec<(String, Position)> = s.get_all_positions().clone();
    assert_eq!(first.len(), second.len());
    assert_eq!(first[0].0, second[0].0);
    assert_eq!(first[0].1, second[0].1);
}

#[test]
fn upsert_overwrites_previous_position() {
    let mut s = GameState::new();
    s.update_player_position("p1".to_string(), pos(1, 1));
    s.update_player_position("p1".to_string(), pos(9, 9));
    assert_eq!(*s.get_player_position("p1").unwrap(), pos(9, 9));
    assert_eq!(s.get_all_positions().len(), 1);
}

#[test]
fn upsert_mirrors_into_info() {
    let mut s = GameState::new();
    s.add_player_info("p1".to_string(), "Ann".to_string(), "red".to_string(), pos(0, 0));
    s.update_player_position("p1".to_string(), pos(5, 7));
    let infos = s.get_all_player_info();
    assert_eq!(infos[0].1.position, pos(5, 7));
}

#[test]
fn add_player_info_creates_online_record() {
    let mut s = GameState::new();
    s.add_player_info("p1".to_string(), "Ann".to_string(), "red".to_string(), pos(0, 0));
    let infos = s.get_all_player_info();
    assert_eq!(infos.len(), 1);
    assert_eq!(infos[0].0, "p1");
    assert_eq!(infos[0].1.name, "Ann");
    assert_eq!(infos[0].1.color, "red");
    assert_eq!(infos[0].1.position, pos(0, 0));
    assert!(infos[0].1.online);
    assert_eq!(*s.get_player_position("p1").unwrap(), pos(0, 0));
}

#[test]
fn set_player_offline_flips_flag_only() {
    let mut s = GameState::new();
    s.add_player_info("p1".to_string(), "Ann".to_string(), "red".to_string(), pos(2, 2));
    s.set_player_offline("p1");
    let infos = s.get_all_player_info();
    assert!(!infos[0].1.online);
    assert_eq!(infos[0].1.name, "Ann");
    assert_eq!(*s.get_player_position("p1").unwrap(), pos(2, 2));
}

#[test]
fn set_offline_of_unknown_player_is_noop() {
    let mut s = GameState::new();
    s.set_player_offline("ghost");
    assert_eq!(s.get_all_player_info().len(), 0);
}

#[test]
fn find_player_by_name_first_match() {
    let mut s = GameState::new();
    s.add_player_info("p1".to_string(), "Ann".to_string(), "red".to_string(), pos(0, 0));
    s.add_player_info("p2".to_string(), "Bob".to_string(), "blue".to_string(), pos(0, 0));
    assert_eq!(s.find_player_by_name("Bob").unwrap(), "p2");
    assert_eq!(s.find_player_by_name("Ann").unwrap(), "p1");
    assert!(s.find_player_by_name("Eve").is_none());
}

#[test]
fn find_player_by_name_tie_goes_to_earliest() {
    let mut s = GameState::new();
    s.add_player_info("p1".to_string(), "Ann".to_string(), "red".to_string(), pos(0, 0));
    s.set_player_offline("p1");
    s.add_player_info("p2".to_string(), "Ann".to_string(), "blue".to_string(), pos(0, 0));
    assert_eq!(s.find_player_by_name("Ann").unwrap(), "p1");
}

#[test]
fn migration_moves_state_and_deletes_source() {
    let mut s = GameState::new();
    s.add_player_info("p1".to_string(), "Ann".to_string(), "red".to_string(), pos(0, 0));
    s.update_player_position("p1".to_string(), pos(5, 7));
    s.set_player_offline("p1");
    s.update_player_id("p1", "p2".to_string());
    assert!(s.get_player_position("p1").is_none());
    assert!(s.find_player_by_name("Ann").is_some());
    let infos = s.get_all_player_info();
    assert_eq!(infos.len(), 1);
    assert_eq!(infos[0].0, "p2");
    assert!(infos[0].1.online);
    assert_eq!(infos[0].1.position, pos(5, 7));
    assert_eq!(*s.get_player_position("p2").unwrap(), pos(5, 7));
}

#[test]
fn migration_to_same_identifier_remarks_online() {
    let mut s = GameState::new();
    s.add_player_info("p1".to_string(), "Ann".to_string(), "red".to_string(), pos(1, 2));
    s.set_player_offline("p1");
    s.update_player_id("p1", "p1".to_string());
    let infos = s.get_all_player_info();
    assert_eq!(infos.len(), 1);
    assert!(infos[0].1.online);
    assert_eq!(*s.get_player_position("p1").unwrap(), pos(1, 2));
}

#[test]
fn migration_of_unknown_identifier_is_noop() {
    let mut s = GameState::new();
    s.add_player_info("p1".to_string(), "Ann".to_string(), "red".to_string(), pos(0, 0));
    s.update_player_id("ghost", "p9".to_string());
    assert_eq!(s.get_all_player_info().len(), 1);
    assert_eq!(s.get_all_player_info()[0].0, "p1");
}

#[test]
fn remove_player_deletes_both_entries() {
    let mut s = GameState::new();
    s.add_player_info("p1".to_string(), "Ann".to_string(), "red".to_string(), pos(0, 0));
    s.remove_player("p1");
    assert_eq!(s.get_all_player_info().len(), 0);
    assert_eq!(s.get_all_positions().len(), 0);
}

#[test]
fn online_only_filters_offline_players() {
    let mut s = GameState::new();
    s.add_player_info("p1".to_string(), "Ann".to_string(), "red".to_string(), pos(0, 0));
    s.add_player_info("p2".to_string(), "Bob".to_string(), "blue".to_string(), pos(0, 0));
    s.set_player_offline("p1");
    let online = s.get_online_players();
    assert_eq!(online.len(), 1);
    assert_eq!(online[0].0, "p2");
}
