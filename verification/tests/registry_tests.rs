//! Tests of the connection registry and the connection → player
//! directory: membership, recipient snapshots and failure pruning.

use position_relay::conn_map::ConnPlayerMap;
use position_relay::registry::Registry;

#[test]
fn register_and_count() {
    let mut r = Registry::new();
    assert_eq!(r.count(), 0);
    r.register("c1".to_string());
    r.register("c2".to_string());
    r.register("c1".to_string());
    assert_eq!(r.count(), 2);
    assert!(r.contains("c1"));
    assert!(r.contains("c2"));
    assert!(!r.contains("c3"));
}

#[test]
fn deregister_removes_only_that_connection() {
    let mut r = Registry::new();
    r.register("c1".to_string());
    r.register("c2".to_string());
    r.deregister("c1");
    assert!(!r.contains("c1"));
    assert!(r.contains("c2"));
    assert_eq!(r.count(), 1);
    r.deregister("ghost");
    assert_eq!(r.count(), 1);
}

#[test]
fn register_fresh_yields_registered_identifier() {
    let mut r = Registry::new();
    let id = r.register_fresh();
    assert_eq!(id.len(), 36);
    assert!(r.contains(&id));
    assert_eq!(r.count(), 1);
    let other = r.register_fresh();
    assert_ne!(id, other);
    assert_eq!(r.count(), 2);
}

#[test]
fn recipients_exclude_the_sender() {
    let mut r = Registry::new();
    r.register("c1".to_string());
    r.register("c2".to_string());
    r.register("c3".to_string());
    let recipients = r.recipients_except("c2");
    assert_eq!(recipients.len(), 2);
    assert!(recipients.contains(&"c1".to_string()));
    assert!(recipients.contains(&"c3".to_string()));
    assert!(!recipients.contains(&"c2".to_string()));
}

#[test]
fn recipients_for_outside_sender_are_everyone() {
    let mut r = Registry::new();
    r.register("c1".to_string());
    r.register("c2".to_string());
    let recipients = r.recipients_except("elsewhere");
    assert_eq!(recipients.len(), 2);
}

#[test]
fn one_failing_send_leaves_n_minus_one_deliveries() {
    let mut r = Registry::new();
    for name in ["c1", "c2", "c3", "c4"] {
        r.register(name.to_string());
    }
    let recipients = r.recipients_except("elsewhere");
    assert_eq!(recipients.len(), 4);
    let failing = "c3";
    let mut failed: Vec<String> = Vec::new();
    let mut delivered = 0;
    for c in &recipients {
        if c == failing {
            failed.push(c.clone());
        } else {
            delivered += 1;
        }
    }
    assert_eq!(delivered, 3);
    r.apply_failures(&failed);
    assert!(!r.contains("c3"));
    assert!(r.contains("c1"));
    assert!(r.contains("c2"));
    assert!(r.contains("c4"));
    assert_eq!(r.count(), 3);
}

#[test]
fn conn_map_insert_get_remove() {
    let mut m = ConnPlayerMap::new();
    assert!(m.get("c1").is_none());
    m.insert("c1".to_string(), "p1".to_string());
    m.insert("c2".to_string(), "p2".to_string());
    assert_eq!(m.get("c1").unwrap(), "p1");
    m.insert("c1".to_string(), "p9".to_string());
    assert_eq!(m.get("c1").unwrap(), "p9");
    assert_eq!(m.remove("c1").unwrap(), "p9");
    assert!(m.get("c1").is_none());
    assert!(m.remove("c1").is_none());
    assert_eq!(m.get("c2").unwrap(), "p2");
}
