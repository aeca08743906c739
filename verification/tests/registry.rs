//! Tests of the per-surface connection registry: single active connection,
//! supersession, and idempotent disconnect.

use relay_core::registry::ConnectionRegistry;

#[test]
fn at_most_one_connection_active_per_surface() {
    let mut reg = ConnectionRegistry::new();
    let win = String::from("win-1");
    let id1 = reg.connect(&win);
    assert!(reg.is_active(&win, id1));
    let id2 = reg.connect(&win);
    assert_ne!(id1, id2, "a superseding connect must change the id");
    assert!(!reg.is_active(&win, id1), "the superseded connection is no longer active");
    assert!(reg.is_active(&win, id2));
}

#[test]
fn connection_ids_increase_and_are_never_reused() {
    let mut reg = ConnectionRegistry::new();
    let a = String::from("a");
    let b = String::from("b");
    let id1 = reg.connect(&a);
    let id2 = reg.connect(&b);
    let id3 = reg.connect(&a);
    assert!(id1 < id2 && id2 < id3);
}

#[test]
fn surfaces_are_independent() {
    let mut reg = ConnectionRegistry::new();
    let a = String::from("main");
    let b = String::from("win-2");
    let ida = reg.connect(&a);
    let idb = reg.connect(&b);
    assert!(reg.is_active(&a, ida));
    assert!(reg.is_active(&b, idb));
    reg.disconnect(&a);
    assert!(!reg.is_active(&a, ida));
    assert!(reg.is_active(&b, idb), "disconnecting one surface leaves the other alone");
}

#[test]
fn disconnect_is_idempotent() {
    let mut reg = ConnectionRegistry::new();
    let win = String::from("win-1");
    reg.disconnect(&win);
    let id = reg.connect(&win);
    reg.disconnect(&win);
    reg.disconnect(&win);
    assert!(!reg.is_active(&win, id));
}
