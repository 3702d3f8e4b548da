//! The event store: the raw-telemetry cap, presence colors, broadcast
//! filtering, and the register/unregister pairing.

use esp_gateway::events::{DeviceEvent, SubscriptionType};
use esp_gateway::store::DeviceEventStore;

fn raw(n: u64) -> DeviceEvent {
    DeviceEvent::Esp32UdpBroadcast {
        device_id: "dev-1".to_string(),
        message: format!("{{\"a\":{}}}", n),
        from_ip: "192.168.1.50".to_string(),
        from_port: 3232,
    }
}

fn raw_count_of(store: &DeviceEventStore, device: &str) -> usize {
    store
        .get_device_events(device)
        .iter()
        .filter(|e| matches!(e, DeviceEvent::Esp32UdpBroadcast { .. }))
        .count()
}

#[test]
fn cap_ten_retains_ten_oldest_evicted() {
    let mut store = DeviceEventStore::new();
    store.set_max_debug_messages(10);
    for n in 0..11u64 {
        store
            .add_event("dev-1".to_string(), raw(n), "u".to_string(), "c".to_string())
            .expect("raw event is valid");
    }
    assert_eq!(raw_count_of(&store, "dev-1"), 10);
    let events = store.get_device_events("dev-1");
    match &events[0] {
        DeviceEvent::Esp32UdpBroadcast { message, .. } => {
            assert_eq!(message, "{\"a\":1}", "the oldest raw event was evicted");
        }
        other => panic!("expected a raw event first, got {:?}", other),
    }
}

#[test]
fn lowering_cap_does_not_truncate_retroactively() {
    let mut store = DeviceEventStore::new();
    store.set_max_debug_messages(20);
    for n in 0..10u64 {
        store
            .add_event("dev-1".to_string(), raw(n), "u".to_string(), "c".to_string())
            .expect("raw event is valid");
    }
    assert_eq!(raw_count_of(&store, "dev-1"), 10);
    store.set_max_debug_messages(5);
    assert_eq!(raw_count_of(&store, "dev-1"), 10, "no retroactive truncation");
    store
        .add_event("dev-1".to_string(), raw(10), "u".to_string(), "c".to_string())
        .expect("raw event is valid");
    assert_eq!(raw_count_of(&store, "dev-1"), 10, "the next insertion evicts one");
}

#[test]
fn non_raw_events_are_never_evicted() {
    let mut store = DeviceEventStore::new();
    store.set_max_debug_messages(10);
    let status = DeviceEvent::Esp32ConnectionStatus {
        device_id: "dev-1".to_string(),
        connected: true,
        device_ip: "192.168.1.50".to_string(),
        tcp_port: 3232,
        udp_port: 3232,
    };
    store
        .add_event("dev-1".to_string(), status, "u".to_string(), "c".to_string())
        .expect("status event is valid");
    for n in 0..25u64 {
        store
            .add_event("dev-1".to_string(), raw(n), "u".to_string(), "c".to_string())
            .expect("raw event is valid");
    }
    let events = store.get_device_events("dev-1");
    assert!(matches!(events[0], DeviceEvent::Esp32ConnectionStatus { .. }));
    assert_eq!(raw_count_of(&store, "dev-1"), 10);
}

#[test]
fn invalid_event_is_rejected_and_not_stored() {
    let mut store = DeviceEventStore::new();
    let bad = DeviceEvent::Esp32VariableUpdate {
        device_id: "".to_string(),
        variable_name: "x".to_string(),
        variable_value: "1".to_string(),
        min: None,
        max: None,
    };
    let r = store.add_event("dev-1".to_string(), bad, "u".to_string(), "c".to_string());
    assert!(r.is_err());
    assert!(store.get_device_events("dev-1").is_empty());
}

#[test]
fn multi_tab_presence_joined_then_refresh_then_left() {
    let mut store = DeviceEventStore::new();
    // T1: a real join, broadcast to nobody else.
    let r1 = store.register_client(
        "dev-1".to_string(),
        "user-u".to_string(),
        "U".to_string(),
        "tab-1".to_string(),
        SubscriptionType::Full,
    );
    assert!(!r1.is_reconnection);
    assert!(matches!(r1.emitted, DeviceEvent::UserJoined { .. }));
    assert!(r1.recipients.is_empty());

    // T2, same user: a presence refresh to T1, and the color is kept.
    let r2 = store.register_client(
        "dev-1".to_string(),
        "user-u".to_string(),
        "U".to_string(),
        "tab-2".to_string(),
        SubscriptionType::Full,
    );
    assert!(r2.is_reconnection);
    assert_eq!(r2.user_color, r1.user_color, "one color per user on a device");
    match &r2.emitted {
        DeviceEvent::UserJoined { user_id, .. } => assert_eq!(user_id, "USER_COUNT_REFRESH"),
        other => panic!("expected a join refresh, got {:?}", other),
    }
    assert_eq!(r2.recipients, vec!["tab-1".to_string()]);

    // Closing T1: a refresh to T2, the user is still present.
    let u1 = store.unregister_client("dev-1", "tab-1");
    match u1.emitted.expect("a presence event goes out") {
        DeviceEvent::UserLeft { user_id, .. } => assert_eq!(user_id, "USER_COUNT_REFRESH"),
        other => panic!("expected a leave refresh, got {:?}", other),
    }
    assert_eq!(u1.recipients, vec!["tab-2".to_string()]);

    // Closing T2: the real departure, carrying the user's fields.
    let u2 = store.unregister_client("dev-1", "tab-2");
    match u2.emitted.expect("a presence event goes out") {
        DeviceEvent::UserLeft { user_id, user_color, .. } => {
            assert_eq!(user_id, "user-u");
            assert_eq!(user_color, r1.user_color);
        }
        other => panic!("expected a departure, got {:?}", other),
    }
    assert!(u2.recipients.is_empty());
    assert_eq!(store.get_connection_count("dev-1"), 0);
}

#[test]
fn re_registration_under_the_same_client_id_is_a_subscription_update() {
    let mut store = DeviceEventStore::new();
    let first = store.register_client(
        "dev-1".to_string(),
        "user-u".to_string(),
        "U".to_string(),
        "tab-1".to_string(),
        SubscriptionType::Full,
    );
    assert!(!first.is_reconnection);
    // The same client id registers again as its user's only entry: the old
    // entry does not survive, so this is a real join again, not a refresh.
    let again = store.register_client(
        "dev-1".to_string(),
        "user-u".to_string(),
        "U".to_string(),
        "tab-1".to_string(),
        SubscriptionType::Light,
    );
    assert!(!again.is_reconnection);
    match &again.emitted {
        DeviceEvent::UserJoined { user_id, .. } => assert_eq!(user_id, "user-u"),
        other => panic!("expected a real join, got {:?}", other),
    }
    assert_eq!(store.get_connection_count("dev-1"), 1);
}

#[test]
fn register_then_unregister_restores_the_subscriber_list() {
    let mut store = DeviceEventStore::new();
    store.register_client(
        "dev-1".to_string(),
        "alice".to_string(),
        "Alice".to_string(),
        "tab-a".to_string(),
        SubscriptionType::Full,
    );
    let before = store.get_connection_count("dev-1");
    store.register_client(
        "dev-1".to_string(),
        "bob".to_string(),
        "Bob".to_string(),
        "tab-b".to_string(),
        SubscriptionType::Full,
    );
    store.unregister_client("dev-1", "tab-b");
    assert_eq!(store.get_connection_count("dev-1"), before);
}

#[test]
fn light_subscriber_receives_only_connection_status() {
    let mut store = DeviceEventStore::new();
    store.register_client(
        "dev-1".to_string(),
        "watcher".to_string(),
        "W".to_string(),
        "light-tab".to_string(),
        SubscriptionType::Light,
    );
    let var = DeviceEvent::Esp32VariableUpdate {
        device_id: "dev-1".to_string(),
        variable_name: "speed".to_string(),
        variable_value: "3".to_string(),
        min: None,
        max: None,
    };
    let r1 = store
        .add_event("dev-1".to_string(), var, "u".to_string(), "sender".to_string())
        .unwrap();
    assert!(r1.is_empty(), "a light subscriber gets no variable update");

    let status = DeviceEvent::Esp32ConnectionStatus {
        device_id: "dev-1".to_string(),
        connected: true,
        device_ip: "192.168.1.50".to_string(),
        tcp_port: 3232,
        udp_port: 3232,
    };
    let r2 = store
        .add_event("dev-1".to_string(), status, "u".to_string(), "sender".to_string())
        .unwrap();
    assert_eq!(r2, vec!["light-tab".to_string()]);
}

#[test]
fn sender_never_receives_its_own_event() {
    let mut store = DeviceEventStore::new();
    store.register_client(
        "dev-1".to_string(),
        "alice".to_string(),
        "Alice".to_string(),
        "tab-a".to_string(),
        SubscriptionType::Full,
    );
    store.register_client(
        "dev-1".to_string(),
        "bob".to_string(),
        "Bob".to_string(),
        "tab-b".to_string(),
        SubscriptionType::Full,
    );
    let recipients = store
        .add_event("dev-1".to_string(), raw(1), "alice".to_string(), "tab-a".to_string())
        .unwrap();
    assert_eq!(recipients, vec!["tab-b".to_string()]);
}

#[test]
fn replay_snapshot_matches_retained_history() {
    let mut store = DeviceEventStore::new();
    for n in 0..3u64 {
        store
            .add_event("dev-1".to_string(), raw(n), "u".to_string(), "c".to_string())
            .unwrap();
    }
    let outcome = store.register_client(
        "dev-1".to_string(),
        "alice".to_string(),
        "Alice".to_string(),
        "tab-a".to_string(),
        SubscriptionType::Full,
    );
    assert_eq!(outcome.replay.len(), 3);
    assert_eq!(outcome.replay, store.get_device_events("dev-1"));
}

#[test]
fn cleanup_drops_closed_clients_and_empty_devices() {
    let mut store = DeviceEventStore::new();
    store.register_client(
        "dev-1".to_string(),
        "alice".to_string(),
        "Alice".to_string(),
        "tab-a".to_string(),
        SubscriptionType::Full,
    );
    store.register_client(
        "dev-1".to_string(),
        "bob".to_string(),
        "Bob".to_string(),
        "tab-b".to_string(),
        SubscriptionType::Full,
    );
    let removed = store.cleanup_stale_connections(&vec!["tab-a".to_string()]);
    assert_eq!(removed, 1);
    assert_eq!(store.get_connection_count("dev-1"), 1);
    let removed = store.cleanup_stale_connections(&vec!["tab-b".to_string()]);
    assert_eq!(removed, 1);
    assert_eq!(store.get_connection_count("dev-1"), 0);
    assert!(store.get_active_devices().is_empty());
}

#[test]
fn colors_are_deterministic_and_distinct_under_collision_probing() {
    let existing: Vec<String> = Vec::new();
    let c1 = esp_gateway::color::generate_user_color("alice", &existing);
    let c2 = esp_gateway::color::generate_user_color("alice", &existing);
    assert_eq!(c1, c2, "the color is a function of the user id");
    let taken = vec![c1.clone()];
    let c3 = esp_gateway::color::generate_user_color("alice", &taken);
    assert_ne!(c3, c1, "a taken color is probed past");
}

#[test]
fn color_variation_perturbs_channels() {
    let v = esp_gateway::color::create_color_variation("#FF6B6B", 3);
    assert_eq!(v, "#178383", "each channel shifts by the variation amount modulo 256");
    let unchanged = esp_gateway::color::create_color_variation("not-a-color", 3);
    assert_eq!(unchanged, "not-a-color");
}
