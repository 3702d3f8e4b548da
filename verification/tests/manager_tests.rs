//! The device manager: idempotent add, the session's reset semantics,
//! unified ingress with its edge-triggered status, the raw-telemetry cap
//! end to end, and the liveness monitor.

use esp_gateway::events::DeviceEvent;
use esp_gateway::manager::Esp32Manager;
use esp_gateway::session::{SendStep, TcpSession};
use esp_gateway::store::DeviceEventStore;
use esp_gateway::types::{ConnectionState, Esp32DeviceConfig, MessageSource};

fn manager() -> Esp32Manager {
    Esp32Manager::new(DeviceEventStore::new())
}

fn config(id: &str, ip: &str) -> Esp32DeviceConfig {
    Esp32DeviceConfig::new(id.to_string(), ip.to_string(), 3232, 3232)
}

#[test]
fn add_device_twice_keeps_one_entry_with_later_config() {
    let mut mgr = manager();
    mgr.add_device(config("AA-BB-CC-DD-EE-01", "192.168.1.50")).unwrap();
    mgr.add_device(config("AA-BB-CC-DD-EE-01", "192.168.1.99")).unwrap();
    assert_eq!(mgr.device_configs.len(), 1);
    assert_eq!(mgr.sessions.len(), 1);
    let c = mgr.get_device_config("AA-BB-CC-DD-EE-01").unwrap();
    assert_eq!(c.ip_address, "192.168.1.99", "the later configuration wins");
    assert_eq!(
        mgr.get_device_state("AA-BB-CC-DD-EE-01"),
        Some(ConnectionState::Disconnected),
        "the existing session is kept"
    );
}

#[test]
fn reset_keeps_the_session_in_connecting() {
    let mut session = TcpSession::new(config("AA-BB-CC-DD-EE-01", "192.168.1.50"));
    session.begin_connect();
    session.on_tcp_connected();
    assert_eq!(session.get_connection_state(), ConnectionState::Connected);
    assert_eq!(session.plan_send(), SendStep::Write);

    // A delivered reset parts with the stream but keeps the session alive.
    let r = session.settle_send(true, true);
    assert!(r.is_ok());
    assert_eq!(session.get_connection_state(), ConnectionState::Connecting);
    assert!(!session.has_stream);
    assert_eq!(session.plan_send(), SendStep::Reconnect);

    // A reset whose write failed is also a success — the device closed the
    // socket by design — and the session still parts with the stream and
    // waits in Connecting for the re-attach.
    let mut session2 = TcpSession::new(config("AA-BB-CC-DD-EE-01", "192.168.1.50"));
    session2.begin_connect();
    session2.on_tcp_connected();
    assert!(session2.settle_send(true, false).is_ok());
    assert_eq!(session2.get_connection_state(), ConnectionState::Connecting);
    assert!(!session2.has_stream);

    // An ordinary command's failed write is an error.
    let mut session3 = TcpSession::new(config("AA-BB-CC-DD-EE-01", "192.168.1.50"));
    session3.begin_connect();
    session3.on_tcp_connected();
    assert!(session3.settle_send(false, false).is_err());
}

#[test]
fn connect_finish_emits_connected_status_as_last_word() {
    let mut mgr = manager();
    mgr.add_device(config("AA-BB-CC-DD-EE-01", "192.168.1.50")).unwrap();
    let plan = mgr.connect_device_begin("AA-BB-CC-DD-EE-01").unwrap();
    assert_eq!(plan, esp_gateway::manager::ConnectPlan::Dial);
    let out = mgr
        .connect_device_finish("AA-BB-CC-DD-EE-01", true, false, String::new(), 1_000)
        .unwrap();
    assert_eq!(out.len(), 1);
    match &out[0].event {
        DeviceEvent::Esp32ConnectionStatus { connected, device_ip, tcp_port, udp_port, .. } => {
            assert!(*connected);
            assert_eq!(device_ip, "192.168.1.50");
            assert_eq!(*tcp_port, 3232);
            assert_eq!(*udp_port, 3232);
        }
        other => panic!("expected a connected status, got {:?}", other),
    }
    assert_eq!(
        mgr.get_device_state("AA-BB-CC-DD-EE-01"),
        Some(ConnectionState::Connected)
    );
    // The command session now routes by address.
    assert_eq!(
        mgr.device_for_ip("192.168.1.50").map(|s| s.clone()),
        Some("AA-BB-CC-DD-EE-01".to_string())
    );
}

#[test]
fn ingress_emits_status_only_on_the_edge() {
    let mut mgr = manager();
    let src = MessageSource::Udp { ip: "192.168.1.50".to_string(), port: 3232 };
    let first = mgr.handle_message_unified("{\"a\":1}", "AA-BB-CC-DD-EE-01", &src, 1_000);
    // The edge: a connected status, the raw broadcast, one parsed update.
    assert!(matches!(first[0].event, DeviceEvent::Esp32ConnectionStatus { connected: true, .. }));
    assert!(matches!(first[1].event, DeviceEvent::Esp32UdpBroadcast { .. }));
    assert_eq!(first.len(), 3);
    match &first[2].event {
        DeviceEvent::Esp32VariableUpdate { variable_name, variable_value, .. } => {
            assert_eq!(variable_name, "a");
            assert_eq!(variable_value, "1");
        }
        other => panic!("expected a variable update, got {:?}", other),
    }

    let second = mgr.handle_message_unified("{\"a\":2}", "AA-BB-CC-DD-EE-01", &src, 2_000);
    // No edge the second time: just the raw broadcast and the update.
    assert!(matches!(second[0].event, DeviceEvent::Esp32UdpBroadcast { .. }));
    assert_eq!(second.len(), 2);
}

#[test]
fn raw_cap_three_keeps_newest_three_and_all_updates() {
    let mut mgr = manager();
    mgr.device_store.set_max_debug_messages(3);
    let src = MessageSource::Udp { ip: "192.168.1.50".to_string(), port: 3232 };
    for n in 1..=5u64 {
        let payload = format!("{{\"a\":{}}}", n);
        mgr.handle_message_unified(&payload, "AA-BB-CC-DD-EE-01", &src, 1_000 * n);
    }
    let events = mgr.device_store.get_device_events("AA-BB-CC-DD-EE-01");
    let raws: Vec<String> = events
        .iter()
        .filter_map(|e| match e {
            DeviceEvent::Esp32UdpBroadcast { message, .. } => Some(message.clone()),
            _ => None,
        })
        .collect();
    assert_eq!(raws, vec!["{\"a\":3}", "{\"a\":4}", "{\"a\":5}"]);
    let updates = events
        .iter()
        .filter(|e| matches!(e, DeviceEvent::Esp32VariableUpdate { .. }))
        .count();
    assert_eq!(updates, 5, "variable updates are not raw telemetry and all survive");
}

#[test]
fn liveness_timeout_fires_exactly_once() {
    let mut mgr = manager();
    let src = MessageSource::Udp { ip: "192.168.1.50".to_string(), port: 3232 };
    mgr.add_device(config("AA-BB-CC-DD-EE-01", "192.168.1.50")).unwrap();
    mgr.handle_message_unified("{\"a\":1}", "AA-BB-CC-DD-EE-01", &src, 1_000);

    // Before the budget runs out nothing expires.
    let soon = 1_000 + 9_000;
    assert!(mgr.liveness_expired(soon).is_empty());

    // One second past the ten-second budget the device expires.
    let late = 1_000 + 11_000;
    let expired = mgr.liveness_expired(late);
    assert_eq!(expired, vec!["AA-BB-CC-DD-EE-01".to_string()]);
    let msg = mgr.liveness_expire_one("AA-BB-CC-DD-EE-01", late).expect("one disconnect");
    assert!(matches!(
        msg.event,
        DeviceEvent::Esp32ConnectionStatus { connected: false, .. }
    ));

    // The next tick reports nothing until a new datagram arrives.
    assert!(mgr.liveness_expired(late + 5_000).is_empty());
    assert!(mgr.liveness_expire_one("AA-BB-CC-DD-EE-01", late + 5_000).is_none());

    mgr.handle_message_unified("{\"a\":2}", "AA-BB-CC-DD-EE-01", &src, late + 6_000);
    assert!(mgr
        .liveness_expire_one("AA-BB-CC-DD-EE-01", late + 6_000 + 11_000)
        .is_some());
}

#[test]
fn serial_frame_routes_by_its_device_field() {
    let mut mgr = manager();
    let (device_id, out) = mgr
        .handle_uart_frame("{\"device_id\":\"esp32-07\",\"ledDelay\":250,\"min\":0,\"max\":1000}", 5_000)
        .unwrap();
    assert_eq!(device_id, "esp32-07");
    // A first-seen serial device announces itself on the system stream.
    let system_events = mgr.device_store.get_device_events("system");
    assert_eq!(system_events.len(), 1);
    assert!(matches!(system_events[0], DeviceEvent::Esp32DeviceDiscovered { .. }));
    // The stripped payload went through ingress under the serial source.
    assert!(out
        .iter()
        .any(|m| matches!(m.event, DeviceEvent::Esp32ConnectionStatus { connected: true, .. })));
    let events = mgr.device_store.get_device_events("esp32-07");
    assert!(events.iter().any(|e| match e {
        DeviceEvent::Esp32VariableUpdate { variable_name, variable_value, min, max, .. } =>
            variable_name == "ledDelay" && variable_value == "250"
                && *min == Some(0) && *max == Some(1000),
        _ => false,
    }));
    // The raw broadcast no longer names the routing field's device.
    assert!(events.iter().any(|e| match e {
        DeviceEvent::Esp32UdpBroadcast { message, .. } => !message.contains("device_id"),
        _ => false,
    }));
}

#[test]
fn websocket_command_is_decoded_stored_and_routed() {
    let mut mgr = manager();
    let tree = esp_gateway::json::parse_json("{\"setVariable\":{\"name\":\"x\",\"value\":9}}")
        .unwrap();
    let (cmd, out) = mgr
        .handle_websocket_command("AA-BB-CC-DD-EE-01", &tree, "alice", "tab-a")
        .unwrap();
    assert_eq!(cmd, esp_gateway::types::Esp32Command::set_variable("x".to_string(), 9));
    assert_eq!(out.len(), 1);
    assert!(matches!(out[0].event, DeviceEvent::Esp32Command { .. }));
    let bad = esp_gateway::json::parse_json("{\"unknown\":1}").unwrap();
    assert!(mgr.handle_websocket_command("AA-BB-CC-DD-EE-01", &bad, "alice", "tab-a").is_err());
}

#[test]
fn tcp_looking_datagrams_are_recognised() {
    assert!(Esp32Manager::is_tcp_message("{\"startOptions\":[\"blink\"]}"));
    assert!(Esp32Manager::is_tcp_message("  {\"reset\":true}"));
    assert!(!Esp32Manager::is_tcp_message("{\"a\":1}"));
    assert!(!Esp32Manager::is_tcp_message("\"startOptions\""));
    assert_eq!(
        Esp32Manager::extract_device_id_from_tcp_message("{\"reset\":true}"),
        Some("10-20-BA-42-71-E0".to_string())
    );
}

#[test]
fn remove_device_clears_registry_and_emits_disconnect() {
    let mut mgr = manager();
    mgr.add_device(config("AA-BB-CC-DD-EE-01", "192.168.1.50")).unwrap();
    let out = mgr.remove_device("AA-BB-CC-DD-EE-01").unwrap();
    assert_eq!(out.len(), 1);
    assert!(matches!(
        out[0].event,
        DeviceEvent::Esp32ConnectionStatus { connected: false, .. }
    ));
    assert!(mgr.get_device_config("AA-BB-CC-DD-EE-01").is_none());
    assert!(mgr.get_device_state("AA-BB-CC-DD-EE-01").is_none());
}
