//! End-to-end protocol paths: inbound event batches, transport event
//! normalisation, unregistration through the channel, and the trace lines.

use esp_gateway::channel::{handle_device_events, handle_unregister_for_device, CommandAction};
use esp_gateway::debuglog::DebugLogger;
use esp_gateway::events::{DeviceEvent, SubscriptionType};
use esp_gateway::manager::Esp32Manager;
use esp_gateway::store::DeviceEventStore;
use esp_gateway::types::{ConnectionState, Esp32Command, Esp32Event, Esp32Variable};

fn fresh_manager() -> Esp32Manager {
    Esp32Manager::new(DeviceEventStore::new())
}

#[test]
fn event_batch_routes_commands_and_stores_the_rest() {
    let mut mgr = fresh_manager();
    let registered = vec!["AA-BB-CC-DD-EE-01".to_string()];
    let events = vec![
        DeviceEvent::Esp32Command {
            device_id: "AA-BB-CC-DD-EE-01".to_string(),
            command: "{\"startOption\":\"blink\"}".to_string(),
        },
        DeviceEvent::DeviceStatusUpdate {
            status: "running".to_string(),
            ip_address: None,
            firmware_version: None,
        },
    ];
    let (out, actions) = handle_device_events(
        &mut mgr,
        "AA-BB-CC-DD-EE-01",
        events,
        "guest",
        "tab-a",
        &registered,
        false,
    )
    .unwrap();
    assert_eq!(actions.len(), 1);
    match &actions[0] {
        CommandAction::Tcp(cmd) => {
            assert_eq!(*cmd, Esp32Command::start_option("blink".to_string()));
        }
        other => panic!("expected a TCP routing, got {:?}", match other {
            CommandAction::Tcp(_) => "tcp",
            CommandAction::Uart { .. } => "uart",
        }),
    }
    // Both the command event and the status update were retained.
    let history = mgr.device_store.get_device_events("AA-BB-CC-DD-EE-01");
    assert_eq!(history.len(), 2);
    assert!(out.len() >= 2);
}

#[test]
fn event_batch_requires_registration() {
    let mut mgr = fresh_manager();
    let registered: Vec<String> = Vec::new();
    let r = handle_device_events(
        &mut mgr,
        "AA-BB-CC-DD-EE-01",
        Vec::new(),
        "guest",
        "tab-a",
        &registered,
        false,
    );
    assert!(r.is_err());
}

#[test]
fn unregister_clears_the_registered_list() {
    let mut mgr = fresh_manager();
    mgr.device_store.register_client(
        "dev-1".to_string(),
        "alice".to_string(),
        "Alice".to_string(),
        "tab-a".to_string(),
        SubscriptionType::Full,
    );
    let mut registered = vec!["dev-1".to_string(), "dev-2".to_string()];
    let outcome = handle_unregister_for_device(&mut mgr, "dev-1", "tab-a", &mut registered);
    assert!(outcome.emitted.is_some());
    assert_eq!(registered, vec!["dev-2".to_string()]);
    assert_eq!(mgr.device_store.get_connection_count("dev-1"), 0);
}

#[test]
fn transport_events_normalise_into_the_store() {
    let mut mgr = fresh_manager();
    let out = mgr
        .handle_esp32_event(
            "AA-BB-CC-DD-EE-01",
            Esp32Event::ChangeableVariables {
                variables: vec![Esp32Variable {
                    name: "speed".to_string(),
                    value: 4,
                    min: Some(0),
                    max: Some(9),
                }],
            },
        )
        .unwrap();
    assert_eq!(out.len(), 1);
    match &out[0].event {
        DeviceEvent::Esp32ChangeableVariables { variables, .. } => {
            assert_eq!(variables.len(), 1);
            assert_eq!(variables[0].name, "speed");
            assert_eq!(variables[0].value, 4);
        }
        other => panic!("expected changeable variables, got {:?}", other),
    }
    let out = mgr
        .handle_esp32_event(
            "AA-BB-CC-DD-EE-01",
            Esp32Event::connection_status(true, "192.168.1.50".to_string(), 3232, 3232),
        )
        .unwrap();
    assert!(matches!(
        out[0].event,
        DeviceEvent::Esp32ConnectionStatus { connected: true, .. }
    ));
    assert_eq!(mgr.device_store.get_event_count("AA-BB-CC-DD-EE-01"), 2);
    assert!(mgr.device_store.get_device_info("AA-BB-CC-DD-EE-01").is_empty());
}

#[test]
fn trace_lines_read_exactly() {
    assert_eq!(
        DebugLogger::log_device_add("dev-1"),
        "DEVICE_MANAGEMENT: ADD_DEVICE called for dev-1"
    );
    assert_eq!(
        DebugLogger::log_tcp_command_failed("dev-1", "Reset", "broken pipe"),
        "TCP_COMMAND: FAILED to send command 'Reset' to device dev-1: broken pipe"
    );
    assert_eq!(
        DebugLogger::log_tcp_reconnect_result("dev-1", false, Some("timed out")),
        "TCP_RECONNECT: RESULT for device dev-1: FAILED - error: timed out"
    );
    assert_eq!(
        DebugLogger::log_reset_attempt("dev-1", 3),
        "RESET_ATTEMPT_3: Device dev-1 - Reset command initiated"
    );
    assert_eq!(
        DebugLogger::log_esp32_connection_event_send("dev-1", true, false, None),
        "ESP32_CONNECTION: EVENT_SEND FAILED for device dev-1 (channel_closed: true)"
    );
    assert_eq!(
        DebugLogger::log_event("UDP", "listener started"),
        "UDP: listener started"
    );
}

#[test]
fn negative_and_textual_numbers_read_as_their_text() {
    let tree = esp_gateway::json::parse_json("{\"t\":-7,\"min\":0}").unwrap();
    let events = esp_gateway::parser::parse_structured(&tree, "dev-1");
    assert!(events.iter().any(|e| match e {
        DeviceEvent::Esp32VariableUpdate { variable_name, variable_value, .. } =>
            variable_name == "t" && variable_value == "-7",
        _ => false,
    }));
    let tree = esp_gateway::json::parse_json("{\"f\":1.5,\"max\":9}").unwrap();
    let events = esp_gateway::parser::parse_structured(&tree, "dev-1");
    assert!(events.iter().any(|e| match e {
        DeviceEvent::Esp32VariableUpdate { variable_name, variable_value, .. } =>
            variable_name == "f" && variable_value == "1.5",
        _ => false,
    }));
}

#[test]
fn uart_settings_default_matches_the_line_speed() {
    let settings = esp_gateway::types::UartSettings::default();
    assert_eq!(settings.baud_rate, 115200);
    assert!(settings.port.is_empty());
}

#[test]
fn connection_state_queries() {
    assert!(ConnectionState::Connected.is_connected());
    assert!(!ConnectionState::Connected.is_connecting());
    assert!(ConnectionState::Connecting.is_connecting());
    assert!(!ConnectionState::Disconnected.is_connected());
    assert!(!ConnectionState::Failed("x".to_string()).is_connected());
}
