//! The subscriber channel: device-id shapes, the permission rules, message
//! parsing and rendering, payload parsing, and the discovery rules.

use esp_gateway::channel::{
    handle_register_for_device, is_mac_address_format, is_mac_key_format, is_stm32_uid_format,
    parse_client_message, register_permission, server_message_text, write_permission,
    RegisterAction,
};
use esp_gateway::discovery::{is_esp32_device, mac_to_dash, process_discovered, DiscoveryCache,
    DiscoveredEsp32Device, MdnsEsp32Device};
use esp_gateway::events::{ClientMessage, DeviceEvent, ServerMessage, SubscriptionType};
use esp_gateway::manager::Esp32Manager;
use esp_gateway::store::DeviceEventStore;

#[test]
fn device_id_shapes() {
    assert!(is_mac_address_format("AA:BB:CC:DD:EE:01"));
    assert!(!is_mac_address_format("AA-BB-CC-DD-EE-01"));
    assert!(!is_mac_address_format("AA:BB:CC:DD:EE:0"));
    assert!(!is_mac_address_format("GG:BB:CC:DD:EE:01"));
    assert!(is_mac_key_format("AA-BB-CC-DD-EE-01"));
    assert!(!is_mac_key_format("AA:BB:CC:DD:EE:01"));
    assert!(is_stm32_uid_format("0123456789abcdef01234567"));
    assert!(!is_stm32_uid_format("0123456789abcdef0123456"));
    assert!(!is_stm32_uid_format("0123456789abcdef0123456z"));
}

#[test]
fn permission_rules() {
    assert_eq!(register_permission("guest", "anything"), Some(true));
    assert_eq!(register_permission("alice", "system"), Some(true));
    assert_eq!(register_permission("alice", "esp32-07"), Some(true));
    assert_eq!(register_permission("alice", "AA-BB-CC-DD-EE-01"), Some(true));
    assert_eq!(register_permission("alice", "AA:BB:CC:DD:EE:01"), Some(true));
    assert_eq!(register_permission("alice", "0123456789abcdef01234567"), Some(true));
    assert_eq!(register_permission("alice", "some-db-device"), None);
    assert_eq!(write_permission("alice", "system"), None, "writes need a grade");
    assert_eq!(write_permission("guest", "system"), Some(true));
}

#[test]
fn client_messages_parse() {
    match parse_client_message("{\"type\":\"ping\",\"timestamp\":42}").unwrap() {
        ClientMessage::Ping { timestamp } => assert_eq!(timestamp, Some(42)),
        other => panic!("expected a ping, got {:?}", other),
    }
    match parse_client_message(
        "{\"type\":\"registerForDevice\",\"deviceId\":\"AA-BB-CC-DD-EE-01\",\"subscriptionType\":\"light\"}",
    )
    .unwrap()
    {
        ClientMessage::RegisterForDevice { device_id, subscription_type } => {
            assert_eq!(device_id, "AA-BB-CC-DD-EE-01");
            assert_eq!(subscription_type, SubscriptionType::Light);
        }
        other => panic!("expected a registration, got {:?}", other),
    }
    match parse_client_message(
        "{\"type\":\"registerForDevice\",\"deviceId\":\"AA-BB-CC-DD-EE-01\"}",
    )
    .unwrap()
    {
        ClientMessage::RegisterForDevice { subscription_type, .. } => {
            assert_eq!(subscription_type, SubscriptionType::Full, "full is the default");
        }
        other => panic!("expected a registration, got {:?}", other),
    }
    match parse_client_message(
        "{\"type\":\"deviceEvent\",\"deviceId\":\"d\",\"eventsForDevice\":[{\"event\":\"esp32Command\",\"deviceId\":\"d\",\"command\":{\"reset\":true}}]}",
    )
    .unwrap()
    {
        ClientMessage::DeviceEvent { events_for_device, .. } => {
            assert_eq!(events_for_device.len(), 1);
            match &events_for_device[0] {
                DeviceEvent::Esp32Command { command, .. } => {
                    assert_eq!(command, "{\"reset\":true}");
                }
                other => panic!("expected a command event, got {:?}", other),
            }
        }
        other => panic!("expected an event batch, got {:?}", other),
    }
    assert!(parse_client_message("not json").is_err());
    assert!(parse_client_message("{\"type\":\"mystery\"}").is_err());
    // Ill-typed optional fields refuse the whole message.
    assert!(parse_client_message("{\"type\":\"ping\",\"timestamp\":\"soon\"}").is_err());
    assert!(parse_client_message(
        "{\"type\":\"registerForDevice\",\"deviceId\":\"d\",\"subscriptionType\":7}"
    )
    .is_err());
}

#[test]
fn server_messages_render() {
    let pong = server_message_text(&ServerMessage::pong(Some(7)));
    // Rendering orders keys alphabetically; the wire meaning is the same.
    assert_eq!(pong, "{\"timestamp\":7,\"type\":\"pong\"}");
    let batch = server_message_text(&ServerMessage::device_events(
        "AA-BB-CC-DD-EE-01".to_string(),
        vec![DeviceEvent::Esp32ConnectionStatus {
            device_id: "AA-BB-CC-DD-EE-01".to_string(),
            connected: true,
            device_ip: "192.168.1.50".to_string(),
            tcp_port: 3232,
            udp_port: 3232,
        }],
    ));
    assert_eq!(
        batch,
        "{\"deviceId\":\"AA-BB-CC-DD-EE-01\",\"eventsForDevice\":[{\"connected\":true,\"deviceId\":\"AA-BB-CC-DD-EE-01\",\"deviceIp\":\"192.168.1.50\",\"event\":\"esp32ConnectionStatus\",\"tcpPort\":3232,\"udpPort\":3232}]}"
    );
}

#[test]
fn structured_payloads_parse() {
    let tree = esp_gateway::json::parse_json(
        "{\"startOptions\":[\"blink\",\"fade\"],\"deviceName\":\"node\",\"uptime\":99}",
    )
    .unwrap();
    let events = esp_gateway::parser::parse_structured(&tree, "dev-1");
    assert_eq!(events.len(), 2);
    match &events[0] {
        DeviceEvent::Esp32StartOptions { options, .. } => {
            assert_eq!(options, &vec!["blink".to_string(), "fade".to_string()]);
        }
        other => panic!("expected start options, got {:?}", other),
    }
    match &events[1] {
        DeviceEvent::Esp32DeviceInfo { device_name, firmware_version, uptime, .. } => {
            assert_eq!(device_name.as_deref(), Some("node"));
            assert_eq!(firmware_version.as_deref(), Some("unknown"));
            assert_eq!(*uptime, Some(99));
        }
        other => panic!("expected device info, got {:?}", other),
    }

    let vars = esp_gateway::json::parse_json(
        "{\"changeableVariables\":[{\"name\":\"speed\",\"value\":5,\"min\":0,\"max\":10},{\"bad\":1}]}",
    )
    .unwrap();
    let events = esp_gateway::parser::parse_structured(&vars, "dev-1");
    assert_eq!(events.len(), 1);
    match &events[0] {
        DeviceEvent::Esp32ChangeableVariables { variables, .. } => {
            assert_eq!(variables.len(), 1, "a malformed entry is skipped");
            assert_eq!(variables[0].name, "speed");
            assert_eq!(variables[0].value, 5);
            assert_eq!(variables[0].min, Some(0));
            assert_eq!(variables[0].max, Some(10));
        }
        other => panic!("expected changeable variables, got {:?}", other),
    }
}

#[test]
fn fallback_scan_finds_bare_pairs() {
    let events = esp_gateway::parser::kv_fallback_events(
        "{\"ledBlinkDelay\":\"1000\"}{\"counter\":42}",
        "dev-1",
    );
    assert_eq!(events.len(), 2);
    match &events[0] {
        DeviceEvent::Esp32VariableUpdate { variable_name, variable_value, .. } => {
            assert_eq!(variable_name, "ledBlinkDelay");
            assert_eq!(variable_value, "1000");
        }
        other => panic!("expected a variable update, got {:?}", other),
    }
    match &events[1] {
        DeviceEvent::Esp32VariableUpdate { variable_name, variable_value, .. } => {
            assert_eq!(variable_name, "counter");
            assert_eq!(variable_value, "42");
        }
        other => panic!("expected a variable update, got {:?}", other),
    }
    // Reserved names stay with the structured pass.
    let skipped = esp_gateway::parser::kv_fallback_events("{\"uptime\":42}", "dev-1");
    assert!(skipped.is_empty());
}

#[test]
fn discovery_rules_accept_edge_nodes_and_reject_the_gateway() {
    let txt = vec![("mac".to_string(), "AA:BB:CC:DD:EE:01".to_string())];
    assert!(is_esp32_device("esp32-abc.local.", &txt, "http"));
    assert!(is_esp32_device("strange-host.local.", &txt, "arduino"));
    assert!(!is_esp32_device("esp-server.local.", &txt, "http"), "never the gateway itself");
    let no_mac: Vec<(String, String)> = Vec::new();
    assert!(!is_esp32_device("esp32-abc.local.", &no_mac, "arduino"), "a MAC is required");
    let maker = vec![
        ("mac".to_string(), "AA:BB:CC:DD:EE:01".to_string()),
        ("vendor".to_string(), "Espressif Inc".to_string()),
    ];
    assert!(is_esp32_device("plain-name.local.", &maker, "http"));
}

#[test]
fn discovery_canonicalises_and_announces_once() {
    assert_eq!(mac_to_dash("AA:BB:CC:DD:EE:01"), "AA-BB-CC-DD-EE-01");
    let device = MdnsEsp32Device {
        hostname: "esp32-abc.local.".to_string(),
        ip_addresses: vec!["192.168.1.50".to_string()],
        port: 3232,
        txt_records: vec![("mac".to_string(), "AA:BB:CC:DD:EE:01".to_string())],
        service_name: "_http._tcp.local.".to_string(),
    };
    let (device_id, config, event) = process_discovered(&device, "now".to_string());
    assert_eq!(device_id, "AA-BB-CC-DD-EE-01");
    assert_eq!(config.device_id, "AA-BB-CC-DD-EE-01");
    assert_eq!(config.ip_address, "192.168.1.50");
    match &event {
        DeviceEvent::Esp32DeviceDiscovered { device_ip, tcp_port, udp_port, mac_address, .. } => {
            assert_eq!(device_ip, "192.168.1.50");
            assert_eq!(*tcp_port, 3232);
            assert_eq!(*udp_port, 3232);
            assert_eq!(mac_address.as_deref(), Some("AA:BB:CC:DD:EE:01"));
        }
        other => panic!("expected an announcement, got {:?}", other),
    }

    let mut cache = DiscoveryCache::new();
    let entry = DiscoveredEsp32Device {
        device_config: config.duplicate(),
        discovered_at: "now".to_string(),
        udp_port: 3232,
    };
    assert!(cache.observe(device_id.clone(), entry), "the first sighting is new");
    let entry2 = DiscoveredEsp32Device {
        device_config: config,
        discovered_at: "later".to_string(),
        udp_port: 3232,
    };
    assert!(!cache.observe(device_id, entry2), "a repeat only refreshes");
}

#[test]
fn full_registration_asks_for_a_dial_and_replays_history() {
    let mut mgr = Esp32Manager::new(DeviceEventStore::new());
    // Discovery already announced the device on the system stream.
    let device = MdnsEsp32Device {
        hostname: "esp32-abc.local.".to_string(),
        ip_addresses: vec!["192.168.1.50".to_string()],
        port: 3232,
        txt_records: vec![("mac".to_string(), "AA:BB:CC:DD:EE:01".to_string())],
        service_name: "_http._tcp.local.".to_string(),
    };
    let (device_id, config, event) = process_discovered(&device, "now".to_string());
    mgr.device_store
        .add_event("system".to_string(), event, "esp32_system".to_string(), "mdns".to_string())
        .unwrap();

    // A subscriber watching the system stream replays the announcement.
    let sys = handle_register_for_device(
        &mut mgr, "system", "alice", "Alice", "tab-sys", SubscriptionType::Full, false, None,
    )
    .unwrap();
    assert!(sys
        .replay
        .iter()
        .any(|e| matches!(e, DeviceEvent::Esp32DeviceDiscovered { .. })));

    // A full registration for the device itself asks for a dial.
    let handled = handle_register_for_device(
        &mut mgr,
        &device_id,
        "alice",
        "Alice",
        "tab-a",
        SubscriptionType::Full,
        false,
        Some(config),
    )
    .unwrap();
    assert!(matches!(handled.action, RegisterAction::ConnectDevice));
    assert!(mgr.get_device_config(&device_id).is_some(), "the device was added");
    let out = mgr
        .connect_device_finish(&device_id, true, false, String::new(), 1_000)
        .unwrap();
    assert!(matches!(
        out[0].event,
        DeviceEvent::Esp32ConnectionStatus { connected: true, .. }
    ));

    // An unknown user on an unshaped device is refused.
    let denied = handle_register_for_device(
        &mut mgr, "plain-device", "alice", "Alice", "tab-a", SubscriptionType::Full, false, None,
    );
    assert!(denied.is_err());
}

#[test]
fn client_ids_are_distinct_per_attach() {
    let a = esp_gateway::channel::generate_client_id("alice@example.com");
    let b = esp_gateway::channel::generate_client_id("alice@example.com");
    assert!(a.starts_with("client-"));
    assert_ne!(a, b, "two attaches of one user stay distinct");
    let hash_a: Vec<&str> = a.split('-').collect();
    let hash_b: Vec<&str> = b.split('-').collect();
    assert_eq!(hash_a[1], hash_b[1], "the user grouping hash is stable");
}

#[test]
fn uart_json_framing_replaces_a_prior_routing_field() {
    let tree = esp_gateway::json::parse_json(
        "{\"device_id\":\"stale\",\"startOption\":\"blink\"}",
    )
    .unwrap();
    let frame = esp_gateway::uart::frame_uart_json(tree, "esp32-07").unwrap();
    let body = String::from_utf8(frame[1..frame.len() - 1].to_vec()).unwrap();
    assert_eq!(body, "{\"device_id\":\"esp32-07\",\"startOption\":\"blink\"}");
    let bad = esp_gateway::json::parse_json("[1,2]").unwrap();
    assert!(esp_gateway::uart::frame_uart_json(bad, "esp32-07").is_err());
}

#[test]
fn uart_commands_are_framed_with_their_target() {
    let cmd = esp_gateway::types::Esp32Command::reset();
    let frame = esp_gateway::uart::frame_uart_command(&cmd, "esp32-07");
    assert_eq!(frame[0], 0x02);
    assert_eq!(*frame.last().unwrap(), 0x03);
    let body = String::from_utf8(frame[1..frame.len() - 1].to_vec()).unwrap();
    assert_eq!(body, "{\"device_id\":\"esp32-07\",\"reset\":true}");
}

#[test]
fn the_gateway_advertises_itself() {
    let ad = esp_gateway::discovery::gateway_advertisement(8080);
    assert_eq!(ad.service_type, "_http._tcp.local.");
    assert_eq!(ad.instance_name, "esp-server");
    assert_eq!(ad.hostname, "esp-server.local.");
    assert_eq!(ad.port, 8080);
    assert_eq!(
        ad.txt_records,
        vec![
            ("version".to_string(), "1.0".to_string()),
            ("path".to_string(), "/".to_string()),
            ("type".to_string(), "esp32-manager".to_string()),
            ("protocol".to_string(), "http".to_string()),
        ]
    );
}
