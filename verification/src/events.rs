//! The event vocabulary shared by the store and the subscriber channel, with
//! the validation rule applied before an event is retained.

use vstd::prelude::*;

verus! {

/// What a subscriber asked to receive: presence only, or everything.
#[derive(Debug, Clone, PartialEq, Eq, Structural)]
pub enum SubscriptionType {
    /// Connection status events only.
    Light,
    /// All events.
    Full,
}

impl Default for SubscriptionType {
    fn default() -> (r: Self)
        ensures
            r == SubscriptionType::Full,
    {
        SubscriptionType::Full
    }
}

/// A changeable variable carried inside an event, with its optional range.
#[derive(Debug, Clone, PartialEq)]
#[verifier::ext_equal]
pub struct ChangeableVariable {
    pub name: String,
    pub value: u64,
    pub min: Option<u64>,
    pub max: Option<u64>,
}

/// An event on a device's stream. Free-form JSON payloads are carried as
/// their rendered text.
#[derive(Debug, Clone, PartialEq)]
#[verifier::ext_equal]
pub enum DeviceEvent {
    DeviceCommand { command: String, parameters: Option<String> },
    DeviceStatusUpdate {
        status: String,
        ip_address: Option<String>,
        firmware_version: Option<String>,
    },
    DeviceConfigUpdate { config: String },
    DeviceSensorData { sensor: String, value: String, timestamp: i64 },
    UserJoined { user_id: String, display_name: String, user_color: String },
    UserLeft { user_id: String, display_name: String, user_color: String },
    Esp32Command { device_id: String, command: String },
    Esp32VariableUpdate {
        device_id: String,
        variable_name: String,
        variable_value: String,
        min: Option<u64>,
        max: Option<u64>,
    },
    Esp32StartOptions { device_id: String, options: Vec<String> },
    Esp32ChangeableVariables { device_id: String, variables: Vec<ChangeableVariable> },
    Esp32UdpBroadcast { device_id: String, message: String, from_ip: String, from_port: u16 },
    Esp32ConnectionStatus {
        device_id: String,
        connected: bool,
        device_ip: String,
        tcp_port: u16,
        udp_port: u16,
    },
    Esp32DeviceInfo {
        device_id: String,
        device_name: Option<String>,
        firmware_version: Option<String>,
        uptime: Option<u64>,
    },
    Esp32DeviceDiscovered {
        device_id: String,
        device_ip: String,
        tcp_port: u16,
        udp_port: u16,
        discovered_at: String,
        mac_address: Option<String>,
        mdns_hostname: Option<String>,
    },
}

/// The validation rule: the fields an event kind requires are non-empty.
pub open spec fn event_valid(e: DeviceEvent) -> bool {
    match e {
        DeviceEvent::DeviceCommand { command, .. } => command@.len() > 0,
        DeviceEvent::DeviceStatusUpdate { status, .. } => status@.len() > 0,
        DeviceEvent::DeviceConfigUpdate { .. } => true,
        DeviceEvent::DeviceSensorData { sensor, .. } => sensor@.len() > 0,
        DeviceEvent::UserJoined { user_id, display_name, user_color } =>
            user_id@.len() > 0 && display_name@.len() > 0 && user_color@.len() > 0,
        DeviceEvent::UserLeft { user_id, display_name, user_color } =>
            user_id@.len() > 0 && display_name@.len() > 0 && user_color@.len() > 0,
        DeviceEvent::Esp32Command { device_id, .. } => device_id@.len() > 0,
        DeviceEvent::Esp32VariableUpdate { device_id, variable_name, .. } =>
            device_id@.len() > 0 && variable_name@.len() > 0,
        DeviceEvent::Esp32StartOptions { device_id, .. } => device_id@.len() > 0,
        DeviceEvent::Esp32ChangeableVariables { device_id, .. } => device_id@.len() > 0,
        DeviceEvent::Esp32UdpBroadcast { device_id, .. } => device_id@.len() > 0,
        DeviceEvent::Esp32ConnectionStatus { device_id, .. } => device_id@.len() > 0,
        DeviceEvent::Esp32DeviceInfo { device_id, .. } => device_id@.len() > 0,
        DeviceEvent::Esp32DeviceDiscovered { device_id, device_ip, .. } =>
            device_id@.len() > 0 && device_ip@.len() > 0,
    }
}

/// Whether an event is raw telemetry, the only kind the retention cap
/// applies to.
pub open spec fn is_raw_broadcast(e: DeviceEvent) -> bool {
    e is Esp32UdpBroadcast
}

/// Whether an event reports a connection status change, the only kind a
/// `Light` subscriber receives.
pub open spec fn is_connection_status(e: DeviceEvent) -> bool {
    e is Esp32ConnectionStatus
}

impl DeviceEvent {
    /// Check the fields this event kind requires; the error names the kind.
    pub fn validate(&self) -> (r: Result<(), String>)
        ensures
            r is Ok <==> event_valid(*self),
    {
        match self {
            DeviceEvent::DeviceCommand { command, .. } => {
                if command.as_str().is_empty() {
                    Err("DeviceCommand requires non-empty command".to_owned())
                } else {
                    Ok(())
                }
            }
            DeviceEvent::DeviceStatusUpdate { status, .. } => {
                if status.as_str().is_empty() {
                    Err("DeviceStatusUpdate requires non-empty status".to_owned())
                } else {
                    Ok(())
                }
            }
            DeviceEvent::DeviceConfigUpdate { .. } => Ok(()),
            DeviceEvent::DeviceSensorData { sensor, .. } => {
                if sensor.as_str().is_empty() {
                    Err("DeviceSensorData requires non-empty sensor name".to_owned())
                } else {
                    Ok(())
                }
            }
            DeviceEvent::UserJoined { user_id, display_name, user_color } => {
                if user_id.as_str().is_empty() || display_name.as_str().is_empty()
                    || user_color.as_str().is_empty() {
                    Err("UserJoined requires non-empty user_id, display_name, and user_color"
                        .to_owned())
                } else {
                    Ok(())
                }
            }
            DeviceEvent::UserLeft { user_id, display_name, user_color } => {
                if user_id.as_str().is_empty() || display_name.as_str().is_empty()
                    || user_color.as_str().is_empty() {
                    Err("UserLeft requires non-empty user_id, display_name, and user_color"
                        .to_owned())
                } else {
                    Ok(())
                }
            }
            DeviceEvent::Esp32Command { device_id, .. } => {
                if device_id.as_str().is_empty() {
                    Err("Esp32Command requires non-empty device_id".to_owned())
                } else {
                    Ok(())
                }
            }
            DeviceEvent::Esp32VariableUpdate { device_id, variable_name, .. } => {
                if device_id.as_str().is_empty() || variable_name.as_str().is_empty() {
                    Err("Esp32VariableUpdate requires non-empty device_id and variable_name"
                        .to_owned())
                } else {
                    Ok(())
                }
            }
            DeviceEvent::Esp32StartOptions { device_id, .. } => {
                if device_id.as_str().is_empty() {
                    Err("Esp32StartOptions requires non-empty device_id".to_owned())
                } else {
                    Ok(())
                }
            }
            DeviceEvent::Esp32ChangeableVariables { device_id, .. } => {
                if device_id.as_str().is_empty() {
                    Err("Esp32ChangeableVariables requires non-empty device_id".to_owned())
                } else {
                    Ok(())
                }
            }
            DeviceEvent::Esp32UdpBroadcast { device_id, .. } => {
                if device_id.as_str().is_empty() {
                    Err("Esp32UdpBroadcast requires non-empty device_id".to_owned())
                } else {
                    Ok(())
                }
            }
            DeviceEvent::Esp32ConnectionStatus { device_id, .. } => {
                if device_id.as_str().is_empty() {
                    Err("Esp32ConnectionStatus requires non-empty device_id".to_owned())
                } else {
                    Ok(())
                }
            }
            DeviceEvent::Esp32DeviceInfo { device_id, .. } => {
                if device_id.as_str().is_empty() {
                    Err("Esp32DeviceInfo requires non-empty device_id".to_owned())
                } else {
                    Ok(())
                }
            }
            DeviceEvent::Esp32DeviceDiscovered { device_id, device_ip, .. } => {
                if device_id.as_str().is_empty() || device_ip.as_str().is_empty() {
                    Err("Esp32DeviceDiscovered requires non-empty device_id and device_ip"
                        .to_owned())
                } else {
                    Ok(())
                }
            }
        }
    }

    /// Whether this event is raw telemetry.
    pub fn is_raw(&self) -> (r: bool)
        ensures
            r == is_raw_broadcast(*self),
    {
        match self {
            DeviceEvent::Esp32UdpBroadcast { .. } => true,
            _ => false,
        }
    }

    /// Whether this event reports a connection status change.
    pub fn is_status(&self) -> (r: bool)
        ensures
            r == is_connection_status(*self),
    {
        match self {
            DeviceEvent::Esp32ConnectionStatus { .. } => true,
            _ => false,
        }
    }
}

/// Copy an optional string; the derived clone carries no contract, this does.
pub fn dup_opt_string(o: &Option<String>) -> (r: Option<String>)
    ensures
        r == *o,
{
    match o {
        Some(s) => Some(s.clone()),
        None => None,
    }
}

/// Copy a string list.
pub fn dup_vec_string(v: &Vec<String>) -> (r: Vec<String>)
    ensures
        r@ == v@,
{
    let mut out: Vec<String> = Vec::new();
    let mut i: usize = 0;
    while i < v.len()
        invariant
            i <= v@.len(),
            out@ =~= v@.take(i as int),
        decreases v@.len() - i,
    {
        out.push(v[i].clone());
        assert(out@ =~= v@.take(i + 1));
        i += 1;
    }
    assert(out@ =~= v@);
    out
}

/// Copy a changeable-variable list.
pub fn dup_vec_vars(v: &Vec<ChangeableVariable>) -> (r: Vec<ChangeableVariable>)
    ensures
        r@ == v@,
{
    let mut out: Vec<ChangeableVariable> = Vec::new();
    let mut i: usize = 0;
    while i < v.len()
        invariant
            i <= v@.len(),
            out@ =~= v@.take(i as int),
        decreases v@.len() - i,
    {
        let cv = &v[i];
        out.push(ChangeableVariable {
            name: cv.name.clone(),
            value: cv.value,
            min: cv.min,
            max: cv.max,
        });
        assert(out@ =~= v@.take(i + 1));
        i += 1;
    }
    assert(out@ =~= v@);
    out
}

/// Event equality up to list contents: rebuilt lists compare by their
/// elements. Verus does not equate two list values with equal contents, so a
/// copied event satisfies this relation rather than plain equality.
pub open spec fn same_event(a: DeviceEvent, b: DeviceEvent) -> bool {
    match (a, b) {
        (
            DeviceEvent::Esp32StartOptions { device_id: d1, options: o1 },
            DeviceEvent::Esp32StartOptions { device_id: d2, options: o2 },
        ) => d1 == d2 && o1@ == o2@,
        (
            DeviceEvent::Esp32ChangeableVariables { device_id: d1, variables: v1 },
            DeviceEvent::Esp32ChangeableVariables { device_id: d2, variables: v2 },
        ) => d1 == d2 && v1@ == v2@,
        _ => a == b,
    }
}

/// Pointwise `same_event` over two event runs.
pub open spec fn same_events(a: Seq<DeviceEvent>, b: Seq<DeviceEvent>) -> bool {
    a.len() == b.len() && forall|i: int| 0 <= i < a.len() ==> same_event(a[i], b[i])
}

impl DeviceEvent {
    /// A copy of the event, equal to the original up to list contents.
    pub fn duplicate(&self) -> (r: Self)
        ensures
            same_event(r, *self),
    {
        match self {
            DeviceEvent::DeviceCommand { command, parameters } => DeviceEvent::DeviceCommand {
                command: command.clone(),
                parameters: dup_opt_string(parameters),
            },
            DeviceEvent::DeviceStatusUpdate { status, ip_address, firmware_version } =>
                DeviceEvent::DeviceStatusUpdate {
                    status: status.clone(),
                    ip_address: dup_opt_string(ip_address),
                    firmware_version: dup_opt_string(firmware_version),
                },
            DeviceEvent::DeviceConfigUpdate { config } => DeviceEvent::DeviceConfigUpdate {
                config: config.clone(),
            },
            DeviceEvent::DeviceSensorData { sensor, value, timestamp } =>
                DeviceEvent::DeviceSensorData {
                    sensor: sensor.clone(),
                    value: value.clone(),
                    timestamp: *timestamp,
                },
            DeviceEvent::UserJoined { user_id, display_name, user_color } =>
                DeviceEvent::UserJoined {
                    user_id: user_id.clone(),
                    display_name: display_name.clone(),
                    user_color: user_color.clone(),
                },
            DeviceEvent::UserLeft { user_id, display_name, user_color } =>
                DeviceEvent::UserLeft {
                    user_id: user_id.clone(),
                    display_name: display_name.clone(),
                    user_color: user_color.clone(),
                },
            DeviceEvent::Esp32Command { device_id, command } => DeviceEvent::Esp32Command {
                device_id: device_id.clone(),
                command: command.clone(),
            },
            DeviceEvent::Esp32VariableUpdate {
                device_id, variable_name, variable_value, min, max,
            } => DeviceEvent::Esp32VariableUpdate {
                device_id: device_id.clone(),
                variable_name: variable_name.clone(),
                variable_value: variable_value.clone(),
                min: *min,
                max: *max,
            },
            DeviceEvent::Esp32StartOptions { device_id, options } =>
                DeviceEvent::Esp32StartOptions {
                    device_id: device_id.clone(),
                    options: dup_vec_string(options),
                },
            DeviceEvent::Esp32ChangeableVariables { device_id, variables } =>
                DeviceEvent::Esp32ChangeableVariables {
                    device_id: device_id.clone(),
                    variables: dup_vec_vars(variables),
                },
            DeviceEvent::Esp32UdpBroadcast { device_id, message, from_ip, from_port } =>
                DeviceEvent::Esp32UdpBroadcast {
                    device_id: device_id.clone(),
                    message: message.clone(),
                    from_ip: from_ip.clone(),
                    from_port: *from_port,
                },
            DeviceEvent::Esp32ConnectionStatus {
                device_id, connected, device_ip, tcp_port, udp_port,
            } => DeviceEvent::Esp32ConnectionStatus {
                device_id: device_id.clone(),
                connected: *connected,
                device_ip: device_ip.clone(),
                tcp_port: *tcp_port,
                udp_port: *udp_port,
            },
            DeviceEvent::Esp32DeviceInfo { device_id, device_name, firmware_version, uptime } =>
                DeviceEvent::Esp32DeviceInfo {
                    device_id: device_id.clone(),
                    device_name: dup_opt_string(device_name),
                    firmware_version: dup_opt_string(firmware_version),
                    uptime: *uptime,
                },
            DeviceEvent::Esp32DeviceDiscovered {
                device_id, device_ip, tcp_port, udp_port, discovered_at, mac_address,
                mdns_hostname,
            } => DeviceEvent::Esp32DeviceDiscovered {
                device_id: device_id.clone(),
                device_ip: device_ip.clone(),
                tcp_port: *tcp_port,
                udp_port: *udp_port,
                discovered_at: discovered_at.clone(),
                mac_address: dup_opt_string(mac_address),
                mdns_hostname: dup_opt_string(mdns_hostname),
            },
        }
    }
}

/// Outside the two list-carrying kinds, the copy relation is equality.
pub proof fn lemma_same_event_plain(a: DeviceEvent, b: DeviceEvent)
    requires
        same_event(a, b),
        !(b is Esp32StartOptions),
        !(b is Esp32ChangeableVariables),
    ensures
        a == b,
{
}

/// A copy equal up to list contents keeps its variant.
pub proof fn lemma_same_event_variant(a: DeviceEvent, b: DeviceEvent)
    requires
        same_event(b, a),
    ensures
        (a is Esp32StartOptions) == (b is Esp32StartOptions),
        (a is Esp32VariableUpdate) == (b is Esp32VariableUpdate),
        (a is Esp32ChangeableVariables) == (b is Esp32ChangeableVariables),
        (a is Esp32UdpBroadcast) == (b is Esp32UdpBroadcast),
        (a is Esp32ConnectionStatus) == (b is Esp32ConnectionStatus),
        (a is Esp32DeviceInfo) == (b is Esp32DeviceInfo),
{
}

/// A stored event with its metadata.
#[derive(Debug, Clone, PartialEq)]
pub struct EventWithMetadata {
    pub event: DeviceEvent,
    pub id: String,
    pub timestamp: i64,
    pub user_id: String,
    pub is_replay: Option<bool>,
}

/// A message from a subscriber.
#[derive(Debug, Clone, PartialEq)]
pub enum ClientMessage {
    RegisterForDevice { device_id: String, subscription_type: SubscriptionType },
    UnregisterForDevice { device_id: String },
    DeviceEvent { device_id: String, events_for_device: Vec<DeviceEvent> },
    /// A heartbeat, answered with a pong carrying the same timestamp.
    Ping { timestamp: Option<u64> },
}

/// A message to a subscriber.
#[derive(Debug, Clone, PartialEq)]
pub enum ServerMessage {
    DeviceEvents { device_id: String, events_for_device: Vec<DeviceEvent> },
    Pong { message_type: String, timestamp: Option<u64> },
}

impl ServerMessage {
    pub fn pong(timestamp: Option<u64>) -> (r: Self)
        ensures
            r matches ServerMessage::Pong { message_type, timestamp: t }
                && message_type@ == "pong"@ && t == timestamp,
    {
        ServerMessage::Pong { message_type: "pong".to_owned(), timestamp }
    }

    pub fn device_events(device_id: String, events_for_device: Vec<DeviceEvent>) -> (r: Self)
        ensures
            r == (ServerMessage::DeviceEvents { device_id, events_for_device }),
    {
        ServerMessage::DeviceEvents { device_id, events_for_device }
    }
}

} // verus!
