//! Core types of the gateway: commands, transport events, device
//! configuration, connection state and the error taxonomy.

use vstd::prelude::*;

verus! {

/// A command sent to an edge node.
#[derive(Debug, Clone, PartialEq)]
pub enum Esp32Command {
    /// Set a variable value on the node.
    SetVariable { name: String, value: u32 },
    /// Ask the node to run one of its start options.
    StartOption { start_option: String },
    /// Ask the node to reset itself.
    Reset { reset: bool },
    /// Ask the node for its current status.
    GetStatus,
}

impl Esp32Command {
    pub fn set_variable(name: String, value: u32) -> (r: Self)
        ensures
            r == (Esp32Command::SetVariable { name, value }),
    {
        Esp32Command::SetVariable { name, value }
    }

    pub fn start_option(option: String) -> (r: Self)
        ensures
            r == (Esp32Command::StartOption { start_option: option }),
    {
        Esp32Command::StartOption { start_option: option }
    }

    pub fn reset() -> (r: Self)
        ensures
            r == (Esp32Command::Reset { reset: true }),
    {
        Esp32Command::Reset { reset: true }
    }

    pub fn get_status() -> (r: Self)
        ensures
            r == Esp32Command::GetStatus,
    {
        Esp32Command::GetStatus
    }

    /// Whether this is the reset command, whose transport errors are
    /// deliberately forgiven.
    pub fn is_reset(&self) -> (r: bool)
        ensures
            r == (self is Reset),
    {
        match self {
            Esp32Command::Reset { .. } => true,
            _ => false,
        }
    }
}

/// An event received from an edge node, before it is normalised into the
/// store's vocabulary.
#[derive(Debug, Clone, PartialEq)]
pub enum Esp32Event {
    VariableUpdate { name: String, value: String },
    StartOptions { options: Vec<String> },
    ChangeableVariables { variables: Vec<Esp32Variable> },
    UdpBroadcast { message: String, from_ip: String, from_port: u16 },
    ConnectionStatus { connected: bool, device_ip: String, tcp_port: u16, udp_port: u16 },
    DeviceInfo {
        device_id: String,
        device_name: Option<String>,
        firmware_version: Option<String>,
        uptime: Option<u64>,
    },
}

impl Esp32Event {
    pub fn connection_status(connected: bool, device_ip: String, tcp_port: u16, udp_port: u16) -> (r: Self)
        ensures
            r == (Esp32Event::ConnectionStatus { connected, device_ip, tcp_port, udp_port }),
    {
        Esp32Event::ConnectionStatus { connected, device_ip, tcp_port, udp_port }
    }
}

/// A changeable variable as an edge node reports it.
#[derive(Debug, Clone, PartialEq)]
pub struct Esp32Variable {
    pub name: String,
    pub value: u32,
    pub min: Option<u32>,
    pub max: Option<u32>,
}

/// How a device is attached: over UDP (keyed by its MAC address), over a
/// serial line, or over TCP.
#[derive(Debug, Clone, PartialEq)]
pub enum DeviceSource {
    Udp { mac_address: String },
    Uart,
    Tcp,
}

/// One device's configuration. The address is meaningless for serial devices
/// and is held as the placeholder `0.0.0.0`.
#[derive(Debug, Clone)]
pub struct Esp32DeviceConfig {
    pub device_id: String,
    pub device_name: String,
    pub ip_address: String,
    pub tcp_port: u16,
    pub udp_port: u16,
    pub auto_connect: bool,
    pub auto_start_option: Option<String>,
    pub udp_timeout_seconds: u64,
    pub device_source: DeviceSource,
}

impl Esp32DeviceConfig {
    pub fn new(device_id: String, ip_address: String, tcp_port: u16, udp_port: u16) -> (r: Self)
        ensures
            r.device_id == device_id,
            r.device_name == device_id,
            r.ip_address == ip_address,
            r.tcp_port == tcp_port,
            r.udp_port == udp_port,
            r.auto_connect == false,
            r.auto_start_option is None,
            r.udp_timeout_seconds == 10,
            r.device_source == DeviceSource::Tcp,
    {
        Esp32DeviceConfig {
            device_name: device_id.clone(),
            device_id,
            ip_address,
            tcp_port,
            udp_port,
            auto_connect: false,
            auto_start_option: None,
            udp_timeout_seconds: 10,
            device_source: DeviceSource::Tcp,
        }
    }

    /// A serial device: no network address, a longer silence budget.
    pub fn new_uart(device_id: String) -> (r: Self)
        ensures
            r.device_id == device_id,
            r.device_name == device_id,
            r.ip_address@ == "0.0.0.0"@,
            r.tcp_port == 0,
            r.udp_port == 0,
            r.auto_connect == false,
            r.auto_start_option is None,
            r.udp_timeout_seconds == 30,
            r.device_source == DeviceSource::Uart,
    {
        Esp32DeviceConfig {
            device_name: device_id.clone(),
            device_id,
            ip_address: "0.0.0.0".to_owned(),
            tcp_port: 0,
            udp_port: 0,
            auto_connect: false,
            auto_start_option: None,
            udp_timeout_seconds: 30,
            device_source: DeviceSource::Uart,
        }
    }

    /// A UDP device: its MAC address is its identifier.
    pub fn new_udp(mac_address: String, ip_address: String, udp_port: u16) -> (r: Self)
        ensures
            r.device_id == mac_address,
            r.device_name == mac_address,
            r.ip_address == ip_address,
            r.tcp_port == 0,
            r.udp_port == udp_port,
            r.auto_connect == false,
            r.auto_start_option is None,
            r.udp_timeout_seconds == 30,
            r.device_source == (DeviceSource::Udp { mac_address }),
    {
        Esp32DeviceConfig {
            device_name: mac_address.clone(),
            device_id: mac_address.clone(),
            ip_address,
            tcp_port: 0,
            udp_port,
            auto_connect: false,
            auto_start_option: None,
            udp_timeout_seconds: 30,
            device_source: DeviceSource::Udp { mac_address },
        }
    }

    /// A copy of the configuration, equal to the original.
    pub fn duplicate(&self) -> (r: Self)
        ensures
            r == *self,
    {
        Esp32DeviceConfig {
            device_id: self.device_id.clone(),
            device_name: self.device_name.clone(),
            ip_address: self.ip_address.clone(),
            tcp_port: self.tcp_port,
            udp_port: self.udp_port,
            auto_connect: self.auto_connect,
            auto_start_option: crate::events::dup_opt_string(&self.auto_start_option),
            udp_timeout_seconds: self.udp_timeout_seconds,
            device_source: match &self.device_source {
                DeviceSource::Udp { mac_address } => DeviceSource::Udp {
                    mac_address: mac_address.clone(),
                },
                DeviceSource::Uart => DeviceSource::Uart,
                DeviceSource::Tcp => DeviceSource::Tcp,
            },
        }
    }

    /// A network node on the default port.
    pub fn esp32_default(device_id: String, ip: String) -> (r: Self)
        ensures
            r.device_id == device_id,
            r.ip_address == ip,
            r.tcp_port == 3232,
            r.udp_port == 3232,
    {
        Self::new(device_id, ip, 3232, 3232)
    }

    /// Same layout as `esp32_default`; kept for the S3 family of nodes.
    pub fn esp32_s3_default(device_id: String, ip: String) -> (r: Self)
        ensures
            r.device_id == device_id,
            r.ip_address == ip,
            r.tcp_port == 3232,
            r.udp_port == 3232,
    {
        Self::new(device_id, ip, 3232, 3232)
    }
}

/// The connection state of one device's command session.
#[derive(Debug, Clone, PartialEq)]
pub enum ConnectionState {
    Disconnected,
    Connecting,
    Connected,
    Failed(String),
}

impl ConnectionState {
    pub fn is_connected(&self) -> (r: bool)
        ensures
            r == (self is Connected),
    {
        match self {
            ConnectionState::Connected => true,
            _ => false,
        }
    }

    pub fn is_connecting(&self) -> (r: bool)
        ensures
            r == (self is Connecting),
    {
        match self {
            ConnectionState::Connecting => true,
            _ => false,
        }
    }
}

/// Whether a device talks over the serial line or over the network. Set on
/// first sight and immutable thereafter.
#[derive(Debug, Clone, Copy, PartialEq, Eq, Structural)]
pub enum DeviceConnectionType {
    Uart,
    TcpUdp,
}

/// Where an inbound message came from.
#[derive(Debug, Clone, PartialEq)]
pub enum MessageSource {
    Uart,
    Tcp { ip: String, port: u16 },
    Udp { ip: String, port: u16 },
}

/// Serial line settings.
#[derive(Debug, Clone)]
pub struct UartSettings {
    pub port: String,
    pub baud_rate: u32,
}

impl Default for UartSettings {
    /// No port chosen yet, at the default baud rate.
    fn default() -> (r: Self)
        ensures
            r.port@ == Seq::<char>::empty(),
            r.baud_rate == 115200,
    {
        UartSettings { port: String::new(), baud_rate: 115200 }
    }
}

/// The gateway's error taxonomy.
#[derive(Debug, Clone, PartialEq)]
pub enum Esp32Error {
    /// Dial, bind or handshake failure.
    ConnectionFailed(String),
    /// Mid-stream transport failure.
    TcpError(String),
    /// Malformed JSON in a command or payload.
    JsonError(String),
    /// A subscriber command of an unrecognised shape.
    InvalidCommand(String),
    /// A command target the manager does not know.
    DeviceNotFound(String),
    /// The dial timed out.
    Timeout,
    /// A subscriber without the grade a device requires.
    Unauthorised,
    /// An event that failed the store's validation; it was not retained.
    Validation(String),
}

pub type Esp32Result<T> = Result<T, Esp32Error>;

} // verus!
