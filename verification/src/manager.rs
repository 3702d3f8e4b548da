//! The device manager: the registry of device configurations and sessions,
//! the map from source addresses to devices, unified ingress for every
//! inbound message, activity-based liveness, and the command router. All
//! emissions go through the event store; the messages owed to subscribers
//! come back to the caller for delivery.

use vstd::prelude::*;
use vstd::string::StringSliceAdditionalSpecFns;
use crate::alist::AList;
use crate::events::{DeviceEvent, EventWithMetadata, is_connection_status, is_raw_broadcast};
use crate::json::JsonVal;
use crate::session::TcpSession;
use crate::store::{DeviceEventStore, events_of, conns_of, recips, events_after_add};
use crate::types::{
    DeviceConnectionType, Esp32Command, Esp32DeviceConfig, Esp32Error, Esp32Result, MessageSource,
};

verus! {

/// One message owed to subscribers: the event and the clients to send it to.
pub struct OutboundMsg {
    pub event: DeviceEvent,
    pub recipients: Vec<String>,
}

/// The connection type an inbound source implies.
pub open spec fn source_type(src: MessageSource) -> DeviceConnectionType {
    match src {
        MessageSource::Uart => DeviceConnectionType::Uart,
        MessageSource::Tcp { .. } => DeviceConnectionType::TcpUdp,
        MessageSource::Udp { .. } => DeviceConnectionType::TcpUdp,
    }
}

/// Whether a source refreshes the activity clock: serial and UDP do, TCP
/// relies on socket keep-alive instead.
pub open spec fn source_tracks_activity(src: MessageSource) -> bool {
    !(src is Tcp)
}

/// The address coordinates a connected-status event carries for a source.
pub open spec fn status_coords(src: MessageSource) -> (Seq<char>, u16, u16) {
    match src {
        MessageSource::Uart => ("0.0.0.0"@, 0u16, 0u16),
        MessageSource::Tcp { ip, port } => (ip@, port, 0u16),
        MessageSource::Udp { ip, port } => (ip@, 0u16, port),
    }
}

/// The source coordinates a raw-broadcast event carries.
pub open spec fn raw_coords(src: MessageSource) -> (Seq<char>, u16) {
    match src {
        MessageSource::Uart => ("0.0.0.0"@, 0u16),
        MessageSource::Tcp { ip, port } => (ip@, port),
        MessageSource::Udp { ip, port } => (ip@, port),
    }
}

/// The synthetic client id a source's edge-trigger status is sent under.
pub open spec fn connect_sender(src: MessageSource) -> Seq<char> {
    match src {
        MessageSource::Uart => "uart_connect"@,
        MessageSource::Tcp { .. } => "tcp_connect"@,
        MessageSource::Udp { .. } => "udp_connect"@,
    }
}

/// The synthetic client id a source's raw broadcast is sent under.
pub open spec fn message_sender(src: MessageSource) -> Seq<char> {
    match src {
        MessageSource::Uart => "uart_message"@,
        MessageSource::Tcp { .. } => "tcp_message"@,
        MessageSource::Udp { .. } => "udp_message"@,
    }
}

/// The synthetic client id a source's parsed events are sent under.
pub open spec fn data_sender(src: MessageSource) -> Seq<char> {
    match src {
        MessageSource::Uart => "uart_data"@,
        MessageSource::Tcp { .. } => "tcp_data"@,
        MessageSource::Udp { .. } => "udp_data"@,
    }
}

/// The status coordinates a device's stored configuration gives: its
/// address and ports, or placeholders for a device without one.
pub open spec fn config_coords(
    configs: Seq<(String, Esp32DeviceConfig)>,
    d: Seq<char>,
) -> (Seq<char>, u16, u16) {
    match crate::alist::al_get(configs, d) {
        Some(c) => (c.ip_address@, c.tcp_port, c.udp_port),
        None => ("0.0.0.0"@, 0u16, 0u16),
    }
}

/// The connection flag a status event carries, if it is one.
pub open spec fn status_of(e: DeviceEvent) -> Option<bool> {
    match e {
        DeviceEvent::Esp32ConnectionStatus { connected, .. } => Some(connected),
        _ => None,
    }
}

/// The connection status the last status event in a history reported.
pub open spec fn last_status(s: Seq<EventWithMetadata>) -> Option<bool>
    decreases s.len(),
{
    if s.len() == 0 {
        None
    } else {
        match s.last().event {
            DeviceEvent::Esp32ConnectionStatus { connected, .. } => Some(connected),
            _ => last_status(s.drop_last()),
        }
    }
}

/// What a connected-status event must read as.
pub open spec fn is_status_event(
    e: DeviceEvent,
    d: Seq<char>,
    connected: bool,
    ip: Seq<char>,
    tcp_port: u16,
    udp_port: u16,
) -> bool {
    e matches DeviceEvent::Esp32ConnectionStatus {
        device_id, connected: c, device_ip, tcp_port: t, udp_port: u,
    }
        && device_id@ == d && c == connected && device_ip@ == ip
        && t == tcp_port && u == udp_port
}

/// What a raw-broadcast event must read as.
pub open spec fn is_raw_event(
    e: DeviceEvent,
    d: Seq<char>,
    message: Seq<char>,
    ip: Seq<char>,
    port: u16,
) -> bool {
    e matches DeviceEvent::Esp32UdpBroadcast { device_id, message: m, from_ip, from_port }
        && device_id@ == d && m@ == message && from_ip@ == ip && from_port == port
}

/// Whether an event is of a kind the payload parser yields, tagged with the
/// device.
pub open spec fn is_parsed_kind(e: DeviceEvent, d: Seq<char>) -> bool {
    match e {
        DeviceEvent::Esp32StartOptions { device_id, .. } => device_id@ == d,
        DeviceEvent::Esp32ChangeableVariables { device_id, .. } => device_id@ == d,
        DeviceEvent::Esp32DeviceInfo { device_id, .. } => device_id@ == d,
        DeviceEvent::Esp32VariableUpdate { device_id, .. } => device_id@ == d,
        _ => false,
    }
}

/// The device manager.
pub struct Esp32Manager {
    pub device_configs: AList<Esp32DeviceConfig>,
    pub sessions: AList<TcpSession>,
    pub ip_to_device_id: AList<String>,
    pub unified_activity: AList<u64>,
    pub unified_connected: AList<bool>,
    pub device_connection_types: AList<DeviceConnectionType>,
    pub device_store: DeviceEventStore,
}

impl Esp32Manager {
    /// Every registry keeps unique keys, and so does the store.
    pub open spec fn wf(&self) -> bool {
        &&& self.device_configs.wf()
        &&& self.sessions.wf()
        &&& self.ip_to_device_id.wf()
        &&& self.unified_activity.wf()
        &&& self.unified_connected.wf()
        &&& self.device_connection_types.wf()
        &&& self.device_store.wf()
    }

    /// A fresh manager around an event store.
    pub fn new(device_store: DeviceEventStore) -> (r: Self)
        requires
            device_store.wf(),
        ensures
            r.wf(),
            r.device_store == device_store,
            r.device_configs@.len() == 0,
            r.sessions@.len() == 0,
            r.ip_to_device_id@.len() == 0,
            r.unified_activity@.len() == 0,
            r.unified_connected@.len() == 0,
            r.device_connection_types@.len() == 0,
    {
        Esp32Manager {
            device_configs: AList::new(),
            sessions: AList::new(),
            ip_to_device_id: AList::new(),
            unified_activity: AList::new(),
            unified_connected: AList::new(),
            device_connection_types: AList::new(),
            device_store,
        }
    }

    /// Add a device, idempotently: a device whose session already exists
    /// only has its configuration replaced; a new device gets its
    /// configuration stored, its type marked network, and a fresh
    /// disconnected session. Adding twice under one id leaves one entry,
    /// carrying the later configuration.
    pub fn add_device(&mut self, config: Esp32DeviceConfig) -> (r: Esp32Result<()>)
        requires
            old(self).wf(),
        ensures
            final(self).wf(),
            r is Ok,
            final(self).device_configs.spec_get(config.device_id@) == Some(config),
            forall|d: Seq<char>| d != config.device_id@
                ==> final(self).device_configs.spec_get(d)
                    == old(self).device_configs.spec_get(d),
            old(self).sessions.spec_get(config.device_id@) is Some ==> {
                &&& final(self).sessions == old(self).sessions
                &&& final(self).device_connection_types == old(self).device_connection_types
            },
            old(self).sessions.spec_get(config.device_id@) is None ==> {
                &&& (final(self).sessions.spec_get(config.device_id@) matches Some(s)
                    && s.config == config && s.state is Disconnected && !s.has_stream)
                &&& forall|d: Seq<char>| d != config.device_id@
                    ==> final(self).sessions.spec_get(d) == old(self).sessions.spec_get(d)
                &&& final(self).device_connection_types.spec_get(config.device_id@)
                    == Some(DeviceConnectionType::TcpUdp)
                &&& forall|d: Seq<char>| d != config.device_id@
                    ==> final(self).device_connection_types.spec_get(d)
                        == old(self).device_connection_types.spec_get(d)
            },
            final(self).device_store == old(self).device_store,
            final(self).ip_to_device_id == old(self).ip_to_device_id,
            final(self).unified_activity == old(self).unified_activity,
            final(self).unified_connected == old(self).unified_connected,
    {
        let device_id = config.device_id.clone();
        if self.sessions.contains_key(device_id.as_str()) {
            self.device_configs.set(device_id, config);
            return Ok(());
        }
        let session = TcpSession::new(config.duplicate());
        self.device_configs.set(device_id.clone(), config);
        self.device_connection_types.set(device_id.clone(), DeviceConnectionType::TcpUdp);
        self.sessions.set(device_id, session);
        Ok(())
    }

    /// Remove a device: its session is torn down with a disconnect status
    /// emitted, its address mapping dropped, and its entries removed.
    pub fn remove_device(&mut self, device_id: &str) -> (r: Esp32Result<Vec<OutboundMsg>>)
        requires
            old(self).wf(),
            device_id@.len() > 0,
        ensures
            final(self).wf(),
            r is Ok,
            final(self).sessions.spec_get(device_id@) is None,
            final(self).device_configs.spec_get(device_id@) is None,
            old(self).sessions.spec_get(device_id@) is Some ==> (
                last_status(events_of(final(self).device_store, device_id@)) == Some(false)
            ),
            old(self).sessions.spec_get(device_id@) is Some ==> (
                r matches Ok(out) && out@.len() == 1
                && is_status_event(
                    out@[0].event, device_id@, false,
                    config_coords(old(self).device_configs@, device_id@).0,
                    config_coords(old(self).device_configs@, device_id@).1,
                    config_coords(old(self).device_configs@, device_id@).2,
                )
                && out@[0].recipients@ == recips(
                    conns_of(old(self).device_store, device_id@),
                    "ESP32_INTERNAL"@,
                    out@[0].event,
                )
            ),
            old(self).sessions.spec_get(device_id@) is None ==> (
                r matches Ok(out) && out@.len() == 0
            ),
            forall|d: Seq<char>| d != device_id@
                ==> events_of(final(self).device_store, d)
                    == events_of(old(self).device_store, d),
            final(self).device_store.active_connections
                == old(self).device_store.active_connections,
    {
        let mut out: Vec<OutboundMsg> = Vec::new();
        let had_session = self.sessions.contains_key(device_id);
        if had_session {
            // Tear down: drop the address mapping and emit the disconnect.
            let coords: Option<(String, u16, u16)> = match self.device_configs.get(device_id) {
                Some(c) => Some((c.ip_address.clone(), c.tcp_port, c.udp_port)),
                None => None,
            };
            let (ip, tcp_port, udp_port) = match coords {
                Some(t) => {
                    self.ip_to_device_id.remove(t.0.as_str());
                    t
                }
                None => ("0.0.0.0".to_owned(), 0u16, 0u16),
            };
            let event = DeviceEvent::Esp32ConnectionStatus {
                device_id: device_id.to_owned(),
                connected: false,
                device_ip: ip,
                tcp_port,
                udp_port,
            };
            let event_copy = event.duplicate();
            let ghost gev = event;
            let ghost pre_events = events_of(old(self).device_store, device_id@);
            let ghost cap = self.device_store.max_debug_messages as int;
            match self.device_store.add_event(
                device_id.to_owned(),
                event,
                "ESP32_SYSTEM".to_owned(),
                "ESP32_INTERNAL".to_owned(),
            ) {
                Ok(recipients) => {
                    proof {
                        lemma_status_add(pre_events, cap);
                        assert(last_status(events_of(self.device_store, device_id@))
                            == Some(false));
                        crate::events::lemma_same_event_plain(event_copy, gev);
                    }
                    out.push(OutboundMsg { event: event_copy, recipients });
                }
                Err(_) => {
                    proof {
                        assert(false);
                    }
                }
            }
        }
        self.sessions.remove(device_id);
        self.device_configs.remove(device_id);
        Ok(out)
    }
}

/// Storing a connection status event makes it the history's last word on
/// the connection.
pub proof fn lemma_status_add(s: Seq<EventWithMetadata>, cap: int)
    ensures
        forall|e: EventWithMetadata| #![trigger events_after_add(s, cap, e)]
            is_connection_status(e.event) ==> last_status(events_after_add(s, cap, e))
                == status_of(e.event),
{
    assert forall|e: EventWithMetadata| #![trigger events_after_add(s, cap, e)]
        is_connection_status(e.event) implies last_status(events_after_add(s, cap, e))
            == status_of(e.event) by {
        assert(!is_raw_broadcast(e.event));
        assert(events_after_add(s, cap, e) == s.push(e));
        assert(s.push(e).last() == e);
    }
}

/// What a connect request decided.
#[derive(Debug, Clone, Copy, PartialEq, Eq, Structural)]
pub enum ConnectPlan {
    /// The session is already connected: nothing to do.
    AlreadyConnected,
    /// Dial the device's address, then report the outcome.
    Dial,
}

impl Esp32Manager {
    /// Begin connecting a device. A connected session is left alone; one in
    /// `Connecting` (after a reset) is reused; a disconnected or failed one
    /// is rebuilt from the stored configuration. The caller dials and then
    /// reports through `connect_device_finish`.
    pub fn connect_device_begin(&mut self, device_id: &str) -> (r: Esp32Result<ConnectPlan>)
        requires
            old(self).wf(),
        ensures
            final(self).wf(),
            final(self).device_store == old(self).device_store,
            final(self).device_configs == old(self).device_configs,
            match r {
                Ok(ConnectPlan::AlreadyConnected) => *final(self) == *old(self)
                    && (old(self).sessions.spec_get(device_id@) matches Some(s)
                        && s.state is Connected),
                Ok(ConnectPlan::Dial) => (final(self).sessions.spec_get(device_id@)
                    matches Some(s) && s.state is Connecting)
                    // A session kept alive through a reset is reused, not
                    // rebuilt: the map is untouched.
                    && ((old(self).sessions.spec_get(device_id@) matches Some(s0)
                        && s0.state is Connecting) ==> *final(self) == *old(self)),
                Err(e) => e is DeviceNotFound && *final(self) == *old(self),
            },
    {
        let state = match self.sessions.get(device_id) {
            Some(sess) => sess.get_connection_state(),
            None => {
                return Err(Esp32Error::DeviceNotFound(device_id.to_owned()));
            }
        };
        match state {
            crate::types::ConnectionState::Connected => Ok(ConnectPlan::AlreadyConnected),
            crate::types::ConnectionState::Connecting => {
                // Reuse the session kept alive through a reset.
                Ok(ConnectPlan::Dial)
            }
            _ => {
                // Rebuild the session from the stored configuration.
                let config = match self.device_configs.get(device_id) {
                    Some(c) => c.duplicate(),
                    None => {
                        return Err(Esp32Error::DeviceNotFound(device_id.to_owned()));
                    }
                };
                let mut session = TcpSession::new(config);
                session.begin_connect();
                self.sessions.set(device_id.to_owned(), session);
                Ok(ConnectPlan::Dial)
            }
        }
    }

    /// Settle a dial's outcome. Success marks the session connected,
    /// registers the device's address for datagram routing, starts its
    /// activity clock, raises the unified connected flag, and emits a
    /// connected status that becomes the history's last word. Failure
    /// reports a timeout or the dial error and changes nothing else.
    pub fn connect_device_finish(
        &mut self,
        device_id: &str,
        dial_ok: bool,
        timed_out: bool,
        reason: String,
        now: u64,
    ) -> (r: Esp32Result<Vec<OutboundMsg>>)
        requires
            old(self).wf(),
            device_id@.len() > 0,
        ensures
            final(self).wf(),
            old(self).sessions.spec_get(device_id@) is None ==> (
                r matches Err(e) && e is DeviceNotFound
                && final(self).device_store == old(self).device_store
                && forall|d: Seq<char>| final(self).sessions.spec_get(d)
                    == old(self).sessions.spec_get(d)
            ),
            (old(self).sessions.spec_get(device_id@) is Some && dial_ok) ==> {
                &&& r is Ok
                &&& (final(self).sessions.spec_get(device_id@) matches Some(s)
                    && s.state is Connected && s.has_stream)
                &&& final(self).unified_connected.spec_get(device_id@) == Some(true)
                &&& final(self).unified_activity.spec_get(device_id@) == Some(now)
                &&& last_status(events_of(final(self).device_store, device_id@)) == Some(true)
                &&& (old(self).sessions.spec_get(device_id@) matches Some(s0) ==> (
                    r matches Ok(out) && out@.len() == 1
                    && is_status_event(
                        out@[0].event, device_id@, true,
                        s0.config.ip_address@, s0.config.tcp_port, s0.config.udp_port,
                    )
                    && out@[0].recipients@ == recips(
                        conns_of(old(self).device_store, device_id@),
                        "SYSTEM_CONNECTION"@,
                        out@[0].event,
                    )
                    && (final(self).ip_to_device_id.spec_get(s0.config.ip_address@)
                        matches Some(dd) && dd@ == device_id@)
                ))
                &&& forall|d: Seq<char>| d != device_id@
                    ==> events_of(final(self).device_store, d)
                        == events_of(old(self).device_store, d)
            },
            (old(self).sessions.spec_get(device_id@) is Some && !dial_ok) ==> {
                &&& (r matches Err(e) && (timed_out ==> e is Timeout)
                    && (!timed_out ==> e is ConnectionFailed))
                &&& final(self).device_store == old(self).device_store
                &&& final(self).sessions.spec_get(device_id@)
                    == old(self).sessions.spec_get(device_id@)
                &&& forall|d: Seq<char>| d != device_id@
                    ==> final(self).sessions.spec_get(d) == old(self).sessions.spec_get(d)
                &&& final(self).ip_to_device_id == old(self).ip_to_device_id
                &&& final(self).unified_connected == old(self).unified_connected
                &&& final(self).unified_activity == old(self).unified_activity
            },
            final(self).device_store.active_connections
                == old(self).device_store.active_connections,
    {
        let mut session = match self.sessions.take(device_id) {
            Some(s) => s,
            None => {
                return Err(Esp32Error::DeviceNotFound(device_id.to_owned()));
            }
        };
        if !dial_ok {
            let e = session.on_connect_failed(timed_out, reason);
            self.sessions.set(device_id.to_owned(), session);
            return Err(e);
        }
        session.on_tcp_connected();
        let (ip, tcp_port, udp_port) = (
            session.config.ip_address.clone(),
            session.config.tcp_port,
            session.config.udp_port,
        );
        self.sessions.set(device_id.to_owned(), session);
        self.ip_to_device_id.set(ip.clone(), device_id.to_owned());
        self.unified_activity.set(device_id.to_owned(), now);
        self.unified_connected.set(device_id.to_owned(), true);

        let event = DeviceEvent::Esp32ConnectionStatus {
            device_id: device_id.to_owned(),
            connected: true,
            device_ip: ip,
            tcp_port,
            udp_port,
        };
        let event_copy = event.duplicate();
        let ghost gev = event;
        let ghost pre_events = events_of(self.device_store, device_id@);
        let ghost cap = self.device_store.max_debug_messages as int;
        let mut out: Vec<OutboundMsg> = Vec::new();
        match self.device_store.add_event(
            device_id.to_owned(),
            event,
            "ESP32_MANAGER".to_owned(),
            "SYSTEM_CONNECTION".to_owned(),
        ) {
            Ok(recipients) => {
                proof {
                    lemma_status_add(pre_events, cap);
                    crate::events::lemma_same_event_plain(event_copy, gev);
                }
                out.push(OutboundMsg { event: event_copy, recipients });
            }
            Err(_) => {
                proof {
                    assert(false);
                }
            }
        }
        Ok(out)
    }

    /// Disconnect a device: the session is torn down, its address mapping
    /// dropped, and a disconnected status emitted that becomes the
    /// history's last word.
    pub fn disconnect_device(&mut self, device_id: &str) -> (r: Esp32Result<Vec<OutboundMsg>>)
        requires
            old(self).wf(),
            device_id@.len() > 0,
        ensures
            final(self).wf(),
            old(self).sessions.spec_get(device_id@) is None ==> (
                r matches Err(e) && e is DeviceNotFound
                && final(self).device_store == old(self).device_store
                && forall|d: Seq<char>| final(self).sessions.spec_get(d)
                    == old(self).sessions.spec_get(d)
            ),
            old(self).sessions.spec_get(device_id@) is Some ==> {
                &&& r is Ok
                &&& (final(self).sessions.spec_get(device_id@) matches Some(s)
                    && s.state is Disconnected && !s.has_stream)
                &&& last_status(events_of(final(self).device_store, device_id@)) == Some(false)
                &&& (old(self).sessions.spec_get(device_id@) matches Some(s0) ==> (
                    r matches Ok(out) && out@.len() == 1
                    && is_status_event(
                        out@[0].event, device_id@, false,
                        s0.config.ip_address@, s0.config.tcp_port, s0.config.udp_port,
                    )
                    && out@[0].recipients@ == recips(
                        conns_of(old(self).device_store, device_id@),
                        "ESP32_INTERNAL"@,
                        out@[0].event,
                    )
                    && final(self).ip_to_device_id.spec_get(s0.config.ip_address@) is None
                ))
                &&& forall|d: Seq<char>| d != device_id@
                    ==> events_of(final(self).device_store, d)
                        == events_of(old(self).device_store, d)
            },
            final(self).device_store.active_connections
                == old(self).device_store.active_connections,
    {
        let mut session = match self.sessions.take(device_id) {
            Some(s) => s,
            None => {
                return Err(Esp32Error::DeviceNotFound(device_id.to_owned()));
            }
        };
        let ip = session.config.ip_address.clone();
        self.ip_to_device_id.remove(ip.as_str());
        session.disconnect();
        let (dev_ip, tcp_port, udp_port) = (
            session.config.ip_address.clone(),
            session.config.tcp_port,
            session.config.udp_port,
        );
        self.sessions.set(device_id.to_owned(), session);

        let event = DeviceEvent::Esp32ConnectionStatus {
            device_id: device_id.to_owned(),
            connected: false,
            device_ip: dev_ip,
            tcp_port,
            udp_port,
        };
        let event_copy = event.duplicate();
        let ghost gev = event;
        let ghost pre_events = events_of(self.device_store, device_id@);
        let ghost cap = self.device_store.max_debug_messages as int;
        let mut out: Vec<OutboundMsg> = Vec::new();
        match self.device_store.add_event(
            device_id.to_owned(),
            event,
            "ESP32_SYSTEM".to_owned(),
            "ESP32_INTERNAL".to_owned(),
        ) {
            Ok(recipients) => {
                proof {
                    lemma_status_add(pre_events, cap);
                    crate::events::lemma_same_event_plain(event_copy, gev);
                }
                out.push(OutboundMsg { event: event_copy, recipients });
            }
            Err(_) => {
                proof {
                    assert(false);
                }
            }
        }
        Ok(out)
    }

    /// Register a device for datagram routing by its source address.
    pub fn register_esp32_for_udp(&mut self, device_id: String, ip: String)
        requires
            old(self).wf(),
        ensures
            final(self).wf(),
            final(self).ip_to_device_id.spec_get(ip@) == Some(device_id),
            forall|k: Seq<char>| k != ip@
                ==> final(self).ip_to_device_id.spec_get(k)
                    == old(self).ip_to_device_id.spec_get(k),
    {
        self.ip_to_device_id.set(ip, device_id);
    }

    /// Drop a source address from datagram routing.
    pub fn unregister_esp32_from_udp(&mut self, ip: &str)
        requires
            old(self).wf(),
        ensures
            final(self).wf(),
            final(self).ip_to_device_id.spec_get(ip@) is None,
            forall|k: Seq<char>| k != ip@
                ==> final(self).ip_to_device_id.spec_get(k)
                    == old(self).ip_to_device_id.spec_get(k),
    {
        self.ip_to_device_id.remove(ip);
    }

    /// The device a datagram source address routes to, if registered.
    pub fn device_for_ip(&self, ip: &str) -> (r: Option<&String>)
        ensures
            match r {
                Some(d) => self.ip_to_device_id.spec_get(ip@) == Some(*d),
                None => self.ip_to_device_id.spec_get(ip@) is None,
            },
    {
        self.ip_to_device_id.get(ip)
    }

    /// A device's stored configuration.
    pub fn get_device_config(&self, device_id: &str) -> (r: Option<&Esp32DeviceConfig>)
        ensures
            match r {
                Some(c) => self.device_configs.spec_get(device_id@) == Some(*c),
                None => self.device_configs.spec_get(device_id@) is None,
            },
    {
        self.device_configs.get(device_id)
    }

    /// Every stored device configuration, in registration order.
    pub fn get_all_devices(&self) -> (r: Vec<Esp32DeviceConfig>)
        ensures
            r@.len() == self.device_configs@.len(),
            forall|i: int| 0 <= i < r@.len()
                ==> #[trigger] r@[i] == self.device_configs@[i].1,
    {
        let mut out: Vec<Esp32DeviceConfig> = Vec::new();
        let entries = &self.device_configs.entries;
        let mut i: usize = 0;
        while i < entries.len()
            invariant
                i <= entries@.len(),
                entries@ == self.device_configs@,
                out@.len() == i,
                forall|j: int| 0 <= j < i ==> #[trigger] out@[j] == entries@[j].1,
            decreases entries@.len() - i,
        {
            out.push(entries[i].1.duplicate());
            i += 1;
        }
        out
    }

    /// A device's session state.
    pub fn get_device_state(&self, device_id: &str) -> (r: Option<crate::types::ConnectionState>)
        ensures
            match r {
                Some(st) => self.sessions.spec_get(device_id@) matches Some(s) && s.state == st,
                None => self.sessions.spec_get(device_id@) is None,
            },
    {
        match self.sessions.get(device_id) {
            Some(s) => Some(s.get_connection_state()),
            None => None,
        }
    }

    /// A device's connection type, set on first sight.
    pub fn get_device_connection_type(&self, device_id: &str)
        -> (r: Option<DeviceConnectionType>)
        ensures
            r == self.device_connection_types.spec_get(device_id@),
    {
        match self.device_connection_types.get(device_id) {
            Some(t) => Some(*t),
            None => None,
        }
    }

    /// Refresh a device's activity clock.
    pub fn update_udp_activity(&mut self, device_id: &str, now: u64)
        requires
            old(self).wf(),
        ensures
            final(self).wf(),
            final(self).unified_activity.spec_get(device_id@) == Some(now),
            forall|d: Seq<char>| d != device_id@
                ==> final(self).unified_activity.spec_get(d)
                    == old(self).unified_activity.spec_get(d),
    {
        self.unified_activity.set(device_id.to_owned(), now);
    }
}

/// Which devices a tracked entry names as expired at `now`: a silent spell
/// longer than the device's liveness budget (thirty seconds for a device
/// not yet configured, as serial auto-registration will give it).
pub open spec fn spec_expired(
    configs: Seq<(String, Esp32DeviceConfig)>,
    d: Seq<char>,
    last: u64,
    now: u64,
) -> bool {
    let timeout_s: int = match crate::alist::al_get(configs, d) {
        Some(c) => c.udp_timeout_seconds as int,
        None => 30,
    };
    now > last + timeout_s * 1000
}

/// The tracked devices expired at `now`, in tracking order.
pub open spec fn spec_expired_list(
    entries: Seq<(String, u64)>,
    configs: Seq<(String, Esp32DeviceConfig)>,
    now: u64,
) -> Seq<String>
    decreases entries.len(),
{
    if entries.len() == 0 {
        Seq::empty()
    } else {
        let pre = spec_expired_list(entries.drop_last(), configs, now);
        if spec_expired(configs, entries.last().0@, entries.last().1, now) {
            pre.push(entries.last().0)
        } else {
            pre
        }
    }
}

impl Esp32Manager {
    /// The devices whose silence has outlived their liveness budget.
    pub fn liveness_expired(&self, now: u64) -> (r: Vec<String>)
        ensures
            r@ == spec_expired_list(self.unified_activity@, self.device_configs@, now),
    {
        let mut out: Vec<String> = Vec::new();
        let entries = &self.unified_activity.entries;
        let mut i: usize = 0;
        while i < entries.len()
            invariant
                i <= entries@.len(),
                entries@ == self.unified_activity@,
                out@ == spec_expired_list(entries@.take(i as int), self.device_configs@, now),
            decreases entries@.len() - i,
        {
            proof {
                assert(entries@.take(i + 1).drop_last() =~= entries@.take(i as int));
                assert(entries@.take(i + 1).last() == entries@[i as int]);
            }
            let d = &entries[i].0;
            let last = entries[i].1;
            let timeout_s: u64 = match self.device_configs.get(d.as_str()) {
                Some(c) => c.udp_timeout_seconds,
                None => 30,
            };
            let expired = (now as u128) > (last as u128) + (timeout_s as u128) * 1000;
            if expired {
                out.push(d.clone());
            }
            i += 1;
        }
        proof {
            assert(entries@.take(entries@.len() as int) =~= entries@);
        }
        out
    }

    /// Settle one device's liveness at `now`. A tracked, expired device
    /// stops being tracked, so a later tick never reports it again; if it
    /// was connected, it is marked disconnected and a disconnected status —
    /// the history's new last word — is emitted exactly once. A device not
    /// yet configured is first given the serial default configuration.
    pub fn liveness_expire_one(&mut self, device_id: &str, now: u64) -> (r: Option<OutboundMsg>)
        requires
            old(self).wf(),
            device_id@.len() > 0,
        ensures
            final(self).wf(),
            ({
                let watched = old(self).unified_activity.spec_get(device_id@);
                let was_connected = old(self).unified_connected.spec_get(device_id@)
                    == Some(true);
                let expired = watched matches Some(last)
                    && spec_expired(old(self).device_configs@, device_id@, last, now);
                &&& (r is Some) == (expired && was_connected)
                &&& (expired ==> final(self).unified_activity.spec_get(device_id@) is None)
                &&& (!expired ==> final(self).unified_activity.spec_get(device_id@) == watched)
                &&& ((expired && was_connected) ==> {
                    &&& final(self).unified_connected.spec_get(device_id@) == Some(false)
                    &&& last_status(events_of(final(self).device_store, device_id@))
                        == Some(false)
                    &&& (r matches Some(msg)
                        && is_status_event(
                            msg.event, device_id@, false,
                            config_coords(old(self).device_configs@, device_id@).0,
                            config_coords(old(self).device_configs@, device_id@).1,
                            config_coords(old(self).device_configs@, device_id@).2,
                        )
                        && msg.recipients@ == recips(
                            conns_of(old(self).device_store, device_id@),
                            "UNIFIED_TIMEOUT"@,
                            msg.event,
                        ))
                })
                &&& (!(expired && was_connected)
                    ==> final(self).device_store == old(self).device_store)
                &&& forall|d: Seq<char>| d != device_id@
                    ==> events_of(final(self).device_store, d)
                        == events_of(old(self).device_store, d)
            }),
            final(self).device_store.active_connections
                == old(self).device_store.active_connections,
    {
        let last = match self.unified_activity.get(device_id) {
            Some(l) => *l,
            None => {
                return None;
            }
        };
        // Auto-register a serial device seen only through its frames.
        let timeout_s: u64 = match self.device_configs.get(device_id) {
            Some(c) => c.udp_timeout_seconds,
            None => {
                let uart_config = Esp32DeviceConfig::new_uart(device_id.to_owned());
                let t = uart_config.udp_timeout_seconds;
                self.device_configs.set(device_id.to_owned(), uart_config);
                t
            }
        };
        proof {
            assert(timeout_s == (match crate::alist::al_get(
                old(self).device_configs@, device_id@,
            ) {
                Some(c) => c.udp_timeout_seconds,
                None => 30u64,
            }));
        }
        let expired = (now as u128) > (last as u128) + (timeout_s as u128) * 1000;
        if !expired {
            return None;
        }
        self.unified_activity.remove(device_id);
        let was_connected = match self.unified_connected.get(device_id) {
            Some(b) => *b,
            None => false,
        };
        if !was_connected {
            return None;
        }
        self.unified_connected.set(device_id.to_owned(), false);
        let (ip, tcp_port, udp_port) = match self.device_configs.get(device_id) {
            Some(c) => (c.ip_address.clone(), c.tcp_port, c.udp_port),
            None => ("0.0.0.0".to_owned(), 0u16, 0u16),
        };
        let event = DeviceEvent::Esp32ConnectionStatus {
            device_id: device_id.to_owned(),
            connected: false,
            device_ip: ip,
            tcp_port,
            udp_port,
        };
        let event_copy = event.duplicate();
        let ghost gev = event;
        let ghost pre_events = events_of(self.device_store, device_id@);
        let ghost cap = self.device_store.max_debug_messages as int;
        match self.device_store.add_event(
            device_id.to_owned(),
            event,
            "ESP32_SYSTEM".to_owned(),
            "UNIFIED_TIMEOUT".to_owned(),
        ) {
            Ok(recipients) => {
                proof {
                    lemma_status_add(pre_events, cap);
                    crate::events::lemma_same_event_plain(event_copy, gev);
                }
                Some(OutboundMsg { event: event_copy, recipients })
            }
            Err(_) => {
                proof {
                    assert(false);
                }
                None
            }
        }
    }
}

/// A history folded through consecutive stores, each under the cap rule.
pub open spec fn fold_add(
    s: Seq<EventWithMetadata>,
    cap: int,
    ms: Seq<EventWithMetadata>,
) -> Seq<EventWithMetadata>
    decreases ms.len(),
{
    if ms.len() == 0 {
        s
    } else {
        events_after_add(fold_add(s, cap, ms.drop_last()), cap, ms.last())
    }
}

/// Everything unified ingress guarantees, for any transport: the set-once
/// type, the activity rule, the raised connected flag, the edge-triggered
/// status, the raw broadcast, the sound parsed tail with recipients, the
/// device's history folded through exactly the returned events, and the
/// rest of the gateway untouched.
pub open spec fn ingress_post(
    m0: Esp32Manager,
    m1: Esp32Manager,
    out: Seq<OutboundMsg>,
    message: Seq<char>,
    device_id: Seq<char>,
    src: MessageSource,
    now: u64,
) -> bool {
    let was = m0.unified_connected.spec_get(device_id) == Some(true);
    let conns = conns_of(m0.device_store, device_id);
    let edge: int = if was { 0int } else { 1int };
    let cap = m0.device_store.max_debug_messages as int;
    &&& m1.device_connection_types.spec_get(device_id) == (
        match m0.device_connection_types.spec_get(device_id) {
            Some(t) => Some(t),
            None => Some(source_type(src)),
        }
    )
    &&& forall|d: Seq<char>| d != device_id
        ==> m1.device_connection_types.spec_get(d) == m0.device_connection_types.spec_get(d)
    &&& (source_tracks_activity(src)
        ==> m1.unified_activity.spec_get(device_id) == Some(now)
            && forall|d: Seq<char>| d != device_id
                ==> m1.unified_activity.spec_get(d) == m0.unified_activity.spec_get(d))
    &&& (!source_tracks_activity(src) ==> m1.unified_activity == m0.unified_activity)
    &&& m1.unified_connected.spec_get(device_id) == Some(true)
    &&& forall|d: Seq<char>| d != device_id
        ==> m1.unified_connected.spec_get(d) == m0.unified_connected.spec_get(d)
    &&& out.len() >= edge + 1
    &&& (!was ==> is_status_event(
        out[0].event, device_id, true,
        status_coords(src).0, status_coords(src).1, status_coords(src).2,
    ) && out[0].recipients@ == recips(conns, connect_sender(src), out[0].event))
    &&& is_raw_event(
        out[edge].event, device_id, message, raw_coords(src).0, raw_coords(src).1,
    )
    &&& out[edge].recipients@ == recips(conns, message_sender(src), out[edge].event)
    &&& forall|k: int| edge + 1 <= k < out.len() ==> {
        &&& is_parsed_kind(#[trigger] out[k].event, device_id)
        &&& crate::events::event_valid(out[k].event)
        &&& out[k].recipients@ == recips(conns, data_sender(src), out[k].event)
    }
    &&& exists|ms: Seq<EventWithMetadata>|
        #![trigger fold_add(events_of(m0.device_store, device_id), cap, ms)]
        {
            &&& ms.len() == out.len()
            &&& (forall|k: int| 0 <= k < ms.len()
                ==> crate::events::same_event(#[trigger] out[k].event, ms[k].event))
            &&& events_of(m1.device_store, device_id)
                == fold_add(events_of(m0.device_store, device_id), cap, ms)
        }
    &&& forall|d: Seq<char>| d != device_id
        ==> events_of(m1.device_store, d) == events_of(m0.device_store, d)
    &&& m1.device_store.active_connections == m0.device_store.active_connections
    &&& m1.device_store.max_debug_messages == m0.device_store.max_debug_messages
    &&& m1.sessions == m0.sessions
    &&& m1.device_configs == m0.device_configs
    &&& m1.ip_to_device_id == m0.ip_to_device_id
}

impl Esp32Manager {
    /// Store one valid event and hand back its recipients together with
    /// the stored record, for callers that account for a whole history.
    pub(crate) fn add_event_traced(
        &mut self,
        device_id: &str,
        event: DeviceEvent,
        user_id: &str,
        client_id: &str,
    ) -> (r: (Vec<String>, Ghost<EventWithMetadata>))
        requires
            old(self).wf(),
            crate::events::event_valid(event),
        ensures
            final(self).wf(),
            r.1@.event == event,
            events_of(final(self).device_store, device_id@) == events_after_add(
                events_of(old(self).device_store, device_id@),
                old(self).device_store.max_debug_messages as int,
                r.1@,
            ),
            forall|d: Seq<char>| d != device_id@
                ==> events_of(final(self).device_store, d) == events_of(old(self).device_store, d),
            final(self).device_store.active_connections
                == old(self).device_store.active_connections,
            final(self).device_store.max_debug_messages
                == old(self).device_store.max_debug_messages,
            final(self).sessions == old(self).sessions,
            final(self).device_configs == old(self).device_configs,
            final(self).ip_to_device_id == old(self).ip_to_device_id,
            final(self).unified_activity == old(self).unified_activity,
            final(self).unified_connected == old(self).unified_connected,
            final(self).device_connection_types == old(self).device_connection_types,
            r.0@ == recips(conns_of(old(self).device_store, device_id@), client_id@, event),
    {
        let ghost gevent = event;
        let ghost pre_events = events_of(self.device_store, device_id@);
        let ghost cap = self.device_store.max_debug_messages as int;
        match self.device_store.add_event(
            device_id.to_owned(),
            event,
            user_id.to_owned(),
            client_id.to_owned(),
        ) {
            Ok(recipients) => {
                let ghost stored = choose|m: EventWithMetadata|
                    m.event == gevent && events_of(self.device_store, device_id@)
                        == events_after_add(pre_events, cap, m);
                (recipients, Ghost(stored))
            }
            Err(_) => {
                proof {
                    assert(false);
                }
                (Vec::new(), Ghost(arbitrary()))
            }
        }
    }

    /// Unified ingress for one inbound message, whatever its transport.
    /// The device's connection type is recorded on first sight; serial and
    /// datagram sources refresh the activity clock; a connected status is
    /// emitted exactly on the edge from not-connected to connected; the raw
    /// payload is retained as telemetry; and every shape the payload parser
    /// recognises yields its event. The returned messages carry each
    /// event's recipients.
    #[verifier::loop_isolation(false)]
    pub fn handle_message_unified(
        &mut self,
        message: &str,
        device_id: &str,
        source: &MessageSource,
        now: u64,
    ) -> (r: Vec<OutboundMsg>)
        requires
            old(self).wf(),
            device_id@.len() > 0,
        ensures
            final(self).wf(),
            ingress_post(*old(self), *final(self), r@, message@, device_id@, *source, now),
    {
        let ghost conns0 = conns_of(old(self).device_store, device_id@);
        let ghost base_events = events_of(old(self).device_store, device_id@);
        let ghost cap = old(self).device_store.max_debug_messages as int;
        let ghost mut gms: Seq<EventWithMetadata> = Seq::empty();

        // Record the connection type on first sight.
        if !self.device_connection_types.contains_key(device_id) {
            let t = match source {
                MessageSource::Uart => DeviceConnectionType::Uart,
                _ => DeviceConnectionType::TcpUdp,
            };
            self.device_connection_types.set(device_id.to_owned(), t);
        }

        // Refresh the activity clock for serial and datagram sources.
        let tracks = match source {
            MessageSource::Tcp { .. } => false,
            _ => true,
        };
        if tracks {
            self.unified_activity.set(device_id.to_owned(), now);
        }

        let mut out: Vec<OutboundMsg> = Vec::new();

        // The edge from not-connected to connected.
        let was = match self.unified_connected.get(device_id) {
            Some(b) => *b,
            None => false,
        };
        if !was {
            self.unified_connected.set(device_id.to_owned(), true);
            let (ip, tcp_port, udp_port): (String, u16, u16) = match source {
                MessageSource::Uart => ("0.0.0.0".to_owned(), 0u16, 0u16),
                MessageSource::Tcp { ip, port } => (ip.clone(), *port, 0u16),
                MessageSource::Udp { ip, port } => (ip.clone(), 0u16, *port),
            };
            let event = DeviceEvent::Esp32ConnectionStatus {
                device_id: device_id.to_owned(),
                connected: true,
                device_ip: ip,
                tcp_port,
                udp_port,
            };
            let event_copy = event.duplicate();
            let sender: &str = match source {
                MessageSource::Uart => "uart_connect",
                MessageSource::Tcp { .. } => "tcp_connect",
                MessageSource::Udp { .. } => "udp_connect",
            };
            let (recipients, trace) = self.add_event_traced(
                device_id,
                event,
                "esp32_system",
                sender,
            );
            proof {
                gms = gms.push(trace@);
            }
            out.push(OutboundMsg { event: event_copy, recipients });
            proof {
                assert(crate::events::same_event(
                    out@[out@.len() - 1].event,
                    gms[gms.len() - 1].event,
                ));
                assert(gms.len() == 1);
                assert(gms.last() == trace@);
                assert(gms.drop_last() =~= Seq::<EventWithMetadata>::empty());
                assert(fold_add(base_events, cap, gms.drop_last()) == base_events);
                assert(events_of(self.device_store, device_id@)
                    == events_after_add(base_events, cap, trace@));
                assert(events_of(self.device_store, device_id@)
                    == fold_add(base_events, cap, gms));
            }
        } else {
            self.unified_connected.set(device_id.to_owned(), true);
            proof {
                assert(events_of(self.device_store, device_id@)
                    == fold_add(base_events, cap, gms));
            }
        }
        let ghost edge_len = out@.len() as int;

        // Retain the raw payload as telemetry.
        let (rip, rport): (String, u16) = match source {
            MessageSource::Uart => ("0.0.0.0".to_owned(), 0u16),
            MessageSource::Tcp { ip, port } => (ip.clone(), *port),
            MessageSource::Udp { ip, port } => (ip.clone(), *port),
        };
        let raw_event = DeviceEvent::Esp32UdpBroadcast {
            device_id: device_id.to_owned(),
            message: message.to_owned(),
            from_ip: rip,
            from_port: rport,
        };
        let raw_copy = raw_event.duplicate();
        let raw_sender: &str = match source {
            MessageSource::Uart => "uart_message",
            MessageSource::Tcp { .. } => "tcp_message",
            MessageSource::Udp { .. } => "udp_message",
        };
        let (recipients, trace) = self.add_event_traced(
            device_id,
            raw_event,
            "esp32_system",
            raw_sender,
        );
        proof {
            let prev = gms;
            gms = gms.push(trace@);
            assert(gms.drop_last() =~= prev);
            assert(gms.last() == trace@);
            assert(fold_add(base_events, cap, gms)
                == events_after_add(fold_add(base_events, cap, prev), cap, trace@));
        }
        out.push(OutboundMsg { event: raw_copy, recipients });
        proof {
            assert(crate::events::same_event(
                out@[out@.len() - 1].event,
                gms[gms.len() - 1].event,
            ));
            assert(events_of(self.device_store, device_id@)
                == fold_add(base_events, cap, gms));
        }
        let ghost head = out@;
        proof {
            assert(head.len() == edge_len + 1);
            assert(gms.len() == head.len());
            assert forall|k: int| 0 <= k < head.len() implies crate::events::same_event(
                #[trigger] head[k].event,
                gms[k].event,
            ) by {
                assert(head[head.len() - 1] == out@[out@.len() - 1]);
            }
        }

        // Parse the payload and retain each recognised shape.
        let tree = crate::json::parse_json(message);
        let mut structured: Vec<DeviceEvent> = match &tree {
            Some(v) => crate::parser::parse_structured(v, device_id),
            None => Vec::new(),
        };
        proof {
            assert forall|k: int| 0 <= k < structured@.len()
                implies is_parsed_kind(structured@[k], device_id@) by {
                match tree {
                    Some(v) => {
                        let sos = crate::parser::spec_start_options(v);
                        let cvs = crate::parser::spec_change_vars(v);
                        let din = crate::parser::spec_dev_info(v);
                        let svs = crate::parser::spec_single_vars(v);
                        let n0: int = if sos.len() > 0 { 1int } else { 0int };
                        let n1: int = if cvs.len() > 0 { 1int } else { 0int };
                        let n2: int = if din is Some { 1int } else { 0int };
                        if k < n0 {
                            assert(crate::parser::is_start_options_event(
                                structured@[0], device_id@, sos));
                        } else if k < n0 + n1 {
                            assert(crate::parser::is_change_vars_event(
                                structured@[n0], device_id@, cvs));
                        } else if k < n0 + n1 + n2 {
                            assert(din matches Some(info)
                                && crate::parser::is_dev_info_event(
                                    structured@[n0 + n1], device_id@, info));
                        } else {
                            assert(crate::parser::is_var_update_event(
                                structured@[k], device_id@, svs[k - n0 - n1 - n2]));
                        }
                    }
                    None => {}
                }
            }
        }
        let mut kv = crate::parser::kv_fallback_events(message, device_id);
        proof {
            assert forall|k: int| 0 <= k < kv@.len()
                implies is_parsed_kind(kv@[k], device_id@) by {
                assert(crate::parser::is_var_update_event(
                    kv@[k],
                    device_id@,
                    (
                        crate::parser::spec_kv_pairs(message.spec_bytes())[k].0,
                        crate::parser::spec_kv_pairs(message.spec_bytes())[k].1,
                        None::<u64>,
                        None::<u64>,
                    ),
                ));
            }
        }
        let ghost gs = structured@;
        let ghost gk = kv@;
        structured.append(&mut kv);
        let parsed = structured;
        proof {
            assert(parsed@ =~= gs + gk);
        }
        let data_sender_str: &str = match source {
            MessageSource::Uart => "uart_data",
            MessageSource::Tcp { .. } => "tcp_data",
            MessageSource::Udp { .. } => "udp_data",
        };
        let mut pout: Vec<OutboundMsg> = Vec::new();
        let mut i: usize = 0;
        while i < parsed.len()
            invariant
                i <= parsed@.len(),
                self.wf(),
                device_id@.len() > 0,
                data_sender_str@ == data_sender(*source),
                conns_of(self.device_store, device_id@)
                    == conns_of(old(self).device_store, device_id@),
                forall|d: Seq<char>| d != device_id@
                    ==> events_of(self.device_store, d) == events_of(old(self).device_store, d),
                self.device_store.active_connections
                    == old(self).device_store.active_connections,
                self.device_store.max_debug_messages
                    == old(self).device_store.max_debug_messages,
                self.sessions == old(self).sessions,
                self.device_configs == old(self).device_configs,
                source_tracks_activity(*source)
                    ==> self.unified_activity.spec_get(device_id@) == Some(now)
                        && forall|d: Seq<char>| d != device_id@
                            ==> self.unified_activity.spec_get(d)
                                == old(self).unified_activity.spec_get(d),
                !source_tracks_activity(*source)
                    ==> self.unified_activity == old(self).unified_activity,
                self.unified_connected.spec_get(device_id@) == Some(true),
                forall|d: Seq<char>| d != device_id@
                    ==> self.unified_connected.spec_get(d)
                        == old(self).unified_connected.spec_get(d),
                self.device_connection_types.spec_get(device_id@) == (
                    match old(self).device_connection_types.spec_get(device_id@) {
                        Some(t) => Some(t),
                        None => Some(source_type(*source)),
                    }
                ),
                forall|d: Seq<char>| d != device_id@
                    ==> self.device_connection_types.spec_get(d)
                        == old(self).device_connection_types.spec_get(d),
                forall|k: int| 0 <= k < pout@.len() ==> {
                    &&& is_parsed_kind(pout@[k].event, device_id@)
                    &&& crate::events::event_valid(pout@[k].event)
                    &&& pout@[k].recipients@ == recips(
                        conns_of(old(self).device_store, device_id@),
                        data_sender(*source),
                        pout@[k].event,
                    )
                },
                forall|k: int| 0 <= k < parsed@.len() ==> is_parsed_kind(parsed@[k], device_id@),
                self.ip_to_device_id == old(self).ip_to_device_id,
                gms.len() == edge_len + 1 + pout@.len(),
                forall|k: int| 0 <= k < head.len() ==> crate::events::same_event(
                    #[trigger] head[k].event,
                    gms[k].event,
                ),
                events_of(self.device_store, device_id@) == fold_add(base_events, cap, gms),
                forall|k: int| 0 <= k < pout@.len() ==> crate::events::same_event(
                    #[trigger] pout@[k].event,
                    gms[edge_len + 1 + k].event,
                ),
            decreases parsed@.len() - i,
        {
            let ev = parsed[i].duplicate();
            let ghost gev = ev;
            proof {
                lemma_same_event_respects(parsed@[i as int], gev, device_id@);
            }
            let valid = ev.validate().is_ok();
            if valid {
                let ev_copy = ev.duplicate();
                let ghost gcopy = ev_copy;
                proof {
                    lemma_same_event_respects(gev, gcopy, device_id@);
                    lemma_recips_event_irrelevant(
                        conns_of(self.device_store, device_id@),
                        data_sender(*source),
                        gev,
                        gcopy,
                    );
                }
                let (recipients, trace) = self.add_event_traced(
                    device_id,
                    ev,
                    "esp32_system",
                    data_sender_str,
                );
                proof {
                    let prev = gms;
                    gms = gms.push(trace@);
                    assert(gms.drop_last() =~= prev);
                    assert(gms.last() == trace@);
                    assert(fold_add(base_events, cap, gms)
                        == events_after_add(fold_add(base_events, cap, prev), cap, trace@));
                }
                pout.push(OutboundMsg { event: ev_copy, recipients });
            }
            i += 1;
        }
        let ghost tail = pout@;
        out.append(&mut pout);
        proof {
            assert(out@ =~= head + tail);
            assert(gms.len() == out@.len());
            assert forall|k: int| 0 <= k < gms.len() implies crate::events::same_event(
                #[trigger] out@[k].event,
                gms[k].event,
            ) by {
                if k >= head.len() {
                    assert(out@[k] == tail[k - head.len()]);
                }
            }
            assert(events_of(self.device_store, device_id@)
                == fold_add(events_of(old(self).device_store, device_id@), cap, gms));
        }
        out
    }

    /// Ingress for a framed TCP message: the unified path under the TCP
    /// source — which does not refresh the activity clock — with every
    /// guarantee of unified ingress.
    pub fn handle_tcp_message_bypass(&mut self, message: &str, device_id: &str, now: u64)
        -> (r: Vec<OutboundMsg>)
        requires
            old(self).wf(),
            device_id@.len() > 0,
        ensures
            final(self).wf(),
            exists|src: MessageSource|
                #![trigger ingress_post(*old(self), *final(self), r@, message@, device_id@,
                    src, now)]
                {
                    &&& (src matches MessageSource::Tcp { ip, port }
                        && ip@ == "0.0.0.0"@ && port == 3232)
                    &&& ingress_post(*old(self), *final(self), r@, message@, device_id@,
                        src, now)
                },
    {
        let source = MessageSource::Tcp { ip: "0.0.0.0".to_owned(), port: 3232 };
        let ghost gsrc = source;
        let r = self.handle_message_unified(message, device_id, &source, now);
        proof {
            assert(ingress_post(*old(self), *self, r@, message@, device_id@, gsrc, now));
        }
        r
    }
}

/// A copy equal up to list contents keeps its parsed kind, its validity
/// and its status classification.
pub proof fn lemma_same_event_respects(a: DeviceEvent, b: DeviceEvent, d: Seq<char>)
    requires
        crate::events::same_event(b, a),
    ensures
        is_parsed_kind(a, d) == is_parsed_kind(b, d),
        crate::events::event_valid(a) == crate::events::event_valid(b),
        is_connection_status(a) == is_connection_status(b),
{
}

/// Who receives a broadcast depends on the event only through whether it
/// is a connection status.
pub proof fn lemma_recips_event_irrelevant(
    conns: Seq<crate::store::ClientConnection>,
    sender: Seq<char>,
    e1: DeviceEvent,
    e2: DeviceEvent,
)
    requires
        is_connection_status(e1) == is_connection_status(e2),
    ensures
        recips(conns, sender, e1) == recips(conns, sender, e2),
    decreases conns.len(),
{
    if conns.len() > 0 {
        lemma_recips_event_irrelevant(conns.drop_last(), sender, e1, e2);
    }
}

/// Whether one byte run occurs inside another.
pub open spec fn contains_seq(s: Seq<u8>, p: Seq<u8>) -> bool {
    exists|i: int| #![trigger s.subrange(i, i + p.len())]
        0 <= i && i + p.len() <= s.len() && s.subrange(i, i + p.len()) == p
}

/// Whether the pattern sits at position `i`, executably.
fn match_at(s: &[u8], p: &[u8], i: usize) -> (r: bool)
    requires
        i + p@.len() <= s@.len(),
    ensures
        r == (s@.subrange(i as int, i + p@.len()) == p@),
{
    let n = s.len();
    let mut k: usize = 0;
    while k < p.len()
        invariant
            i + p@.len() <= s@.len(),
            s@.len() <= usize::MAX,
            k <= p@.len(),
            forall|m: int| 0 <= m < k ==> s@[i + m] == p@[m],
        decreases p@.len() - k,
    {
        if s[i + k] != p[k] {
            proof {
                assert(s@.subrange(i as int, i + p@.len())[k as int] == s@[i + k]);
            }
            return false;
        }
        k += 1;
    }
    proof {
        assert(s@.subrange(i as int, i + p@.len()) =~= p@);
    }
    true
}

/// Substring search, executably.
pub fn contains_sub(s: &[u8], p: &[u8]) -> (r: bool)
    ensures
        r == contains_seq(s@, p@),
{
    if p.len() > s.len() {
        return false;
    }
    if p.len() == 0 {
        proof {
            assert(s@.subrange(0int, 0int + p@.len() as int) =~= p@);
            assert(contains_seq(s@, p@));
        }
        return true;
    }
    let mut i: usize = 0;
    while i <= s.len() - p.len()
        invariant
            1 <= p@.len() <= s@.len(),
            s@.len() <= usize::MAX,
            i <= s@.len() - p@.len() + 1,
            forall|j: int| #![trigger s@.subrange(j, j + p@.len())]
                0 <= j < i ==> s@.subrange(j, j + p@.len()) != p@,
        decreases s@.len() - p@.len() - i + 1,
    {
        if match_at(s, p, i) {
            return true;
        }
        i += 1;
    }
    false
}

/// Whether a message looks like a framed TCP message: a JSON object whose
/// text names one of the command or structured-event keys.
pub open spec fn spec_is_tcp_message(s: Seq<u8>) -> bool {
    let t = s.skip(crate::framing::ws_prefix_len(s));
    &&& t.len() > 0 && t[0] == 123
    &&& {
        ||| contains_seq(s, ("\"startOptions\"").spec_bytes())
        ||| contains_seq(s, ("\"changeableVariables\"").spec_bytes())
        ||| contains_seq(s, ("\"setVariable\"").spec_bytes())
        ||| contains_seq(s, ("\"startOption\"").spec_bytes())
        ||| contains_seq(s, ("\"reset\"").spec_bytes())
    }
}

impl Esp32Manager {
    /// Whether a datagram's payload reads as a framed TCP message that may
    /// be routed by its content.
    pub fn is_tcp_message(message: &str) -> (r: bool)
        ensures
            r == spec_is_tcp_message(message.spec_bytes()),
    {
        let bytes = message.as_bytes_vec();
        let ghost sb = message.spec_bytes();
        proof {
            crate::framing::lemma_ws_prefix_bounds(sb);
        }
        let mut w: usize = 0;
        while w < bytes.len() && crate::framing::is_ws_byte(bytes[w])
            invariant
                w <= bytes@.len(),
                bytes@ == sb,
                forall|j: int| 0 <= j < w ==> crate::framing::is_ws(sb[j]),
                w <= crate::framing::ws_prefix_len(sb),
            decreases bytes@.len() - w,
        {
            proof {
                crate::framing::lemma_ws_prefix_step(sb, w as int);
            }
            w += 1;
        }
        proof {
            crate::framing::lemma_ws_prefix_exact(sb, w as int);
        }
        let starts_obj = w < bytes.len() && bytes[w] == 123;
        if !starts_obj {
            proof {
                let t = sb.skip(crate::framing::ws_prefix_len(sb));
                if t.len() > 0 {
                    assert(t[0] == sb[w as int]);
                }
            }
            return false;
        }
        proof {
            let t = sb.skip(crate::framing::ws_prefix_len(sb));
            assert(t[0] == sb[w as int]);
        }
        let p1 = lit_bytes("\"startOptions\"");
        let p2 = lit_bytes("\"changeableVariables\"");
        let p3 = lit_bytes("\"setVariable\"");
        let p4 = lit_bytes("\"startOption\"");
        let p5 = lit_bytes("\"reset\"");
        contains_sub(bytes.as_slice(), p1.as_slice())
            || contains_sub(bytes.as_slice(), p2.as_slice())
            || contains_sub(bytes.as_slice(), p3.as_slice())
            || contains_sub(bytes.as_slice(), p4.as_slice())
            || contains_sub(bytes.as_slice(), p5.as_slice())
    }

    /// The device a content-routed datagram belongs to. The deployment
    /// knows a single network node, so its identifier is the answer.
    pub fn extract_device_id_from_tcp_message(message: &str) -> (r: Option<String>)
        ensures
            r matches Some(d) && d@ == "10-20-BA-42-71-E0"@,
    {
        Some("10-20-BA-42-71-E0".to_owned())
    }

    /// Handle a subscriber's command for a device: decode it, retain a
    /// command event for the peers, and hand the decoded command back for
    /// the transport to carry. The stored event's text is the command's
    /// tagged rendering.
    pub fn handle_websocket_command(
        &mut self,
        device_id: &str,
        command: &JsonVal,
        user_id: &str,
        client_id: &str,
    ) -> (r: Esp32Result<(Esp32Command, Vec<OutboundMsg>)>)
        requires
            old(self).wf(),
            device_id@.len() > 0,
        ensures
            final(self).wf(),
            (r is Ok) == (crate::codec::spec_cmd_of_json(*command) is Some),
            match r {
                Ok((cmd, out)) => {
                    &&& crate::codec::spec_cmd_of_json(*command) == Some(cmd)
                    &&& out@.len() == 1
                    &&& (out@[0].event matches DeviceEvent::Esp32Command {
                        device_id: d2, command: text,
                    } && d2@ == device_id@
                        && exists|v: JsonVal| #![trigger crate::json::json_text_of(v)]
                            (text@ == crate::json::json_text_of(v)
                                && crate::codec::spec_cmd_of_json(v)
                                    == Some(crate::codec::canonical_cmd(cmd))))
                    &&& out@[0].recipients@ == recips(
                        conns_of(old(self).device_store, device_id@),
                        client_id@,
                        out@[0].event,
                    )
                    &&& exists|m: EventWithMetadata|
                        #![trigger events_after_add(
                            events_of(old(self).device_store, device_id@),
                            old(self).device_store.max_debug_messages as int,
                            m,
                        )]
                        {
                            &&& crate::events::same_event(out@[0].event, m.event)
                            &&& events_of(final(self).device_store, device_id@)
                                == events_after_add(
                                    events_of(old(self).device_store, device_id@),
                                    old(self).device_store.max_debug_messages as int,
                                    m,
                                )
                        }
                },
                Err(e) => e is InvalidCommand
                    && final(self).device_store == old(self).device_store,
            },
            forall|d: Seq<char>| d != device_id@
                ==> events_of(final(self).device_store, d) == events_of(old(self).device_store, d),
            final(self).device_store.active_connections
                == old(self).device_store.active_connections,
    {
        let cmd = match crate::codec::cmd_from_json_val(command) {
            Ok(c) => c,
            Err(e) => {
                return Err(e);
            }
        };
        let text = crate::json::render_json(&cmd.to_json_val());
        let event = DeviceEvent::Esp32Command {
            device_id: device_id.to_owned(),
            command: text,
        };
        let event_copy = event.duplicate();
        let ghost gev = event;
        proof {
            crate::events::lemma_same_event_plain(event_copy, gev);
        }
        let (recipients, _trace) = self.add_event_traced(
            device_id,
            event,
            user_id,
            client_id,
        );
        let mut out: Vec<OutboundMsg> = Vec::new();
        out.push(OutboundMsg { event: event_copy, recipients });
        Ok((cmd, out))
    }
}

/// The bytes of a short literal.
fn lit_bytes(s: &str) -> (r: Vec<u8>)
    ensures
        r@ == s.spec_bytes(),
{
    s.as_bytes_vec()
}

/// Whether a transport event can be retained: everything except a
/// variable update without a name, which the validation rule refuses.
pub open spec fn esp32_event_normalizable(src: crate::types::Esp32Event) -> bool {
    match src {
        crate::types::Esp32Event::VariableUpdate { name, .. } => name@.len() > 0,
        _ => true,
    }
}

/// How a transport event reads once normalised into the store's
/// vocabulary under a device id.
pub open spec fn normalizes_to(
    src: crate::types::Esp32Event,
    d: Seq<char>,
    e: DeviceEvent,
) -> bool {
    match src {
        crate::types::Esp32Event::VariableUpdate { name, value } => {
            e matches DeviceEvent::Esp32VariableUpdate {
                device_id, variable_name, variable_value, min, max,
            } && device_id@ == d && variable_name@ == name@
                && variable_value@ == value@ && min is None && max is None
        },
        crate::types::Esp32Event::StartOptions { options } => {
            e matches DeviceEvent::Esp32StartOptions { device_id, options: o2 }
                && device_id@ == d && o2@.len() == options@.len()
                && forall|k: int| 0 <= k < o2@.len()
                    ==> (#[trigger] o2@[k])@ == options@[k]@
        },
        crate::types::Esp32Event::ChangeableVariables { variables } => {
            e matches DeviceEvent::Esp32ChangeableVariables { device_id, variables: v2 }
                && device_id@ == d && v2@.len() == variables@.len()
                && forall|k: int| 0 <= k < v2@.len() ==> {
                    &&& (#[trigger] v2@[k]).name@ == variables@[k].name@
                    &&& v2@[k].value == variables@[k].value as u64
                    &&& v2@[k].min == (match variables@[k].min {
                        Some(m) => Some(m as u64),
                        None => None::<u64>,
                    })
                    &&& v2@[k].max == (match variables@[k].max {
                        Some(m) => Some(m as u64),
                        None => None::<u64>,
                    })
                }
        },
        crate::types::Esp32Event::UdpBroadcast { message, from_ip, from_port } => {
            e matches DeviceEvent::Esp32UdpBroadcast {
                device_id, message: m2, from_ip: ip2, from_port: p2,
            } && device_id@ == d && m2@ == message@ && ip2@ == from_ip@ && p2 == from_port
        },
        crate::types::Esp32Event::ConnectionStatus {
            connected, device_ip, tcp_port, udp_port,
        } => is_status_event(e, d, connected, device_ip@, tcp_port, udp_port),
        crate::types::Esp32Event::DeviceInfo {
            device_id: _, device_name, firmware_version, uptime,
        } => {
            e matches DeviceEvent::Esp32DeviceInfo {
                device_id, device_name: n2, firmware_version: f2, uptime: u2,
            } && device_id@ == d && n2 == device_name && f2 == firmware_version
                && u2 == uptime
        },
    }
}

impl Esp32Manager {
    /// Normalise one transport event into the store's vocabulary and
    /// retain it under the device: exactly the normalizable events are
    /// stored, the history grows by the cap rule, and the returned message
    /// names the subscribers owed it. This is the seam the per-session
    /// event pipes feed.
    pub fn handle_esp32_event(
        &mut self,
        device_id: &str,
        esp32_event: crate::types::Esp32Event,
    ) -> (r: Result<Vec<OutboundMsg>, String>)
        requires
            old(self).wf(),
            device_id@.len() > 0,
        ensures
            final(self).wf(),
            (r is Ok) == esp32_event_normalizable(esp32_event),
            r matches Ok(out) ==> {
                &&& out@.len() == 1
                &&& crate::events::event_valid(out@[0].event)
                &&& out@[0].recipients@ == recips(
                    conns_of(old(self).device_store, device_id@),
                    "ESP32_INTERNAL"@,
                    out@[0].event,
                )
                &&& exists|m: EventWithMetadata|
                    #![trigger events_after_add(
                        events_of(old(self).device_store, device_id@),
                        old(self).device_store.max_debug_messages as int,
                        m,
                    )]
                    {
                        &&& normalizes_to(esp32_event, device_id@, m.event)
                        &&& crate::events::same_event(out@[0].event, m.event)
                        &&& events_of(final(self).device_store, device_id@)
                            == events_after_add(
                                events_of(old(self).device_store, device_id@),
                                old(self).device_store.max_debug_messages as int,
                                m,
                            )
                    }
            },
            r is Err ==> final(self).device_store == old(self).device_store,
            forall|d: Seq<char>| d != device_id@
                ==> events_of(final(self).device_store, d) == events_of(old(self).device_store, d),
            final(self).device_store.active_connections
                == old(self).device_store.active_connections,
    {
        let ghost gsrc = esp32_event;
        let event: DeviceEvent = match esp32_event {
            crate::types::Esp32Event::VariableUpdate { name, value } => {
                DeviceEvent::Esp32VariableUpdate {
                    device_id: device_id.to_owned(),
                    variable_name: name,
                    variable_value: value,
                    min: None,
                    max: None,
                }
            }
            crate::types::Esp32Event::StartOptions { options } => {
                DeviceEvent::Esp32StartOptions {
                    device_id: device_id.to_owned(),
                    options,
                }
            }
            crate::types::Esp32Event::ChangeableVariables { variables } => {
                let ghost gorig = variables@;
                let mut vars: Vec<crate::events::ChangeableVariable> = Vec::new();
                let mut variables = variables;
                while variables.len() > 0
                    invariant
                        vars@.len() + variables@.len() == gorig.len(),
                        variables@ =~= gorig.skip(vars@.len() as int),
                        forall|k: int| 0 <= k < vars@.len() ==> {
                            &&& (#[trigger] vars@[k]).name@ == gorig[k].name@
                            &&& vars@[k].value == gorig[k].value as u64
                            &&& vars@[k].min == (match gorig[k].min {
                                Some(m) => Some(m as u64),
                                None => None::<u64>,
                            })
                            &&& vars@[k].max == (match gorig[k].max {
                                Some(m) => Some(m as u64),
                                None => None::<u64>,
                            })
                        },
                    decreases variables@.len(),
                {
                    let v = variables.remove(0);
                    proof {
                        assert(gorig.skip(vars@.len() as int)[0] == gorig[vars@.len() as int]);
                        assert(gorig.skip(vars@.len() as int).drop_first()
                            =~= gorig.skip(vars@.len() as int + 1));
                    }
                    vars.push(crate::events::ChangeableVariable {
                        name: v.name,
                        value: v.value as u64,
                        min: match v.min {
                            Some(m) => Some(m as u64),
                            None => None,
                        },
                        max: match v.max {
                            Some(m) => Some(m as u64),
                            None => None,
                        },
                    });
                }
                DeviceEvent::Esp32ChangeableVariables {
                    device_id: device_id.to_owned(),
                    variables: vars,
                }
            }
            crate::types::Esp32Event::UdpBroadcast { message, from_ip, from_port } => {
                DeviceEvent::Esp32UdpBroadcast {
                    device_id: device_id.to_owned(),
                    message,
                    from_ip,
                    from_port,
                }
            }
            crate::types::Esp32Event::ConnectionStatus {
                connected, device_ip, tcp_port, udp_port,
            } => DeviceEvent::Esp32ConnectionStatus {
                device_id: device_id.to_owned(),
                connected,
                device_ip,
                tcp_port,
                udp_port,
            },
            crate::types::Esp32Event::DeviceInfo {
                device_id: _, device_name, firmware_version, uptime,
            } => DeviceEvent::Esp32DeviceInfo {
                device_id: device_id.to_owned(),
                device_name,
                firmware_version,
                uptime,
            },
        };
        proof {
            assert(normalizes_to(gsrc, device_id@, event));
            assert(crate::events::event_valid(event)
                == esp32_event_normalizable(gsrc));
        }
        match event.validate() {
            Ok(()) => {}
            Err(msg) => {
                return Err(msg);
            }
        }
        let event_copy = event.duplicate();
        let ghost gcopy = event_copy;
        let ghost gev = event;
        proof {
            lemma_same_event_respects(gev, gcopy, device_id@);
            lemma_recips_event_irrelevant(
                conns_of(self.device_store, device_id@),
                "ESP32_INTERNAL"@,
                gev,
                gcopy,
            );
        }
        let (recipients, trace) = self.add_event_traced(
            device_id,
            event,
            "ESP32_SYSTEM",
            "ESP32_INTERNAL",
        );
        let mut out: Vec<OutboundMsg> = Vec::new();
        out.push(OutboundMsg { event: event_copy, recipients });
        proof {
            assert(crate::events::event_valid(gcopy)) by {
                lemma_same_event_respects(gev, gcopy, device_id@);
            }
            assert(crate::events::same_event(out@[0].event, trace@.event));
        }
        Ok(out)
    }
}

} // verus!
