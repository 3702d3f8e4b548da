//! The event store: per-device event history under the raw-telemetry cap,
//! the subscriber registry with presence colors, and broadcast with
//! subscription filtering. The store itself performs no sends: a broadcast
//! names the clients owed the message, and the channel layer delivers.

use vstd::prelude::*;
use crate::alist::AList;
use crate::events::{
    DeviceEvent, EventWithMetadata, SubscriptionType, event_valid, is_raw_broadcast,
    is_connection_status,
};
use crate::strutil::str_eq;

verus! {

/// One subscriber's registration on one device.
#[derive(Debug, Clone)]
pub struct ClientConnection {
    pub user_id: String,
    pub display_name: String,
    pub client_id: String,
    pub user_color: String,
    pub subscription_type: SubscriptionType,
}

impl ClientConnection {
    pub fn new(
        user_id: String,
        display_name: String,
        client_id: String,
        user_color: String,
        subscription_type: SubscriptionType,
    ) -> (r: Self)
        ensures
            r.user_id == user_id,
            r.display_name == display_name,
            r.client_id == client_id,
            r.user_color == user_color,
            r.subscription_type == subscription_type,
    {
        ClientConnection { user_id, display_name, client_id, user_color, subscription_type }
    }
}

/// How many raw-telemetry events a history holds.
pub open spec fn raw_count(s: Seq<EventWithMetadata>) -> int
    decreases s.len(),
{
    if s.len() == 0 {
        0
    } else {
        raw_count(s.drop_last()) + if is_raw_broadcast(s.last().event) { 1int } else { 0int }
    }
}

/// The position of the oldest raw-telemetry event at or after `from`.
pub open spec fn first_raw(s: Seq<EventWithMetadata>, from: int) -> Option<int>
    decreases s.len() - from when 0 <= from <= s.len()
{
    if from >= s.len() {
        None
    } else if is_raw_broadcast(s[from].event) {
        Some(from)
    } else {
        first_raw(s, from + 1)
    }
}

/// What storing one event does to a history: raw telemetry at or over the
/// cap evicts the oldest raw event first; everything else only appends.
pub open spec fn events_after_add(
    s: Seq<EventWithMetadata>,
    cap: int,
    e: EventWithMetadata,
) -> Seq<EventWithMetadata> {
    if is_raw_broadcast(e.event) && cap > 0 && raw_count(s) >= cap {
        match first_raw(s, 0) {
            Some(i) => s.remove(i).push(e),
            None => s.push(e),
        }
    } else {
        s.push(e)
    }
}

/// Whether a connection is owed a broadcast: never the sender itself, and a
/// `Light` subscriber only for connection status events.
pub open spec fn eligible(c: ClientConnection, sender: Seq<char>, e: DeviceEvent) -> bool {
    c.client_id@ != sender
        && (c.subscription_type == SubscriptionType::Full || is_connection_status(e))
}

/// The clients owed a broadcast, in registration order.
pub open spec fn recips(
    conns: Seq<ClientConnection>,
    sender: Seq<char>,
    e: DeviceEvent,
) -> Seq<String>
    decreases conns.len(),
{
    if conns.len() == 0 {
        Seq::empty()
    } else {
        let pre = recips(conns.drop_last(), sender, e);
        if eligible(conns.last(), sender, e) {
            pre.push(conns.last().client_id)
        } else {
            pre
        }
    }
}

/// The in-memory store of device event histories and active subscribers.
pub struct DeviceEventStore {
    pub device_events: AList<Vec<EventWithMetadata>>,
    pub active_connections: AList<Vec<ClientConnection>>,
    pub max_debug_messages: usize,
}

/// The history retained for a device, empty when the device is unknown.
pub open spec fn events_of(s: DeviceEventStore, d: Seq<char>) -> Seq<EventWithMetadata> {
    match s.device_events.spec_get(d) {
        Some(v) => v@,
        None => Seq::empty(),
    }
}

/// The subscribers registered on a device, empty when the device is unknown.
pub open spec fn conns_of(s: DeviceEventStore, d: Seq<char>) -> Seq<ClientConnection> {
    match s.active_connections.spec_get(d) {
        Some(v) => v@,
        None => Seq::empty(),
    }
}

impl DeviceEventStore {
    /// Both registries keep their keys unique.
    pub open spec fn wf(&self) -> bool {
        self.device_events.wf() && self.active_connections.wf()
    }

    /// An empty store at the default raw-telemetry cap.
    pub fn new() -> (r: Self)
        ensures
            r.wf(),
            r.device_events@ =~= Seq::<(String, Vec<EventWithMetadata>)>::empty(),
            r.active_connections@ =~= Seq::<(String, Vec<ClientConnection>)>::empty(),
            r.max_debug_messages == 200,
    {
        DeviceEventStore {
            device_events: AList::new(),
            active_connections: AList::new(),
            max_debug_messages: 200,
        }
    }

    /// Change the raw-telemetry cap. Histories already over the new cap are
    /// not truncated; the next raw insertion evicts one.
    pub fn set_max_debug_messages(&mut self, max: usize)
        ensures
            final(self).max_debug_messages == max,
            final(self).device_events == old(self).device_events,
            final(self).active_connections == old(self).active_connections,
    {
        self.max_debug_messages = max;
    }

    pub fn get_max_debug_messages(&self) -> (r: usize)
        ensures
            r == self.max_debug_messages,
    {
        self.max_debug_messages
    }

    /// Store one event under a device and name the subscribers owed it.
    /// An event that fails validation is rejected and nothing changes.
    pub fn add_event(
        &mut self,
        device_id: String,
        event: DeviceEvent,
        user_id: String,
        client_id: String,
    ) -> (r: Result<Vec<String>, String>)
        requires
            old(self).wf(),
        ensures
            final(self).wf(),
            final(self).max_debug_messages == old(self).max_debug_messages,
            final(self).active_connections == old(self).active_connections,
            match r {
                Ok(recipients) => {
                    &&& event_valid(event)
                    &&& exists|id: String, ts: i64|
                        events_of(*final(self), device_id@) == events_after_add(
                            events_of(*old(self), device_id@),
                            old(self).max_debug_messages as int,
                            EventWithMetadata {
                                event: event,
                                id: id,
                                timestamp: ts,
                                user_id: user_id,
                                is_replay: None,
                            },
                        )
                    &&& forall|d: Seq<char>| d != device_id@
                        ==> events_of(*final(self), d) == events_of(*old(self), d)
                    &&& recipients@ == recips(conns_of(*old(self), device_id@), client_id@, event)
                },
                Err(_) => !event_valid(event) && final(self).device_events
                    == old(self).device_events,
            },
    {
        match event.validate() {
            Ok(()) => {}
            Err(msg) => {
                return Err("Invalid event: ".to_owned().concat(msg.as_str()));
            }
        }
        let is_debug = event.is_raw();
        let cap = self.max_debug_messages;

        let ghost gevent = event;
        let ghost guser = user_id;
        let ewm = EventWithMetadata {
            event: event,
            id: crate::sys::fresh_event_id(),
            timestamp: crate::sys::now_millis(),
            user_id: user_id,
            is_replay: None,
        };
        let ghost gid = ewm.id;
        let ghost gts = ewm.timestamp;
        let ghost gewm = ewm;

        let mut evs: Vec<EventWithMetadata> = match self.device_events.take(device_id.as_str()) {
            Some(v) => v,
            None => Vec::new(),
        };
        let ghost evs0 = evs@;

        if is_debug && cap > 0 {
            let rc = raw_count_vec(&evs);
            if rc >= cap {
                match first_raw_vec(&evs) {
                    Some(i) => {
                        evs.remove(i);
                    }
                    None => {}
                }
            }
        }
        let recipients = self.broadcast_event(device_id.as_str(), &ewm.event, client_id.as_str());
        evs.push(ewm);
        let ghost evs1 = evs@;
        self.device_events.set(device_id, evs);
        proof {
            assert(gewm == (EventWithMetadata {
                event: gevent, id: gid, timestamp: gts, user_id: guser, is_replay: None,
            }));
            assert(evs0 == events_of(*old(self), device_id@));
            assert(cap == old(self).max_debug_messages);
            assert(events_of(*self, device_id@) == evs1);
            assert(evs1 == events_after_add(evs0, cap as int, gewm));
            assert(events_of(*self, device_id@) == events_after_add(
                events_of(*old(self), device_id@),
                old(self).max_debug_messages as int,
                EventWithMetadata {
                    event: gevent, id: gid, timestamp: gts, user_id: guser, is_replay: None,
                },
            ));
        }
        Ok(recipients)
    }

    /// Name the subscribers on a device owed an event, skipping the sender
    /// and filtering `Light` subscriptions down to connection status.
    pub fn broadcast_event(
        &self,
        device_id: &str,
        event: &DeviceEvent,
        sender_client_id: &str,
    ) -> (r: Vec<String>)
        ensures
            r@ == recips(conns_of(*self, device_id@), sender_client_id@, *event),
    {
        let mut out: Vec<String> = Vec::new();
        let conns = match self.active_connections.get(device_id) {
            Some(v) => v,
            None => {
                return out;
            }
        };
        let is_status = event.is_status();
        let mut i: usize = 0;
        while i < conns.len()
            invariant
                i <= conns@.len(),
                conns@ == conns_of(*self, device_id@),
                is_status == is_connection_status(*event),
                out@ == recips(conns@.take(i as int), sender_client_id@, *event),
            decreases conns@.len() - i,
        {
            proof {
                assert(conns@.take(i + 1).drop_last() =~= conns@.take(i as int));
                assert(conns@.take(i + 1).last() == conns@[i as int]);
            }
            let c = &conns[i];
            let skip_sender = str_eq(c.client_id.as_str(), sender_client_id);
            let light = match c.subscription_type {
                SubscriptionType::Light => true,
                SubscriptionType::Full => false,
            };
            if !skip_sender && (!light || is_status) {
                out.push(c.client_id.clone());
            }
            i += 1;
        }
        proof {
            assert(conns@.take(conns@.len() as int) =~= conns@);
        }
        out
    }
}

/// The color of the first connection a user holds, if any.
pub open spec fn find_user_color(conns: Seq<ClientConnection>, user: Seq<char>) -> Option<String>
    decreases conns.len(),
{
    if conns.len() == 0 {
        None
    } else if conns[0].user_id@ == user {
        Some(conns[0].user_color)
    } else {
        find_user_color(conns.drop_first(), user)
    }
}

/// Whether a user holds any connection.
pub open spec fn user_present(conns: Seq<ClientConnection>, user: Seq<char>) -> bool {
    exists|i: int| 0 <= i < conns.len() && conns[i].user_id@ == user
}

/// The connections that stay when a client's own entry is dropped, in order.
pub open spec fn without_client(
    conns: Seq<ClientConnection>,
    client: Seq<char>,
) -> Seq<ClientConnection>
    decreases conns.len(),
{
    if conns.len() == 0 {
        Seq::empty()
    } else {
        let rest = without_client(conns.drop_last(), client);
        if conns.last().client_id@ == client {
            rest
        } else {
            rest.push(conns.last())
        }
    }
}

/// The first connection a client holds, if any.
pub open spec fn find_client(
    conns: Seq<ClientConnection>,
    client: Seq<char>,
) -> Option<ClientConnection>
    decreases conns.len(),
{
    if conns.len() == 0 {
        None
    } else if conns[0].client_id@ == client {
        Some(conns[0])
    } else {
        find_client(conns.drop_first(), client)
    }
}

/// The color of each distinct user, in order of first registration.
pub open spec fn unique_user_colors(conns: Seq<ClientConnection>) -> Seq<String>
    decreases conns.len(),
{
    if conns.len() == 0 {
        Seq::empty()
    } else {
        let pre = unique_user_colors(conns.drop_last());
        if user_present(conns.drop_last(), conns.last().user_id@) {
            pre
        } else {
            pre.push(conns.last().user_color)
        }
    }
}

/// What a registration yields: the replay snapshot, the presence event that
/// was broadcast, who it went to, and the color in effect.
pub struct RegisterOutcome {
    pub replay: Vec<DeviceEvent>,
    pub emitted: DeviceEvent,
    pub recipients: Vec<String>,
    pub user_color: String,
    pub is_reconnection: bool,
}

/// What an unregistration yields: the presence event broadcast when the
/// client was registered, and who it went to.
pub struct UnregisterOutcome {
    pub emitted: Option<DeviceEvent>,
    pub recipients: Vec<String>,
}

impl DeviceEventStore {
    /// The replay snapshot: every retained event of the device, in order.
    pub fn get_device_events(&self, device_id: &str) -> (r: Vec<DeviceEvent>)
        ensures
            crate::events::same_events(
                r@,
                events_of(*self, device_id@).map_values(|m: EventWithMetadata| m.event),
            ),
    {
        let mut out: Vec<DeviceEvent> = Vec::new();
        let evs = match self.device_events.get(device_id) {
            Some(v) => v,
            None => {
                return out;
            }
        };
        let mut i: usize = 0;
        while i < evs.len()
            invariant
                i <= evs@.len(),
                evs@ == events_of(*self, device_id@),
                out@.len() == i,
                forall|j: int| 0 <= j < i ==> crate::events::same_event(
                    out@[j],
                    evs@[j].event,
                ),
            decreases evs@.len() - i,
        {
            out.push(evs[i].event.duplicate());
            i += 1;
        }
        out
    }

    /// Device-specific information; the per-device stream carries none
    /// beyond its events, so this is empty.
    pub fn get_device_info(&self, device_id: &str) -> (r: Vec<DeviceEvent>)
        ensures
            r@.len() == 0,
    {
        let _ = device_id;
        Vec::new()
    }

    /// How many events a device retains.
    pub fn get_event_count(&self, device_id: &str) -> (r: usize)
        ensures
            r == events_of(*self, device_id@).len(),
    {
        match self.device_events.get(device_id) {
            Some(v) => v.len(),
            None => 0,
        }
    }

    /// Drop a device's history.
    pub fn clear_device_events(&mut self, device_id: &str) -> (r: Result<(), String>)
        requires
            old(self).wf(),
        ensures
            final(self).wf(),
            r is Ok,
            events_of(*final(self), device_id@) =~= Seq::<EventWithMetadata>::empty(),
            forall|d: Seq<char>| d != device_id@
                ==> events_of(*final(self), d) == events_of(*old(self), d),
            final(self).active_connections == old(self).active_connections,
            final(self).max_debug_messages == old(self).max_debug_messages,
    {
        match self.device_events.take(device_id) {
            Some(_) => {
                self.device_events.set(device_id.to_owned(), Vec::new());
            }
            None => {}
        }
        Ok(())
    }

    /// How many subscribers a device has.
    pub fn get_connection_count(&self, device_id: &str) -> (r: usize)
        ensures
            r == conns_of(*self, device_id@).len(),
    {
        match self.active_connections.get(device_id) {
            Some(v) => v.len(),
            None => 0,
        }
    }

    /// Register a client on a device: drop any prior entry under the same
    /// client id, keep the user's color where a surviving entry shares the
    /// user, broadcast the presence change — a real join for a new user, a
    /// count refresh for a returning one — and hand back the replay
    /// snapshot.
    pub fn register_client(
        &mut self,
        device_id: String,
        user_id: String,
        display_name: String,
        client_id: String,
        subscription_type: SubscriptionType,
    ) -> (r: RegisterOutcome)
        requires
            old(self).wf(),
        ensures
            final(self).wf(),
            final(self).device_events == old(self).device_events,
            final(self).max_debug_messages == old(self).max_debug_messages,
            ({
                let conns0 = conns_of(*old(self), device_id@);
                let kept = without_client(conns0, client_id@);
                let new_conn = ClientConnection {
                    user_id: user_id,
                    display_name: display_name,
                    client_id: client_id,
                    user_color: r.user_color,
                    subscription_type: subscription_type,
                };
                &&& r.is_reconnection == (find_user_color(kept, user_id@) is Some)
                &&& match find_user_color(kept, user_id@) {
                    Some(c) => r.user_color == c,
                    None => r.user_color@ == crate::color::spec_user_color(
                        vstd::utf8::encode_utf8(user_id@),
                        unique_user_colors(kept),
                    ),
                }
                &&& conns_of(*final(self), device_id@) == kept.push(new_conn)
                &&& forall|d: Seq<char>| d != device_id@
                    ==> conns_of(*final(self), d) == conns_of(*old(self), d)
                &&& (r.is_reconnection ==> is_refresh_joined(r.emitted))
                &&& (!r.is_reconnection ==> r.emitted == (DeviceEvent::UserJoined {
                    user_id: user_id,
                    display_name: display_name,
                    user_color: r.user_color,
                }))
                &&& r.recipients@ == recips(kept.push(new_conn), client_id@, r.emitted)
                &&& crate::events::same_events(
                    r.replay@,
                    events_of(*old(self), device_id@)
                        .map_values(|m: EventWithMetadata| m.event),
                )
            }),
    {
        let conns: Vec<ClientConnection> = match self.active_connections.take(device_id.as_str()) {
            Some(v) => v,
            None => Vec::new(),
        };
        let ghost conns0 = conns@;

        let kept = without_client_vec(&conns, client_id.as_str());
        let existing_color = find_user_color_vec(&kept, user_id.as_str());
        let ghost gkept = kept@;
        let mut kept = kept;

        let is_reconnection = existing_color.is_some();
        let user_color = match existing_color {
            Some(c) => c,
            None => {
                let colors = unique_user_colors_vec(&kept);
                crate::color::generate_user_color(user_id.as_str(), &colors)
            }
        };

        let new_conn = ClientConnection {
            user_id: user_id.clone(),
            display_name: display_name.clone(),
            client_id: client_id.clone(),
            user_color: user_color.clone(),
            subscription_type: subscription_type,
        };
        kept.push(new_conn);
        self.active_connections.set(device_id.clone(), kept);

        proof {
            reveal_strlit("USER_COUNT_REFRESH");
            reveal_strlit("");
        }
        let emitted = if is_reconnection {
            DeviceEvent::UserJoined {
                user_id: "USER_COUNT_REFRESH".to_owned(),
                display_name: "".to_owned(),
                user_color: "".to_owned(),
            }
        } else {
            DeviceEvent::UserJoined {
                user_id: user_id,
                display_name: display_name,
                user_color: user_color.clone(),
            }
        };
        let recipients = self.broadcast_event(device_id.as_str(), &emitted, client_id.as_str());
        let replay = self.get_device_events(device_id.as_str());

        RegisterOutcome {
            replay: replay,
            emitted: emitted,
            recipients: recipients,
            user_color: user_color,
            is_reconnection: is_reconnection,
        }
    }

    /// Unregister a client from a device: where its user keeps no other
    /// connection a departure is broadcast, else a presence refresh. The
    /// device's entry disappears with its last connection.
    pub fn unregister_client(&mut self, device_id: &str, client_id: &str)
        -> (r: UnregisterOutcome)
        requires
            old(self).wf(),
        ensures
            final(self).wf(),
            final(self).device_events == old(self).device_events,
            final(self).max_debug_messages == old(self).max_debug_messages,
            ({
                let conns0 = conns_of(*old(self), device_id@);
                let kept = without_client(conns0, client_id@);
                &&& conns_of(*final(self), device_id@) == kept
                &&& (final(self).active_connections.spec_get(device_id@) is Some)
                    == (kept.len() > 0)
                &&& forall|d: Seq<char>| d != device_id@
                    ==> conns_of(*final(self), d) == conns_of(*old(self), d)
                &&& (match find_client(conns0, client_id@) {
                    None => r.emitted is None,
                    Some(c) => r.emitted matches Some(e) && (if user_present(kept, c.user_id@) {
                        is_refresh_left(e)
                    } else {
                        e == (DeviceEvent::UserLeft {
                            user_id: c.user_id,
                            display_name: c.display_name,
                            user_color: c.user_color,
                        })
                    }),
                })
                &&& r.recipients@ == (match r.emitted {
                    Some(e) => recips(kept, client_id@, e),
                    None => Seq::<String>::empty(),
                })
            }),
    {
        let conns: Vec<ClientConnection> = match self.active_connections.take(device_id) {
            Some(v) => v,
            None => Vec::new(),
        };
        let ghost conns0 = conns@;

        let removed = find_client_vec(&conns, client_id);
        let kept = without_client_vec(&conns, client_id);
        let ghost gkept = kept@;
        let still_there = match &removed {
            Some(c) => user_present_vec(&kept, c.user_id.as_str()),
            None => false,
        };
        let kept_empty = kept.len() == 0;
        if !kept_empty {
            self.active_connections.set(device_id.to_owned(), kept);
        }
        proof {
            if kept_empty {
                assert(gkept =~= Seq::<ClientConnection>::empty());
            }
            assert(conns_of(*self, device_id@) == gkept);
        }

        proof {
            reveal_strlit("USER_COUNT_REFRESH");
            reveal_strlit("");
        }
        match removed {
            None => UnregisterOutcome { emitted: None, recipients: Vec::new() },
            Some(c) => {
                let emitted = if still_there {
                    DeviceEvent::UserLeft {
                        user_id: "USER_COUNT_REFRESH".to_owned(),
                        display_name: "".to_owned(),
                        user_color: "".to_owned(),
                    }
                } else {
                    DeviceEvent::UserLeft {
                        user_id: c.user_id,
                        display_name: c.display_name,
                        user_color: c.user_color,
                    }
                };
                let recipients = self.broadcast_event(device_id, &emitted, client_id);
                UnregisterOutcome { emitted: Some(emitted), recipients: recipients }
            }
        }
    }
}

/// The presence-refresh sentinel a returning user's registration
/// broadcasts: a join under the reserved count-refresh id, with empty
/// display fields.
pub open spec fn is_refresh_joined(e: DeviceEvent) -> bool {
    e matches DeviceEvent::UserJoined { user_id, display_name, user_color }
        && user_id@ == "USER_COUNT_REFRESH"@
        && display_name@.len() == 0
        && user_color@.len() == 0
}

/// The presence-refresh sentinel broadcast when a user closes one of
/// several connections.
pub open spec fn is_refresh_left(e: DeviceEvent) -> bool {
    e matches DeviceEvent::UserLeft { user_id, display_name, user_color }
        && user_id@ == "USER_COUNT_REFRESH"@
        && display_name@.len() == 0
        && user_color@.len() == 0
}

/// Count the raw-telemetry events in a history.
pub fn raw_count_vec(evs: &Vec<EventWithMetadata>) -> (r: usize)
    ensures
        r == raw_count(evs@),
{
    let mut n: usize = 0;
    let mut i: usize = 0;
    while i < evs.len()
        invariant
            i <= evs@.len(),
            n == raw_count(evs@.take(i as int)),
            n <= i,
        decreases evs@.len() - i,
    {
        proof {
            assert(evs@.take(i + 1).drop_last() =~= evs@.take(i as int));
            assert(evs@.take(i + 1).last() == evs@[i as int]);
        }
        if evs[i].event.is_raw() {
            n += 1;
        }
        i += 1;
    }
    proof {
        assert(evs@.take(evs@.len() as int) =~= evs@);
    }
    n
}

/// The position of the oldest raw-telemetry event, executably.
pub fn first_raw_vec(evs: &Vec<EventWithMetadata>) -> (r: Option<usize>)
    ensures
        match r {
            Some(i) => first_raw(evs@, 0) == Some(i as int) && i < evs@.len()
                && is_raw_broadcast(evs@[i as int].event),
            None => first_raw(evs@, 0) is None,
        },
{
    let mut i: usize = 0;
    while i < evs.len()
        invariant
            i <= evs@.len(),
            first_raw(evs@, 0) == first_raw(evs@, i as int),
        decreases evs@.len() - i,
    {
        if evs[i].event.is_raw() {
            return Some(i);
        }
        i += 1;
    }
    None
}

impl ClientConnection {
    /// A copy of the connection record, equal to the original.
    pub fn duplicate(&self) -> (r: Self)
        ensures
            r == *self,
    {
        ClientConnection {
            user_id: self.user_id.clone(),
            display_name: self.display_name.clone(),
            client_id: self.client_id.clone(),
            user_color: self.user_color.clone(),
            subscription_type: match self.subscription_type {
                SubscriptionType::Light => SubscriptionType::Light,
                SubscriptionType::Full => SubscriptionType::Full,
            },
        }
    }
}

/// The color of the first connection a user holds, executably.
pub fn find_user_color_vec(conns: &Vec<ClientConnection>, user: &str) -> (r: Option<String>)
    ensures
        r == find_user_color(conns@, user@),
{
    let mut i: usize = 0;
    assert(conns@.skip(0) =~= conns@);
    while i < conns.len()
        invariant
            i <= conns@.len(),
            find_user_color(conns@, user@) == find_user_color(conns@.skip(i as int), user@),
        decreases conns@.len() - i,
    {
        proof {
            assert(conns@.skip(i as int).drop_first() =~= conns@.skip(i + 1));
            assert(conns@.skip(i as int)[0] == conns@[i as int]);
        }
        if str_eq(conns[i].user_id.as_str(), user) {
            return Some(conns[i].user_color.clone());
        }
        i += 1;
    }
    None
}

/// The first connection a client holds, executably.
pub fn find_client_vec(conns: &Vec<ClientConnection>, client: &str) -> (r: Option<ClientConnection>)
    ensures
        r == find_client(conns@, client@),
{
    let mut i: usize = 0;
    assert(conns@.skip(0) =~= conns@);
    while i < conns.len()
        invariant
            i <= conns@.len(),
            find_client(conns@, client@) == find_client(conns@.skip(i as int), client@),
        decreases conns@.len() - i,
    {
        proof {
            assert(conns@.skip(i as int).drop_first() =~= conns@.skip(i + 1));
            assert(conns@.skip(i as int)[0] == conns@[i as int]);
        }
        if str_eq(conns[i].client_id.as_str(), client) {
            return Some(conns[i].duplicate());
        }
        i += 1;
    }
    None
}

/// The connections that stay when a client's entry is dropped, executably.
pub fn without_client_vec(conns: &Vec<ClientConnection>, client: &str)
    -> (r: Vec<ClientConnection>)
    ensures
        r@ == without_client(conns@, client@),
{
    let mut out: Vec<ClientConnection> = Vec::new();
    let mut i: usize = 0;
    while i < conns.len()
        invariant
            i <= conns@.len(),
            out@ == without_client(conns@.take(i as int), client@),
        decreases conns@.len() - i,
    {
        proof {
            assert(conns@.take(i + 1).drop_last() =~= conns@.take(i as int));
            assert(conns@.take(i + 1).last() == conns@[i as int]);
        }
        if !str_eq(conns[i].client_id.as_str(), client) {
            out.push(conns[i].duplicate());
        }
        i += 1;
    }
    proof {
        assert(conns@.take(conns@.len() as int) =~= conns@);
    }
    out
}

/// Whether a user holds any connection, executably.
pub fn user_present_vec(conns: &Vec<ClientConnection>, user: &str) -> (r: bool)
    ensures
        r == user_present(conns@, user@),
{
    let mut i: usize = 0;
    while i < conns.len()
        invariant
            i <= conns@.len(),
            forall|j: int| 0 <= j < i ==> conns@[j].user_id@ != user@,
        decreases conns@.len() - i,
    {
        if str_eq(conns[i].user_id.as_str(), user) {
            return true;
        }
        i += 1;
    }
    false
}

/// Whether a user holds a connection within the first `n` entries.
fn user_present_upto(conns: &Vec<ClientConnection>, n: usize, user: &str) -> (r: bool)
    requires
        n <= conns@.len(),
    ensures
        r == user_present(conns@.take(n as int), user@),
{
    let mut i: usize = 0;
    while i < n
        invariant
            i <= n <= conns@.len(),
            forall|j: int| 0 <= j < i ==> conns@[j].user_id@ != user@,
        decreases n - i,
    {
        if str_eq(conns[i].user_id.as_str(), user) {
            proof {
                assert(conns@.take(n as int)[i as int] == conns@[i as int]);
            }
            return true;
        }
        i += 1;
    }
    proof {
        assert(forall|j: int| 0 <= j < n ==> conns@.take(n as int)[j] == conns@[j]);
    }
    false
}

/// The color of each distinct user in first-registration order, executably.
pub fn unique_user_colors_vec(conns: &Vec<ClientConnection>) -> (r: Vec<String>)
    ensures
        r@ == unique_user_colors(conns@),
{
    let mut out: Vec<String> = Vec::new();
    let mut i: usize = 0;
    while i < conns.len()
        invariant
            i <= conns@.len(),
            out@ == unique_user_colors(conns@.take(i as int)),
        decreases conns@.len() - i,
    {
        proof {
            assert(conns@.take(i + 1).drop_last() =~= conns@.take(i as int));
            assert(conns@.take(i + 1).last() == conns@[i as int]);
        }
        let seen = user_present_upto(conns, i, conns[i].user_id.as_str());
        if !seen {
            out.push(conns[i].user_color.clone());
        }
        i += 1;
    }
    proof {
        assert(conns@.take(conns@.len() as int) =~= conns@);
    }
    out
}

// ----------------------------------------------------------------------------
// Laws of the store
// ----------------------------------------------------------------------------

/// Appending one event adds its raw flag to the raw count.
proof fn lemma_raw_count_push(s: Seq<EventWithMetadata>, e: EventWithMetadata)
    ensures
        raw_count(s.push(e)) == raw_count(s) + if is_raw_broadcast(e.event) { 1int } else { 0int },
{
    assert(s.push(e).drop_last() =~= s);
}

/// Removing one raw event lowers the raw count by one.
proof fn lemma_raw_count_remove(s: Seq<EventWithMetadata>, i: int)
    requires
        0 <= i < s.len(),
        is_raw_broadcast(s[i].event),
    ensures
        raw_count(s.remove(i)) == raw_count(s) - 1,
    decreases s.len(),
{
    if i == s.len() - 1 {
        assert(s.remove(i) =~= s.drop_last());
    } else {
        let t = s.remove(i);
        assert(t.drop_last() =~= s.drop_last().remove(i));
        assert(t.last() == s.last());
        lemma_raw_count_remove(s.drop_last(), i);
    }
}

/// A history with raw events has an oldest one.
proof fn lemma_first_raw_exists(s: Seq<EventWithMetadata>, from: int)
    requires
        0 <= from <= s.len(),
    ensures
        match first_raw(s, from) {
            Some(i) => from <= i < s.len() && is_raw_broadcast(s[i].event),
            None => forall|j: int| from <= j < s.len() ==> !is_raw_broadcast(s[j].event),
        },
    decreases s.len() - from,
{
    if from < s.len() && !is_raw_broadcast(s[from].event) {
        lemma_first_raw_exists(s, from + 1);
    }
}

/// A history of non-raw events counts no raw ones.
proof fn lemma_raw_count_zero(s: Seq<EventWithMetadata>)
    requires
        forall|j: int| 0 <= j < s.len() ==> !is_raw_broadcast(s[j].event),
    ensures
        raw_count(s) == 0,
    decreases s.len(),
{
    if s.len() > 0 {
        lemma_raw_count_zero(s.drop_last());
    }
}

/// The retention law: a history within the raw-telemetry cap stays within
/// it when any event is stored.
pub proof fn lemma_raw_cap_preserved(s: Seq<EventWithMetadata>, cap: int, e: EventWithMetadata)
    requires
        cap > 0,
        raw_count(s) <= cap,
    ensures
        raw_count(events_after_add(s, cap, e)) <= cap,
{
    if is_raw_broadcast(e.event) && raw_count(s) >= cap {
        lemma_first_raw_exists(s, 0);
        match first_raw(s, 0) {
            Some(i) => {
                lemma_raw_count_remove(s, i);
                lemma_raw_count_push(s.remove(i), e);
            }
            None => {
                lemma_raw_count_zero(s);
            }
        }
    } else {
        lemma_raw_count_push(s, e);
    }
}

/// The replay-superset law: a stored event that is not raw telemetry is
/// never lost when another event is stored, so every non-raw event a
/// subscriber once saw in a replay is still in the history.
pub proof fn lemma_add_keeps_non_raw(
    s: Seq<EventWithMetadata>,
    cap: int,
    e: EventWithMetadata,
    j: int,
)
    requires
        0 <= j < s.len(),
        !is_raw_broadcast(s[j].event),
    ensures
        exists|k: int| 0 <= k < events_after_add(s, cap, e).len()
            && events_after_add(s, cap, e)[k] == s[j],
{
    let t = events_after_add(s, cap, e);
    if is_raw_broadcast(e.event) && cap > 0 && raw_count(s) >= cap {
        lemma_first_raw_exists(s, 0);
        match first_raw(s, 0) {
            Some(i) => {
                let k = if j < i { j } else { j - 1 };
                assert(t[k] == s[j]);
            }
            None => {
                assert(t[j] == s[j]);
            }
        }
    } else {
        assert(t[j] == s[j]);
    }
}

/// Whether some eligible connection owns this client id.
pub open spec fn from_eligible(
    conns: Seq<ClientConnection>,
    sender: Seq<char>,
    e: DeviceEvent,
    x: String,
) -> bool {
    exists|j: int| #![trigger conns[j]] 0 <= j < conns.len()
        && conns[j].client_id == x && eligible(conns[j], sender, e)
}

/// Every named recipient of a broadcast is an eligible subscriber's client
/// id.
proof fn lemma_recips_sound(conns: Seq<ClientConnection>, sender: Seq<char>, e: DeviceEvent)
    ensures
        forall|i: int| #![trigger recips(conns, sender, e)[i]]
            0 <= i < recips(conns, sender, e).len()
            ==> from_eligible(conns, sender, e, recips(conns, sender, e)[i]),
    decreases conns.len(),
{
    if conns.len() > 0 {
        lemma_recips_sound(conns.drop_last(), sender, e);
        assert forall|i: int| #![trigger recips(conns, sender, e)[i]]
            0 <= i < recips(conns, sender, e).len()
            implies from_eligible(conns, sender, e, recips(conns, sender, e)[i]) by {
            let pre = recips(conns.drop_last(), sender, e);
            if i < pre.len() {
                assert(recips(conns, sender, e)[i] == pre[i]);
                assert(from_eligible(conns.drop_last(), sender, e, pre[i]));
                let j = choose|j: int| #![trigger conns.drop_last()[j]]
                    0 <= j < conns.drop_last().len()
                    && conns.drop_last()[j].client_id == pre[i]
                    && eligible(conns.drop_last()[j], sender, e);
                assert(conns[j] == conns.drop_last()[j]);
                assert(conns[j].client_id == recips(conns, sender, e)[i]
                    && eligible(conns[j], sender, e));
            } else {
                assert(eligible(conns.last(), sender, e));
                assert(conns[conns.len() - 1].client_id == recips(conns, sender, e)[i]);
            }
        }
    }
}

/// The no-echo law: a broadcast never names the sending client itself.
pub proof fn lemma_no_echo(conns: Seq<ClientConnection>, sender: Seq<char>, e: DeviceEvent)
    ensures
        forall|i: int| #![trigger recips(conns, sender, e)[i]]
            0 <= i < recips(conns, sender, e).len()
            ==> recips(conns, sender, e)[i]@ != sender,
{
    lemma_recips_sound(conns, sender, e);
    assert forall|i: int| #![trigger recips(conns, sender, e)[i]]
        0 <= i < recips(conns, sender, e).len()
        implies recips(conns, sender, e)[i]@ != sender by {
        assert(from_eligible(conns, sender, e, recips(conns, sender, e)[i]));
        let j = choose|j: int| #![trigger conns[j]] 0 <= j < conns.len()
            && conns[j].client_id == recips(conns, sender, e)[i]
            && eligible(conns[j], sender, e);
    }
}

/// Whether some full-subscription connection owns this client id.
pub open spec fn full_subscriber_owns(conns: Seq<ClientConnection>, x: String) -> bool {
    exists|j: int| #![trigger conns[j]] 0 <= j < conns.len()
        && conns[j].client_id == x
        && conns[j].subscription_type == SubscriptionType::Full
}

/// The light-subscription law: a broadcast of anything but a connection
/// status event names only full subscribers, so a light subscriber
/// receives connection status alone.
pub proof fn lemma_light_gets_status_only(
    conns: Seq<ClientConnection>,
    sender: Seq<char>,
    e: DeviceEvent,
)
    requires
        !is_connection_status(e),
    ensures
        forall|i: int| #![trigger recips(conns, sender, e)[i]]
            0 <= i < recips(conns, sender, e).len()
            ==> full_subscriber_owns(conns, recips(conns, sender, e)[i]),
{
    lemma_recips_sound(conns, sender, e);
    assert forall|i: int| #![trigger recips(conns, sender, e)[i]]
        0 <= i < recips(conns, sender, e).len()
        implies full_subscriber_owns(conns, recips(conns, sender, e)[i]) by {
        assert(from_eligible(conns, sender, e, recips(conns, sender, e)[i]));
        let j = choose|j: int| #![trigger conns[j]] 0 <= j < conns.len()
            && conns[j].client_id == recips(conns, sender, e)[i]
            && eligible(conns[j], sender, e);
        assert(conns[j].subscription_type == SubscriptionType::Full);
    }
}

/// One color per user on a device: every pair of connections of the same
/// user carries the same color.
pub open spec fn colors_consistent(conns: Seq<ClientConnection>) -> bool {
    forall|i: int, j: int| 0 <= i < conns.len() && 0 <= j < conns.len()
        && conns[i].user_id@ == conns[j].user_id@
        ==> conns[i].user_color@ == conns[j].user_color@
}

/// Every connection that survives a client's removal was there before.
proof fn lemma_without_client_membership(conns: Seq<ClientConnection>, client: Seq<char>)
    ensures
        forall|k: int| #![trigger without_client(conns, client)[k]]
            0 <= k < without_client(conns, client).len()
            ==> exists|i: int| #![trigger conns[i]] 0 <= i < conns.len()
                && conns[i] == without_client(conns, client)[k],
    decreases conns.len(),
{
    if conns.len() > 0 {
        lemma_without_client_membership(conns.drop_last(), client);
        let r = without_client(conns, client);
        let pre = without_client(conns.drop_last(), client);
        assert forall|k: int| #![trigger r[k]] 0 <= k < r.len()
            implies exists|i: int| #![trigger conns[i]] 0 <= i < conns.len()
            && conns[i] == r[k] by {
            if k < pre.len() {
                let i = choose|i: int| 0 <= i < conns.drop_last().len()
                    && conns.drop_last()[i] == pre[k];
                assert(conns[i] == r[k]);
            } else {
                assert(conns[conns.len() - 1] == r[k]);
            }
        }
    }
}

/// The first-registered connection of a present user names the user's
/// color; under consistency every connection of the user carries it.
proof fn lemma_find_user_color_props(conns: Seq<ClientConnection>, user: Seq<char>)
    ensures
        match find_user_color(conns, user) {
            Some(col) => exists|f: int| 0 <= f < conns.len()
                && conns[f].user_id@ == user && conns[f].user_color == col,
            None => !user_present(conns, user),
        },
    decreases conns.len(),
{
    if conns.len() > 0 && conns[0].user_id@ != user {
        lemma_find_user_color_props(conns.drop_first(), user);
        match find_user_color(conns, user) {
            Some(col) => {
                let f = choose|f: int| 0 <= f < conns.drop_first().len()
                    && conns.drop_first()[f].user_id@ == user
                    && conns.drop_first()[f].user_color == col;
                assert(conns[f + 1] == conns.drop_first()[f]);
            }
            None => {
                assert forall|i: int| 0 <= i < conns.len()
                    implies conns[i].user_id@ != user by {
                    if i > 0 {
                        assert(conns.drop_first()[i - 1] == conns[i]);
                    }
                }
            }
        }
    }
}

/// The one-color law: registering a client whose color follows the store's
/// rule (reuse the color of a surviving entry that shares the user) keeps
/// every user's color unique on the device.
pub proof fn lemma_register_keeps_colors(conns0: Seq<ClientConnection>, c: ClientConnection)
    requires
        colors_consistent(conns0),
        match find_user_color(without_client(conns0, c.client_id@), c.user_id@) {
            Some(col) => c.user_color@ == col@,
            None => true,
        },
    ensures
        colors_consistent(without_client(conns0, c.client_id@).push(c)),
{
    let kept = without_client(conns0, c.client_id@);
    let t = kept.push(c);
    lemma_without_client_membership(conns0, c.client_id@);
    // The surviving entries inherit consistency from the full list.
    assert forall|i: int, j: int| 0 <= i < kept.len() && 0 <= j < kept.len()
        && kept[i].user_id@ == kept[j].user_id@
        implies kept[i].user_color@ == kept[j].user_color@ by {
        let a = choose|a: int| 0 <= a < conns0.len() && conns0[a] == kept[i];
        let b = choose|b: int| 0 <= b < conns0.len() && conns0[b] == kept[j];
        assert(conns0[a].user_color@ == conns0[b].user_color@);
    }
    lemma_find_user_color_props(kept, c.user_id@);
    assert forall|i: int, j: int| 0 <= i < t.len() && 0 <= j < t.len()
        && t[i].user_id@ == t[j].user_id@
        implies t[i].user_color@ == t[j].user_color@ by {
        if i < kept.len() && j < kept.len() {
            assert(t[i] == kept[i] && t[j] == kept[j]);
        } else if i < kept.len() || j < kept.len() {
            let k = if i < kept.len() { i } else { j };
            assert(t[k] == kept[k]);
            match find_user_color(kept, c.user_id@) {
                Some(col) => {
                    let f = choose|f: int| 0 <= f < kept.len()
                        && kept[f].user_id@ == c.user_id@
                        && kept[f].user_color == col;
                    assert(kept[k].user_color@ == kept[f].user_color@);
                }
                None => {
                    assert(user_present(kept, c.user_id@));
                }
            }
        }
    }
}

/// A user is present exactly when a color is found for them.
pub proof fn lemma_present_iff_color(conns: Seq<ClientConnection>, user: Seq<char>)
    ensures
        user_present(conns, user) == (find_user_color(conns, user) is Some),
    decreases conns.len(),
{
    lemma_find_user_color_props(conns, user);
    match find_user_color(conns, user) {
        Some(_) => {}
        None => {}
    }
}

/// Removing a client that is not registered changes nothing.
proof fn lemma_without_absent_client(conns: Seq<ClientConnection>, client: Seq<char>)
    requires
        forall|i: int| 0 <= i < conns.len() ==> conns[i].client_id@ != client,
    ensures
        without_client(conns, client) =~= conns,
    decreases conns.len(),
{
    if conns.len() > 0 {
        lemma_without_absent_client(conns.drop_last(), client);
    }
}

/// Scanning for a client finds the one at the back when no one before it
/// holds the id.
proof fn lemma_find_client_pushed(conns: Seq<ClientConnection>, c: ClientConnection)
    requires
        forall|i: int| 0 <= i < conns.len() ==> conns[i].client_id@ != c.client_id@,
    ensures
        find_client(conns.push(c), c.client_id@) == Some(c),
    decreases conns.len(),
{
    let t = conns.push(c);
    if conns.len() == 0 {
        assert(t[0] == c);
    } else {
        assert(t[0] == conns[0]);
        assert(t.drop_first() =~= conns.drop_first().push(c));
        assert(forall|i: int| 0 <= i < conns.drop_first().len()
            ==> conns.drop_first()[i] == conns[i + 1]);
        lemma_find_client_pushed(conns.drop_first(), c);
    }
}

/// The presence round-trip law: registering a fresh client and then
/// unregistering it restores the subscriber list, and the two presence
/// events pair up. A user already present sees two count refreshes; a new
/// user sees a join answered by a leave carrying the same user, name and
/// color.
pub proof fn lemma_register_then_unregister(conns0: Seq<ClientConnection>, c: ClientConnection)
    requires
        forall|i: int| 0 <= i < conns0.len() ==> conns0[i].client_id@ != c.client_id@,
    ensures
        without_client(conns0, c.client_id@) =~= conns0,
        without_client(conns0.push(c), c.client_id@) =~= conns0,
        find_client(conns0.push(c), c.client_id@) == Some(c),
        user_present(conns0, c.user_id@) == (find_user_color(conns0, c.user_id@) is Some),
{
    lemma_without_absent_client(conns0, c.client_id@);
    let t = conns0.push(c);
    assert(t.drop_last() =~= conns0);
    assert(t.last() == c);
    assert(without_client(t, c.client_id@) =~= conns0);
    lemma_find_client_pushed(conns0, c);
    lemma_present_iff_color(conns0, c.user_id@);
}

/// One user's presence on a device, aggregated over their connections.
#[derive(Debug, Clone, PartialEq)]
pub struct DeviceUser {
    pub user_id: String,
    pub display_name: String,
    pub connection_count: usize,
    pub user_color: String,
}

/// The store's size, for monitoring.
#[derive(Debug, Clone, PartialEq)]
pub struct DeviceStoreStats {
    pub total_devices: usize,
    pub total_events: usize,
    pub active_devices: usize,
    pub total_connections: usize,
}

/// How many connections a user holds on a device.
pub open spec fn count_user(conns: Seq<ClientConnection>, user: Seq<char>) -> int
    decreases conns.len(),
{
    if conns.len() == 0 {
        0
    } else {
        count_user(conns.drop_last(), user)
            + if conns.last().user_id@ == user { 1int } else { 0int }
    }
}

/// The first connection of each distinct user, in first-registration order.
pub open spec fn unique_users(conns: Seq<ClientConnection>) -> Seq<ClientConnection>
    decreases conns.len(),
{
    if conns.len() == 0 {
        Seq::empty()
    } else {
        let pre = unique_users(conns.drop_last());
        if user_present(conns.drop_last(), conns.last().user_id@) {
            pre
        } else {
            pre.push(conns.last())
        }
    }
}

/// Which connections stay when the closed clients are dropped.
pub open spec fn contains_id(ids: Seq<String>, x: Seq<char>) -> bool {
    exists|i: int| 0 <= i < ids.len() && #[trigger] ids[i]@ == x
}

/// The total events retained, device by device, saturating at the
/// machine's limit.
pub open spec fn spec_total_events(
    entries: Seq<(String, Vec<EventWithMetadata>)>,
) -> int
    decreases entries.len(),
{
    if entries.len() == 0 {
        0
    } else {
        sat_add(spec_total_events(entries.drop_last()), entries.last().1@.len() as int)
    }
}

/// The total subscriber connections, device by device, saturating at the
/// machine's limit.
pub open spec fn spec_total_conns(
    entries: Seq<(String, Vec<ClientConnection>)>,
) -> int
    decreases entries.len(),
{
    if entries.len() == 0 {
        0
    } else {
        sat_add(spec_total_conns(entries.drop_last()), entries.last().1@.len() as int)
    }
}

/// A saturating sum step at the machine's limit.
pub open spec fn sat_add(a: int, b: int) -> int {
    if a + b <= usize::MAX {
        a + b
    } else {
        usize::MAX as int
    }
}

/// How many connections a cleanup drops, summed device by device and
/// saturating at the machine's limit.
pub open spec fn spec_removed_count(
    entries: Seq<(String, Vec<ClientConnection>)>,
    closed: Seq<String>,
) -> int
    decreases entries.len(),
{
    if entries.len() == 0 {
        0
    } else {
        sat_add(
            spec_removed_count(entries.drop_last(), closed),
            entries.last().1@.len() - open_conns(entries.last().1@, closed).len(),
        )
    }
}

/// The connections that survive a cleanup: those whose client is not
/// named closed.
pub open spec fn open_conns(
    conns: Seq<ClientConnection>,
    closed: Seq<String>,
) -> Seq<ClientConnection>
    decreases conns.len(),
{
    if conns.len() == 0 {
        Seq::empty()
    } else {
        let pre = open_conns(conns.drop_last(), closed);
        if contains_id(closed, conns.last().client_id@) {
            pre
        } else {
            pre.push(conns.last())
        }
    }
}

/// Membership of a client id in the closed list, executably.
fn id_in(ids: &Vec<String>, x: &str) -> (r: bool)
    ensures
        r == contains_id(ids@, x@),
{
    let mut i: usize = 0;
    while i < ids.len()
        invariant
            i <= ids@.len(),
            forall|j: int| 0 <= j < i ==> #[trigger] ids@[j]@ != x@,
        decreases ids@.len() - i,
    {
        if str_eq(ids[i].as_str(), x) {
            return true;
        }
        i += 1;
    }
    false
}

impl DeviceEventStore {
    /// Each device with its subscriber count.
    pub fn get_active_devices(&self) -> (r: Vec<(String, usize)>)
        ensures
            r@.len() == self.active_connections@.len(),
            forall|i: int| 0 <= i < r@.len() ==> {
                &&& #[trigger] r@[i].0 == self.active_connections@[i].0
                &&& r@[i].1 == self.active_connections@[i].1@.len()
            },
    {
        let mut out: Vec<(String, usize)> = Vec::new();
        let entries = &self.active_connections.entries;
        let mut i: usize = 0;
        while i < entries.len()
            invariant
                i <= entries@.len(),
                entries@ == self.active_connections@,
                out@.len() == i,
                forall|j: int| 0 <= j < i ==> {
                    &&& #[trigger] out@[j].0 == entries@[j].0
                    &&& out@[j].1 == entries@[j].1@.len()
                },
            decreases entries@.len() - i,
        {
            out.push((entries[i].0.clone(), entries[i].1.len()));
            i += 1;
        }
        out
    }

    /// The users present on a device, each with their color and how many
    /// connections they hold, in first-registration order.
    pub fn get_device_users(&self, device_id: &str) -> (r: Vec<DeviceUser>)
        ensures
            ({
                let conns = conns_of(*self, device_id@);
                let uu = unique_users(conns);
                &&& r@.len() == uu.len()
                &&& forall|i: int| 0 <= i < r@.len() ==> {
                    &&& (#[trigger] r@[i]).user_id == uu[i].user_id
                    &&& r@[i].display_name == uu[i].display_name
                    &&& r@[i].user_color == uu[i].user_color
                    &&& r@[i].connection_count == count_user(conns, uu[i].user_id@)
                }
            }),
    {
        let mut out: Vec<DeviceUser> = Vec::new();
        let conns = match self.active_connections.get(device_id) {
            Some(v) => v,
            None => {
                return out;
            }
        };
        let mut i: usize = 0;
        while i < conns.len()
            invariant
                i <= conns@.len(),
                conns@ == conns_of(*self, device_id@),
                out@.len() == unique_users(conns@.take(i as int)).len(),
                forall|j: int| 0 <= j < out@.len() ==> {
                    &&& (#[trigger] out@[j]).user_id
                        == unique_users(conns@.take(i as int))[j].user_id
                    &&& out@[j].display_name
                        == unique_users(conns@.take(i as int))[j].display_name
                    &&& out@[j].user_color
                        == unique_users(conns@.take(i as int))[j].user_color
                    &&& out@[j].connection_count
                        == count_user(conns@, unique_users(conns@.take(i as int))[j].user_id@)
                },
            decreases conns@.len() - i,
        {
            proof {
                assert(conns@.take(i + 1).drop_last() =~= conns@.take(i as int));
                assert(conns@.take(i + 1).last() == conns@[i as int]);
            }
            let seen = user_seen_before(conns, i);
            if !seen {
                let cnt = count_user_vec(conns, conns[i].user_id.as_str());
                out.push(DeviceUser {
                    user_id: conns[i].user_id.clone(),
                    display_name: conns[i].display_name.clone(),
                    connection_count: cnt,
                    user_color: conns[i].user_color.clone(),
                });
            }
            i += 1;
        }
        proof {
            assert(conns@.take(conns@.len() as int) =~= conns@);
        }
        out
    }

    /// The store's sizes. Sums saturate at the machine's limit.
    pub fn get_stats(&self) -> (r: DeviceStoreStats)
        ensures
            r.total_devices == self.device_events@.len(),
            r.active_devices == self.active_connections@.len(),
            r.total_events == spec_total_events(self.device_events@),
            r.total_connections == spec_total_conns(self.active_connections@),
    {
        let mut total_events: usize = 0;
        let ev_entries = &self.device_events.entries;
        let mut i: usize = 0;
        while i < ev_entries.len()
            invariant
                i <= ev_entries@.len(),
                ev_entries@ == self.device_events@,
                total_events == spec_total_events(ev_entries@.take(i as int)),
            decreases ev_entries@.len() - i,
        {
            proof {
                assert(ev_entries@.take(i + 1).drop_last() =~= ev_entries@.take(i as int));
                assert(ev_entries@.take(i + 1).last() == ev_entries@[i as int]);
            }
            let n = ev_entries[i].1.len();
            total_events = if total_events <= usize::MAX - n {
                total_events + n
            } else {
                usize::MAX
            };
            i += 1;
        }
        proof {
            assert(ev_entries@.take(ev_entries@.len() as int) =~= ev_entries@);
        }
        let mut total_connections: usize = 0;
        let conn_entries = &self.active_connections.entries;
        let mut j: usize = 0;
        while j < conn_entries.len()
            invariant
                j <= conn_entries@.len(),
                conn_entries@ == self.active_connections@,
                total_connections == spec_total_conns(conn_entries@.take(j as int)),
            decreases conn_entries@.len() - j,
        {
            proof {
                assert(conn_entries@.take(j + 1).drop_last()
                    =~= conn_entries@.take(j as int));
                assert(conn_entries@.take(j + 1).last() == conn_entries@[j as int]);
            }
            let n = conn_entries[j].1.len();
            total_connections = if total_connections <= usize::MAX - n {
                total_connections + n
            } else {
                usize::MAX
            };
            j += 1;
        }
        proof {
            assert(conn_entries@.take(conn_entries@.len() as int) =~= conn_entries@);
        }
        DeviceStoreStats {
            total_devices: self.device_events.len(),
            total_events,
            active_devices: self.active_connections.len(),
            total_connections,
        }
    }

    /// Drop every subscriber whose channel the caller found closed, and
    /// with them any device left without subscribers.
    pub fn cleanup_stale_connections(&mut self, closed: &Vec<String>) -> (r: usize)
        requires
            old(self).wf(),
        ensures
            final(self).wf(),
            final(self).device_events == old(self).device_events,
            final(self).max_debug_messages == old(self).max_debug_messages,
            forall|d: Seq<char>| conns_of(*final(self), d)
                == open_conns(conns_of(*old(self), d), closed@),
            forall|d: Seq<char>|
                (#[trigger] final(self).active_connections.spec_get(d) is Some)
                    == (open_conns(conns_of(*old(self), d), closed@).len() > 0),
            r == spec_removed_count(old(self).active_connections@, closed@),
    {
        let mut rebuilt: AList<Vec<ClientConnection>> = AList::new();
        let mut removed: usize = 0;
        let entries = &self.active_connections.entries;
        let ghost pre = self.active_connections@;
        let mut i: usize = 0;
        while i < entries.len()
            invariant
                i <= entries@.len(),
                entries@ == pre,
                pre == self.active_connections@,
                self.active_connections.wf(),
                rebuilt.wf(),
                forall|d: Seq<char>|
                    #[trigger] rebuilt.spec_get(d) matches Some(v)
                        ==> (crate::alist::al_get(pre, d) matches Some(w)
                            && v@ == open_conns(w@, closed@)
                            && v@.len() > 0),
                forall|j: int| 0 <= j < i ==> {
                    let d = #[trigger] pre[j].0@;
                    if open_conns(pre[j].1@, closed@).len() > 0 {
                        rebuilt.spec_get(d) matches Some(v)
                            && v@ == open_conns(pre[j].1@, closed@)
                    } else {
                        rebuilt.spec_get(d) is None
                    }
                },
                forall|d: Seq<char>| rebuilt.spec_get(d) is Some
                    ==> exists|j: int| 0 <= j < i && #[trigger] pre[j].0@ == d,
                removed == spec_removed_count(pre.take(i as int), closed@),
            decreases entries@.len() - i,
        {
            let key = entries[i].0.clone();
            let conns = &entries[i].1;
            let mut kept: Vec<ClientConnection> = Vec::new();
            let mut k: usize = 0;
            while k < conns.len()
                invariant
                    k <= conns@.len(),
                    kept@ == open_conns(conns@.take(k as int), closed@),
                    kept@.len() <= k,
                decreases conns@.len() - k,
            {
                proof {
                    assert(conns@.take(k + 1).drop_last() =~= conns@.take(k as int));
                    assert(conns@.take(k + 1).last() == conns@[k as int]);
                }
                if !id_in(closed, conns[k].client_id.as_str()) {
                    kept.push(conns[k].duplicate());
                }
                k += 1;
            }
            proof {
                assert(conns@.take(conns@.len() as int) =~= conns@);
            }
            proof {
                assert(pre.take(i + 1).drop_last() =~= pre.take(i as int));
                assert(pre.take(i + 1).last() == pre[i as int]);
            }
            let dropped = conns.len() - kept.len();
            removed = if removed <= usize::MAX - dropped {
                removed + dropped
            } else {
                usize::MAX
            };
            proof {
                assert(crate::alist::al_get(pre, pre[i as int].0@)
                    == Some(pre[i as int].1)) by {
                    lemma_al_get_at(pre, i as int);
                }
            }
            if kept.len() > 0 {
                rebuilt.set(key, kept);
            }
            i += 1;
        }
        let ghost old_conns_map = self.active_connections@;
        self.active_connections = rebuilt;
        proof {
            assert(pre.take(pre.len() as int) =~= pre);
            assert forall|d: Seq<char>| conns_of(*self, d)
                == open_conns(match crate::alist::al_get(pre, d) {
                    Some(v) => v@,
                    None => Seq::empty(),
                }, closed@) by {
                match crate::alist::al_get(pre, d) {
                    Some(v) => {
                        let j = lemma_al_get_index(pre, d);
                        if open_conns(v@, closed@).len() > 0 {
                        } else {
                            assert(open_conns(Seq::<ClientConnection>::empty(), closed@)
                                =~= Seq::<ClientConnection>::empty());
                        }
                    }
                    None => {
                        assert(open_conns(Seq::<ClientConnection>::empty(), closed@)
                            =~= Seq::<ClientConnection>::empty());
                    }
                }
            }
            assert forall|d: Seq<char>|
                (#[trigger] self.active_connections.spec_get(d) is Some)
                    == (open_conns(match crate::alist::al_get(pre, d) {
                        Some(v) => v@,
                        None => Seq::empty(),
                    }, closed@).len() > 0) by {
                match crate::alist::al_get(pre, d) {
                    Some(v) => {
                        let j = lemma_al_get_index(pre, d);
                    }
                    None => {
                        assert(open_conns(Seq::<ClientConnection>::empty(), closed@)
                            =~= Seq::<ClientConnection>::empty());
                    }
                }
            }
        }
        removed
    }
}

/// The entry at a position of a unique-keyed list answers its own key.
proof fn lemma_al_get_at(s: Seq<(String, Vec<ClientConnection>)>, i: int)
    requires
        crate::alist::al_unique(s),
        0 <= i < s.len(),
    ensures
        crate::alist::al_get(s, s[i].0@) == Some(s[i].1),
    decreases s.len(),
{
    if i == 0 {
    } else {
        assert(s[0].0@ != s[i].0@);
        assert(s.drop_first()[i - 1] == s[i]);
        assert forall|a: int, b: int| 0 <= a < b < s.drop_first().len()
            implies s.drop_first()[a].0@ != s.drop_first()[b].0@ by {
            assert(s.drop_first()[a] == s[a + 1]);
            assert(s.drop_first()[b] == s[b + 1]);
        }
        lemma_al_get_at(s.drop_first(), i - 1);
    }
}

/// A bound key names some entry.
proof fn lemma_al_get_index(s: Seq<(String, Vec<ClientConnection>)>, d: Seq<char>) -> (j: int)
    requires
        crate::alist::al_get(s, d) is Some,
    ensures
        0 <= j < s.len(),
        s[j].0@ == d,
        crate::alist::al_get(s, d) == Some(s[j].1),
    decreases s.len(),
{
    if s.len() > 0 && s[0].0@ == d {
        0
    } else {
        let j = lemma_al_get_index(s.drop_first(), d);
        assert(s.drop_first()[j] == s[j + 1]);
        j + 1
    }
}

/// How many connections a user holds, executably.
pub fn count_user_vec(conns: &Vec<ClientConnection>, user: &str) -> (r: usize)
    ensures
        r == count_user(conns@, user@),
{
    let mut n: usize = 0;
    let mut i: usize = 0;
    while i < conns.len()
        invariant
            i <= conns@.len(),
            n == count_user(conns@.take(i as int), user@),
            n <= i,
        decreases conns@.len() - i,
    {
        proof {
            assert(conns@.take(i + 1).drop_last() =~= conns@.take(i as int));
            assert(conns@.take(i + 1).last() == conns@[i as int]);
        }
        if str_eq(conns[i].user_id.as_str(), user) {
            n += 1;
        }
        i += 1;
    }
    proof {
        assert(conns@.take(conns@.len() as int) =~= conns@);
    }
    n
}

/// Whether the user of the connection at `i` appears earlier.
fn user_seen_before(conns: &Vec<ClientConnection>, i: usize) -> (r: bool)
    requires
        i < conns@.len(),
    ensures
        r == user_present(conns@.take(i as int), conns@[i as int].user_id@),
{
    let mut k: usize = 0;
    while k < i
        invariant
            k <= i < conns@.len(),
            forall|j: int| 0 <= j < k
                ==> conns@[j].user_id@ != conns@[i as int].user_id@,
        decreases i - k,
    {
        if str_eq(conns[k].user_id.as_str(), conns[i].user_id.as_str()) {
            proof {
                assert(conns@.take(i as int)[k as int] == conns@[k as int]);
            }
            return true;
        }
        k += 1;
    }
    proof {
        assert(forall|j: int| 0 <= j < i
            ==> conns@.take(i as int)[j] == conns@[j]);
    }
    false
}

} // verus!
