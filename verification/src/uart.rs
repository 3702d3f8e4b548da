//! The serial side: outbound commands are framed STX + JSON + ETX with the
//! target device's id injected, so the wire multiplexer can route them;
//! inbound frames carry a `device_id` field that is stripped before the
//! payload goes through unified ingress, and a first-seen serial device
//! announces itself with a discovery event on the reserved system stream.

use vstd::prelude::*;
use vstd::string::StringSliceAdditionalSpecFns;
use crate::json::{JsonVal, json_get, json_text_of, fields_get, render_json};
use crate::events::DeviceEvent;
use crate::manager::{Esp32Manager, OutboundMsg};
use crate::types::{Esp32Command, Esp32Error, MessageSource};

verus! {

/// Appending a field binds its key only where it was unbound.
proof fn lemma_fields_push_get(fs: Seq<(String, JsonVal)>, e: (String, JsonVal), k: Seq<char>)
    ensures
        fields_get(fs, k) is Some ==> fields_get(fs.push(e), k) == fields_get(fs, k),
        fields_get(fs, k) is None ==> fields_get(fs.push(e), k) == (
            if e.0@ == k { Some(e.1) } else { None }
        ),
    decreases fs.len(),
{
    if fs.len() == 0 {
        assert(fs.push(e)[0] == e);
        assert(fs.push(e).drop_first() =~= Seq::<(String, JsonVal)>::empty());
        if e.0@ == k {
            assert(fields_get(fs.push(e), k) == Some(fs.push(e)[0].1));
        } else {
            assert(fields_get(fs.push(e), k)
                == fields_get(fs.push(e).drop_first(), k));
        }
    } else {
        assert(fs.push(e)[0] == fs[0]);
        assert(fs.push(e).drop_first() =~= fs.drop_first().push(e));
        lemma_fields_push_get(fs.drop_first(), e, k);
        if fs[0].0@ == k {
            assert(fields_get(fs.push(e), k) == Some(fs[0].1));
        } else {
            assert(fields_get(fs.push(e), k) == fields_get(fs.drop_first().push(e), k));
            assert(fields_get(fs, k) == fields_get(fs.drop_first(), k));
        }
    }
}

/// Frame a command for the serial bus: the command's wire tree with the
/// target id injected under `device_id`, rendered and bracketed by STX and
/// ETX. The framed tree still decodes to the command, and names its target.
pub fn frame_uart_command(cmd: &Esp32Command, device_id: &str) -> (r: Vec<u8>)
    ensures
        exists|t: JsonVal| #![trigger json_text_of(t)]
            {
                &&& r@ == seq![crate::framing::STX]
                    + vstd::utf8::encode_utf8(json_text_of(t))
                    + seq![crate::framing::ETX]
                &&& crate::codec::spec_cmd_of_json(t)
                    == Some(crate::codec::canonical_cmd(*cmd))
                &&& (json_get(t, "device_id"@) matches Some(JsonVal::Str(d))
                    && d@ == device_id@)
            },
{
    proof {
        reveal_strlit("device_id");
        reveal_strlit("setVariable");
        reveal_strlit("startOption");
        reveal_strlit("reset");
        reveal_strlit("getStatus");
    }
    let tree = cmd.to_json_val();
    let ghost gtree = tree;
    let mut fields: Vec<(String, JsonVal)> = match tree {
        JsonVal::Obj(fs) => fs,
        _ => {
            proof {
                assert(false);
            }
            Vec::new()
        }
    };
    let ghost fs0 = fields@;
    let did = JsonVal::Str(device_id.to_owned());
    let ghost gdid = did;
    fields.push(("device_id".to_owned(), did));
    let ghost gentry = (fields@[fields@.len() - 1].0, gdid);
    proof {
        assert(fields@ =~= fs0.push(gentry));
        assert(gentry.0@ == "device_id"@);
        lemma_fields_push_get(fs0, gentry, "setVariable"@);
        lemma_fields_push_get(fs0, gentry, "startOption"@);
        lemma_fields_push_get(fs0, gentry, "reset"@);
        lemma_fields_push_get(fs0, gentry, "getStatus"@);
        lemma_fields_push_get(fs0, gentry, "device_id"@);
        assert("device_id"@.len() == 9);
        assert("setVariable"@.len() == 11);
        assert("startOption"@.len() == 11);
        assert("reset"@.len() == 5);
        assert("getStatus"@.len() == 9);
        assert("device_id"@ != "getStatus"@) by {
            assert("device_id"@[0] == 'd');
            assert("getStatus"@[0] == 'g');
        }
    }
    let t2 = JsonVal::Obj(fields);
    proof {
        assert(json_get(gtree, "setVariable"@) == fields_get(fs0, "setVariable"@));
        assert(json_get(gtree, "startOption"@) == fields_get(fs0, "startOption"@));
        assert(json_get(gtree, "reset"@) == fields_get(fs0, "reset"@));
        assert(json_get(gtree, "getStatus"@) == fields_get(fs0, "getStatus"@));
        assert(json_get(t2, "setVariable"@) == json_get(gtree, "setVariable"@));
        assert(json_get(t2, "startOption"@) == json_get(gtree, "startOption"@));
        assert(json_get(t2, "reset"@) == json_get(gtree, "reset"@));
        assert(json_get(t2, "getStatus"@) == json_get(gtree, "getStatus"@));
        assert(crate::codec::as_set_variable(t2) == crate::codec::as_set_variable(gtree));
        assert(crate::codec::as_start_option(t2) == crate::codec::as_start_option(gtree));
        assert(crate::codec::spec_cmd_of_json(t2) == crate::codec::spec_cmd_of_json(gtree));
        assert(json_get(t2, "device_id"@) == Some(gdid));
    }
    let body = render_json(&t2);
    let body_bytes = body.as_str().as_bytes_vec();
    let mut out: Vec<u8> = Vec::new();
    out.push(crate::framing::STX);
    let ghost pre = out@;
    let mut i: usize = 0;
    while i < body_bytes.len()
        invariant
            i <= body_bytes@.len(),
            out@ =~= seq![crate::framing::STX] + body_bytes@.take(i as int),
        decreases body_bytes@.len() - i,
    {
        out.push(body_bytes[i]);
        proof {
            assert(out@ =~= seq![crate::framing::STX] + body_bytes@.take(i + 1));
        }
        i += 1;
    }
    proof {
        assert(body_bytes@.take(body_bytes@.len() as int) =~= body_bytes@);
    }
    out.push(crate::framing::ETX);
    proof {
        assert(out@ =~= seq![crate::framing::STX] + body_bytes@
            + seq![crate::framing::ETX]);
        assert(body_bytes@ == vstd::utf8::encode_utf8(body@));
    }
    out
}

/// The device a serial payload addresses: the non-empty string under its
/// top-level `device_id` field, if the payload is such an object.
pub open spec fn uart_device_of(jv: Option<JsonVal>) -> Option<String> {
    match jv {
        Some(v) => match json_get(v, "device_id"@) {
            Some(JsonVal::Str(s)) => if s@.len() > 0 {
                Some(s)
            } else {
                None
            },
            _ => None,
        },
        None => None,
    }
}

/// What a first-seen serial device's announcement guarantees: a discovery
/// event appended to the reserved system stream and handed back with its
/// recipients, everything else untouched.
pub open spec fn uart_discovery_step(
    m0: Esp32Manager,
    m1: Esp32Manager,
    msg: crate::manager::OutboundMsg,
    d: Seq<char>,
) -> bool {
    &&& (msg.event matches DeviceEvent::Esp32DeviceDiscovered {
        device_id, device_ip, tcp_port, udp_port, mac_address, mdns_hostname, ..
    } && {
        &&& device_id@ == d
        &&& device_ip@ == "0.0.0.0"@
        &&& tcp_port == 0 && udp_port == 0
        &&& mac_address is None
        &&& (mdns_hostname matches Some(h) && h@ == "uart-"@ + d)
    })
    &&& msg.recipients@ == crate::store::recips(
        crate::store::conns_of(m0.device_store, "system"@),
        "uart_listener"@,
        msg.event,
    )
    &&& exists|m: crate::events::EventWithMetadata|
        #![trigger crate::store::events_after_add(
            crate::store::events_of(m0.device_store, "system"@),
            m0.device_store.max_debug_messages as int,
            m,
        )]
        {
            &&& crate::events::same_event(msg.event, m.event)
            &&& crate::store::events_of(m1.device_store, "system"@)
                == crate::store::events_after_add(
                    crate::store::events_of(m0.device_store, "system"@),
                    m0.device_store.max_debug_messages as int,
                    m,
                )
        }
    &&& forall|e: Seq<char>| e != "system"@
        ==> crate::store::events_of(m1.device_store, e)
            == crate::store::events_of(m0.device_store, e)
    &&& m1.device_store.active_connections == m0.device_store.active_connections
    &&& m1.device_store.max_debug_messages == m0.device_store.max_debug_messages
    &&& m1.sessions == m0.sessions
    &&& m1.device_configs == m0.device_configs
    &&& m1.device_connection_types == m0.device_connection_types
    &&& m1.unified_activity == m0.unified_activity
    &&& m1.unified_connected == m0.unified_connected
    &&& m1.ip_to_device_id == m0.ip_to_device_id
}

impl Esp32Manager {
    /// Handle one inbound serial frame. The payload must be a JSON object
    /// naming its source under a non-empty `device_id`; exactly such
    /// payloads succeed. A device never seen before is announced with a
    /// discovery event on the reserved system stream; the payload,
    /// stripped of the `device_id` field, then goes through unified
    /// ingress under the serial source with all its guarantees.
    pub fn handle_uart_frame(&mut self, payload: &str, now: u64)
        -> (r: Result<(String, Vec<crate::manager::OutboundMsg>), Esp32Error>)
        requires
            old(self).wf(),
        ensures
            final(self).wf(),
            (r is Ok) == (uart_device_of(crate::json::json_val_of(payload@)) is Some),
            r matches Ok((device_id, out)) ==> ({
                let first_seen = !(old(self).unified_connected.spec_get(device_id@)
                    is Some);
                &&& uart_device_of(crate::json::json_val_of(payload@)) == Some(device_id)
                &&& device_id@.len() > 0
                &&& (first_seen ==> out@.len() >= 1)
                &&& (first_seen ==> exists|mid: Esp32Manager, stripped: Seq<char>|
                    #![trigger crate::manager::ingress_post(
                        mid, *final(self), out@.skip(1), stripped, device_id@,
                        MessageSource::Uart, now)]
                    {
                        &&& uart_discovery_step(*old(self), mid, out@[0], device_id@)
                        &&& crate::manager::ingress_post(
                            mid, *final(self), out@.skip(1), stripped, device_id@,
                            MessageSource::Uart, now,
                        )
                    })
                &&& (!first_seen ==> exists|stripped: Seq<char>|
                    #![trigger crate::manager::ingress_post(
                        *old(self), *final(self), out@, stripped, device_id@,
                        MessageSource::Uart, now)]
                    crate::manager::ingress_post(
                        *old(self), *final(self), out@, stripped, device_id@,
                        MessageSource::Uart, now,
                    ))
            }),
            r is Err ==> *final(self) == *old(self),
    {
        proof {
            reveal_strlit("device_id");
        }
        let tree = match crate::json::parse_json(payload) {
            Some(t) => t,
            None => {
                return Err(Esp32Error::JsonError("not a JSON object".to_owned()));
            }
        };
        let ghost gtree = tree;
        let fields: &Vec<(String, JsonVal)> = match &tree {
            JsonVal::Obj(fs) => fs,
            _ => {
                return Err(Esp32Error::JsonError("not a JSON object".to_owned()));
            }
        };
        let device_id: String = match crate::json::obj_get(fields, "device_id") {
            Some(JsonVal::Str(s)) => {
                if s.as_str().unicode_len() > 0 {
                    s.clone()
                } else {
                    return Err(Esp32Error::JsonError(
                        "serial frame names no device".to_owned(),
                    ));
                }
            }
            _ => {
                return Err(Esp32Error::JsonError(
                    "serial frame names no device".to_owned(),
                ));
            }
        };

        // A device never seen before announces itself on the system stream.
        let mut out: Vec<crate::manager::OutboundMsg> = Vec::new();
        let first_seen = !self.unified_connected.contains_key(device_id.as_str());
        if first_seen {
            let hostname = "uart-".to_owned().concat(device_id.as_str());
            let discovery_event = DeviceEvent::Esp32DeviceDiscovered {
                device_id: device_id.clone(),
                device_ip: "0.0.0.0".to_owned(),
                tcp_port: 0,
                udp_port: 0,
                discovered_at: crate::sys::now_rfc3339(),
                mac_address: None,
                mdns_hostname: Some(hostname),
            };
            let ev_copy = discovery_event.duplicate();
            let ghost gev = discovery_event;
            proof {
                reveal_strlit("system");
                reveal_strlit("0.0.0.0");
                crate::events::lemma_same_event_plain(ev_copy, gev);
            }
            let (recipients, trace) = self.add_event_traced(
                "system",
                discovery_event,
                "esp32_system",
                "uart_listener",
            );
            out.push(crate::manager::OutboundMsg { event: ev_copy, recipients });
        }
        let ghost mid = *self;
        let ghost head = out@;

        // Strip the routing field and run the payload through ingress.
        let mut kept: Vec<(String, JsonVal)> = Vec::new();
        let mut rest_fields: Vec<(String, JsonVal)> = match tree {
            JsonVal::Obj(fs) => fs,
            _ => Vec::new(),
        };
        while rest_fields.len() > 0
            invariant
                self.wf(),
                device_id@.len() > 0,
            decreases rest_fields@.len(),
        {
            let f = rest_fields.remove(0);
            let is_routing = crate::strutil::str_eq(f.0.as_str(), "device_id");
            if !is_routing {
                kept.push(f);
            }
        }
        let stripped = crate::json::render_json(&JsonVal::Obj(kept));
        let ghost gstripped = stripped@;
        let rest = self.handle_message_unified(
            stripped.as_str(),
            device_id.as_str(),
            &MessageSource::Uart,
            now,
        );
        let ghost grest = rest@;
        let mut rest = rest;
        out.append(&mut rest);
        proof {
            assert(out@ =~= head + grest);
            assert(out@.skip(if first_seen { 1int } else { 0int }) =~= grest);
        }
        Ok((device_id, out))
    }
}

/// An object's fields with every entry under one key dropped, in order.
pub open spec fn without_key(
    fs: Seq<(String, JsonVal)>,
    key: Seq<char>,
) -> Seq<(String, JsonVal)>
    decreases fs.len(),
{
    if fs.len() == 0 {
        Seq::empty()
    } else if fs[0].0@ == key {
        without_key(fs.drop_first(), key)
    } else {
        seq![fs[0]] + without_key(fs.drop_first(), key)
    }
}

/// Dropping one key leaves every other key's first binding in place, and
/// the dropped key unbound.
proof fn lemma_without_key_get(fs: Seq<(String, JsonVal)>, key: Seq<char>, k: Seq<char>)
    ensures
        k != key ==> fields_get(without_key(fs, key), k) == fields_get(fs, k),
        fields_get(without_key(fs, key), key) is None,
    decreases fs.len(),
{
    if fs.len() > 0 {
        lemma_without_key_get(fs.drop_first(), key, k);
        if fs[0].0@ == key {
        } else {
            let t = seq![fs[0]] + without_key(fs.drop_first(), key);
            assert(t[0] == fs[0]);
            assert(t.drop_first() =~= without_key(fs.drop_first(), key));
        }
    }
}

/// Frame an arbitrary command tree for the serial bus: the frame's body is
/// the rendering of the tree with its target bound under `device_id` and
/// any prior binding of that key dropped. A tree that is not an object is
/// refused.
pub fn frame_uart_json(tree: JsonVal, device_id: &str) -> (r: Result<Vec<u8>, Esp32Error>)
    ensures
        match r {
            Ok(bytes) => tree is Obj && exists|t: JsonVal| #![trigger json_text_of(t)]
                {
                    &&& bytes@ == seq![crate::framing::STX]
                        + vstd::utf8::encode_utf8(json_text_of(t))
                        + seq![crate::framing::ETX]
                    &&& (json_get(t, "device_id"@) matches Some(JsonVal::Str(d))
                        && d@ == device_id@)
                    &&& forall|k: Seq<char>| k != "device_id"@
                        ==> #[trigger] json_get(t, k) == json_get(tree, k)
                },
            Err(e) => e is InvalidCommand && !(tree is Obj),
        },
{
    proof {
        reveal_strlit("device_id");
    }
    let ghost gtree = tree;
    let mut fields: Vec<(String, JsonVal)> = match tree {
        JsonVal::Obj(fs) => fs,
        _ => {
            return Err(Esp32Error::InvalidCommand("command is not a JSON object".to_owned()));
        }
    };
    let ghost fs0 = fields@;
    // Drop any prior routing field, keeping the order.
    let mut kept: Vec<(String, JsonVal)> = Vec::new();
    while fields.len() > 0
        invariant
            without_key(fs0, "device_id"@) =~= kept@ + without_key(fields@, "device_id"@),
        decreases fields@.len(),
    {
        let ghost pre_fields = fields@;
        let f = fields.remove(0);
        proof {
            assert(fields@ =~= pre_fields.drop_first());
        }
        let is_routing = crate::strutil::str_eq(f.0.as_str(), "device_id");
        if !is_routing {
            let ghost pre_kept = kept@;
            kept.push(f);
            proof {
                assert(kept@ =~= pre_kept.push(pre_fields[0]));
                assert(pre_kept + without_key(pre_fields, "device_id"@)
                    =~= kept@ + without_key(fields@, "device_id"@));
            }
        }
    }
    proof {
        assert(without_key(fields@, "device_id"@) =~= Seq::<(String, JsonVal)>::empty());
        assert(kept@ =~= without_key(fs0, "device_id"@));
    }
    let ghost gkept = kept@;
    let mut kept = kept;
    let did = JsonVal::Str(device_id.to_owned());
    let ghost gdid = did;
    kept.push(("device_id".to_owned(), did));
    let ghost gentry = (kept@[kept@.len() - 1].0, gdid);
    let t2 = JsonVal::Obj(kept);
    proof {
        assert(t2->Obj_0@ =~= gkept.push(gentry));
        assert(gentry.0@ == "device_id"@);
        assert forall|k: Seq<char>| k != "device_id"@
            implies #[trigger] json_get(t2, k) == json_get(gtree, k) by {
            lemma_fields_push_get(gkept, gentry, k);
            lemma_without_key_get(fs0, "device_id"@, k);
        }
        lemma_fields_push_get(gkept, gentry, "device_id"@);
        lemma_without_key_get(fs0, "device_id"@, "device_id"@);
        assert(json_get(t2, "device_id"@) == Some(gdid));
    }
    let body = render_json(&t2);
    Ok(wrap_frame(body.as_str()))
}

/// Frame the tab-opened notification for a serial device: the rendering of
/// an object binding the device under `device_id` and `tabOpened` under
/// `event`.
pub fn frame_tab_opened(device_id: &str) -> (r: Vec<u8>)
    ensures
        exists|t: JsonVal| #![trigger json_text_of(t)]
            {
                &&& r@ == seq![crate::framing::STX]
                    + vstd::utf8::encode_utf8(json_text_of(t))
                    + seq![crate::framing::ETX]
                &&& (json_get(t, "device_id"@) matches Some(JsonVal::Str(d))
                    && d@ == device_id@)
                &&& (json_get(t, "event"@) matches Some(JsonVal::Str(e))
                    && e@ == "tabOpened"@)
            },
{
    proof {
        reveal_strlit("device_id");
        reveal_strlit("event");
        reveal_strlit("tabOpened");
        assert("device_id"@.len() == 9);
        assert("event"@.len() == 5);
    }
    let mut fields: Vec<(String, JsonVal)> = Vec::new();
    fields.push(("device_id".to_owned(), JsonVal::Str(device_id.to_owned())));
    fields.push(("event".to_owned(), JsonVal::Str("tabOpened".to_owned())));
    let ghost gf = fields@;
    let t = JsonVal::Obj(fields);
    proof {
        assert(json_get(t, "device_id"@) == Some(gf[0].1));
        assert(crate::json::fields_get(gf, "event"@)
            == crate::json::fields_get(gf.drop_first(), "event"@));
        assert(gf.drop_first()[0] == gf[1]);
        assert(json_get(t, "event"@) == Some(gf[1].1));
    }
    let body = render_json(&t);
    wrap_frame(body.as_str())
}

/// Bracket a payload with STX and ETX.
fn wrap_frame(body: &str) -> (r: Vec<u8>)
    ensures
        r@.len() >= 2,
        r@[0] == crate::framing::STX,
        r@[r@.len() - 1] == crate::framing::ETX,
        r@ == seq![crate::framing::STX] + vstd::utf8::encode_utf8(body@)
            + seq![crate::framing::ETX],
{
    let bytes = body.as_bytes_vec();
    let mut out: Vec<u8> = Vec::new();
    out.push(crate::framing::STX);
    let mut i: usize = 0;
    while i < bytes.len()
        invariant
            i <= bytes@.len(),
            out@ =~= seq![crate::framing::STX] + bytes@.take(i as int),
        decreases bytes@.len() - i,
    {
        out.push(bytes[i]);
        proof {
            assert(out@ =~= seq![crate::framing::STX] + bytes@.take(i + 1));
        }
        i += 1;
    }
    proof {
        assert(bytes@.take(bytes@.len() as int) =~= bytes@);
    }
    out.push(crate::framing::ETX);
    proof {
        assert(out@ =~= seq![crate::framing::STX] + bytes@ + seq![crate::framing::ETX]);
        assert(bytes@ == vstd::utf8::encode_utf8(body@));
    }
    out
}

} // verus!