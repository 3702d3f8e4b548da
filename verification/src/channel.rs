//! The subscriber channel protocol: who may register for a device, how the
//! wire messages read and are written, and what a registration or an
//! inbound event batch does. The duplex transport lives with the I/O layer;
//! every rule is here.

use vstd::prelude::*;
use vstd::string::StringSliceAdditionalSpecFns;
use crate::events::{ClientMessage, DeviceEvent, ServerMessage, SubscriptionType};
use crate::json::{JsonVal, json_get};
use crate::strutil::str_eq;

verus! {

/// Whether a character is a hexadecimal digit.
pub open spec fn is_hex_char(c: char) -> bool {
    ('0' <= c && c <= '9') || ('a' <= c && c <= 'f') || ('A' <= c && c <= 'F')
}

/// A MAC address in colon form: six two-digit hexadecimal groups.
pub open spec fn spec_mac_colon(s: Seq<char>) -> bool {
    &&& s.len() == 17
    &&& forall|g: int| 0 <= g < 6 ==> is_hex_char(#[trigger] s[g * 3])
        && is_hex_char(s[g * 3 + 1])
    &&& forall|g: int| 0 <= g < 5 ==> #[trigger] s[g * 3 + 2] == ':'
}

/// A MAC address in dash form: six two-digit hexadecimal groups.
pub open spec fn spec_mac_dash(s: Seq<char>) -> bool {
    &&& s.len() == 17
    &&& forall|g: int| 0 <= g < 6 ==> is_hex_char(#[trigger] s[g * 3])
        && is_hex_char(s[g * 3 + 1])
    &&& forall|g: int| 0 <= g < 5 ==> #[trigger] s[g * 3 + 2] == '-'
}

/// A bare microcontroller unique id: twenty-four hexadecimal characters.
pub open spec fn spec_uid24(s: Seq<char>) -> bool {
    s.len() == 24 && forall|i: int| 0 <= i < 24 ==> is_hex_char(#[trigger] s[i])
}

/// Hexadecimal digit test, executably.
pub fn hex_char(c: char) -> (r: bool)
    ensures
        r == is_hex_char(c),
{
    ('0' <= c && c <= '9') || ('a' <= c && c <= 'f') || ('A' <= c && c <= 'F')
}

/// Whether a device id is a MAC address with colon separators.
pub fn is_mac_address_format(device_id: &str) -> (r: bool)
    ensures
        r == spec_mac_colon(device_id@),
{
    mac_with_sep(device_id, ':')
}

/// Whether a device id is a MAC address with dash separators.
pub fn is_mac_key_format(device_id: &str) -> (r: bool)
    ensures
        r == spec_mac_dash(device_id@),
{
    mac_with_sep(device_id, '-')
}

/// MAC shape check against a given separator.
fn mac_with_sep(device_id: &str, sep: char) -> (r: bool)
    ensures
        sep == ':' ==> r == spec_mac_colon(device_id@),
        sep == '-' ==> r == spec_mac_dash(device_id@),
{
    let n = device_id.unicode_len();
    if n != 17 {
        return false;
    }
    let mut g: usize = 0;
    while g < 6
        invariant
            g <= 6,
            device_id@.len() == 17,
            forall|j: int| 0 <= j < g ==> is_hex_char(#[trigger] device_id@[j * 3])
                && is_hex_char(device_id@[j * 3 + 1]),
            forall|j: int| 0 <= j < g && j < 5 ==> #[trigger] device_id@[j * 3 + 2] == sep,
        decreases 6 - g,
    {
        let c0 = device_id.get_char(g * 3);
        let c1 = device_id.get_char(g * 3 + 1);
        if !hex_char(c0) || !hex_char(c1) {
            return false;
        }
        if g < 5 {
            let c2 = device_id.get_char(g * 3 + 2);
            if c2 != sep {
                return false;
            }
        }
        g += 1;
    }
    true
}

/// Whether a device id is a bare microcontroller unique id.
pub fn is_stm32_uid_format(device_id: &str) -> (r: bool)
    ensures
        r == spec_uid24(device_id@),
{
    let n = device_id.unicode_len();
    if n != 24 {
        return false;
    }
    let mut i: usize = 0;
    while i < 24
        invariant
            i <= 24,
            device_id@.len() == 24,
            forall|j: int| 0 <= j < i ==> is_hex_char(#[trigger] device_id@[j]),
        decreases 24 - i,
    {
        if !hex_char(device_id.get_char(i)) {
            return false;
        }
        i += 1;
    }
    true
}

/// Whether a device id begins with the serial-discovery prefix.
pub open spec fn spec_esp32_prefixed(s: Seq<char>) -> bool {
    s.len() >= 6 && s.subrange(0, 6) == "esp32-"@
}

/// Prefix test for serial-discovered ids, executably.
pub fn has_esp32_prefix(device_id: &str) -> (r: bool)
    ensures
        r == spec_esp32_prefixed(device_id@),
{
    proof {
        reveal_strlit("esp32-");
    }
    let n = device_id.unicode_len();
    if n < 6 {
        return false;
    }
    let sub = device_id.substring_char(0, 6);
    let eq = str_eq(sub, "esp32-");
    proof {
        if eq {
            assert(device_id@.subrange(0, 6) == "esp32-"@);
        }
    }
    eq
}

/// The read-permission rule for registering on a device: guests are let
/// through, the reserved system stream and the device-shaped ids grant read
/// to every authenticated user, and anything else needs the identity
/// collaborator's grade.
pub open spec fn spec_register_allowed(user: Seq<char>, device: Seq<char>) -> Option<bool> {
    if user == "guest"@ {
        Some(true)
    } else if device == "system"@ {
        Some(true)
    } else if spec_esp32_prefixed(device) {
        Some(true)
    } else if spec_mac_colon(device) || spec_mac_dash(device) {
        Some(true)
    } else if spec_uid24(device) {
        Some(true)
    } else {
        None
    }
}

/// The write-permission rule for device events: guests are let through, and
/// so is anything device-shaped; the rest needs the identity collaborator.
pub open spec fn spec_write_allowed(user: Seq<char>, device: Seq<char>) -> Option<bool> {
    if user == "guest"@ {
        Some(true)
    } else if spec_mac_colon(device) || spec_mac_dash(device) || spec_esp32_prefixed(device) {
        Some(true)
    } else if spec_uid24(device) {
        Some(true)
    } else {
        None
    }
}

/// Decide read permission locally; `None` asks the identity collaborator.
pub fn register_permission(user_id: &str, device_id: &str) -> (r: Option<bool>)
    ensures
        r == spec_register_allowed(user_id@, device_id@),
{
    if str_eq(user_id, "guest") {
        return Some(true);
    }
    if str_eq(device_id, "system") {
        return Some(true);
    }
    if has_esp32_prefix(device_id) {
        return Some(true);
    }
    if is_mac_address_format(device_id) || is_mac_key_format(device_id) {
        return Some(true);
    }
    if is_stm32_uid_format(device_id) {
        return Some(true);
    }
    None
}

/// Decide write permission locally; `None` asks the identity collaborator.
pub fn write_permission(user_id: &str, device_id: &str) -> (r: Option<bool>)
    ensures
        r == spec_write_allowed(user_id@, device_id@),
{
    if str_eq(user_id, "guest") {
        return Some(true);
    }
    if is_mac_address_format(device_id) || is_mac_key_format(device_id)
        || has_esp32_prefix(device_id) {
        return Some(true);
    }
    if is_stm32_uid_format(device_id) {
        return Some(true);
    }
    None
}

/// The lower-case hexadecimal digit character for a value below sixteen.
pub open spec fn lower_hex_char(d: int) -> char {
    if d == 0 { '0' } else if d == 1 { '1' } else if d == 2 { '2' }
    else if d == 3 { '3' } else if d == 4 { '4' } else if d == 5 { '5' }
    else if d == 6 { '6' } else if d == 7 { '7' } else if d == 8 { '8' }
    else if d == 9 { '9' } else if d == 10 { 'a' } else if d == 11 { 'b' }
    else if d == 12 { 'c' } else if d == 13 { 'd' } else if d == 14 { 'e' }
    else { 'f' }
}

/// A value's lowest `n` hexadecimal digits in lower case, least
/// significant first.
pub open spec fn lower_hex_digits(h: u32, n: int) -> Seq<char>
    decreases n,
{
    if n <= 0 {
        Seq::empty()
    } else {
        seq![lower_hex_char((h % 16) as int)] + lower_hex_digits(h / 16, n - 1)
    }
}

/// The lower-case hexadecimal digit for a value below sixteen.
fn lower_hex_str(d: u32) -> (r: &'static str)
    requires
        d < 16,
    ensures
        r@ =~= seq![lower_hex_char(d as int)],
{
    proof {
        reveal_strlit("0"); reveal_strlit("1"); reveal_strlit("2");
        reveal_strlit("3"); reveal_strlit("4"); reveal_strlit("5");
        reveal_strlit("6"); reveal_strlit("7"); reveal_strlit("8");
        reveal_strlit("9"); reveal_strlit("a"); reveal_strlit("b");
        reveal_strlit("c"); reveal_strlit("d"); reveal_strlit("e");
        reveal_strlit("f");
    }
    if d == 0 { "0" } else if d == 1 { "1" } else if d == 2 { "2" }
    else if d == 3 { "3" } else if d == 4 { "4" } else if d == 5 { "5" }
    else if d == 6 { "6" } else if d == 7 { "7" } else if d == 8 { "8" }
    else if d == 9 { "9" } else if d == 10 { "a" } else if d == 11 { "b" }
    else if d == 12 { "c" } else if d == 13 { "d" } else if d == 14 { "e" }
    else { "f" }
}

/// A client id unique per attach: the user identity's hash digits for
/// grouping — least significant first — and a fresh random tail so two
/// browser tabs stay distinct.
pub fn generate_client_id(email: &str) -> (r: String)
    ensures
        r@.len() == 24,
        r@.subrange(0, 7) == "client-"@,
        r@.subrange(7, 15) == lower_hex_digits(
            crate::color::spec_fnv_hash(vstd::utf8::encode_utf8(email@)),
            8,
        ),
        r@[15] == '-',
{
    proof {
        reveal_strlit("client-");
        reveal_strlit("-");
        assert("client-"@.len() == 7);
        assert("-"@.len() == 1);
    }
    let hash = crate::color::fnv_hash(email);
    let ghost ghash = hash;
    let mut hex = String::new();
    let mut h: u32 = hash;
    let mut i: usize = 0;
    while i < 8
        invariant
            i <= 8,
            hex@.len() == i,
            lower_hex_digits(ghash, 8) =~= hex@ + lower_hex_digits(h, 8 - i),
        decreases 8 - i,
    {
        let ghost pre = hex@;
        let ghost hpre = h;
        hex.append(lower_hex_str(h % 16));
        h = h / 16;
        i += 1;
        proof {
            assert(lower_hex_digits(hpre, 8 - (i - 1))
                =~= seq![lower_hex_char((hpre % 16) as int)]
                    + lower_hex_digits(hpre / 16, 8 - i));
            assert(lower_hex_digits(ghash, 8) =~= hex@ + lower_hex_digits(h, 8 - i));
        }
    }
    proof {
        assert(lower_hex_digits(h, 0) =~= Seq::<char>::empty());
        assert(hex@ =~= lower_hex_digits(ghash, 8));
    }
    let tail = crate::sys::short_random_id();
    let r = "client-".to_owned().concat(hex.as_str()).concat("-").concat(tail.as_str());
    proof {
        assert(r@.subrange(0, 7) =~= "client-"@);
        assert(r@.subrange(7, 15) =~= hex@);
    }
    r
}

/// What an event batch message to a subscriber must read as: the device
/// id and an event list under the expected keys, each element carrying
/// its event's tag and plain fields.
pub open spec fn is_device_events_json(
    v: JsonVal,
    device: Seq<char>,
    events: Seq<DeviceEvent>,
) -> bool {
    &&& (json_get(v, "deviceId"@) matches Some(JsonVal::Str(d)) && d@ == device)
    &&& (json_get(v, "eventsForDevice"@) matches Some(JsonVal::Arr(a))
        && a@.len() == events.len()
        && forall|k: int| 0 <= k < a@.len()
            ==> event_plain_fields_match(events[k], #[trigger] a@[k]))
}

impl ServerMessage {
    /// The wire tree of a message to a subscriber.
    pub fn to_json_val(&self) -> (r: JsonVal)
        ensures
            self matches ServerMessage::DeviceEvents { device_id, events_for_device }
                ==> is_device_events_json(r, device_id@, events_for_device@),
            self matches ServerMessage::Pong { .. }
                ==> (json_get(r, "type"@) matches Some(JsonVal::Str(t)) && t@ == "pong"@),
    {
        proof {
            reveal_strlit("deviceId");
            reveal_strlit("eventsForDevice");
            reveal_strlit("type");
            reveal_strlit("timestamp");
            reveal_strlit("pong");
        }
        match self {
            ServerMessage::DeviceEvents { device_id, events_for_device } => {
                let mut arr: Vec<JsonVal> = Vec::new();
                let mut i: usize = 0;
                while i < events_for_device.len()
                    invariant
                        i <= events_for_device@.len(),
                        arr@.len() == i,
                        forall|k: int| 0 <= k < i ==> event_plain_fields_match(
                            events_for_device@[k],
                            #[trigger] arr@[k],
                        ),
                    decreases events_for_device@.len() - i,
                {
                    arr.push(event_to_json_val(&events_for_device[i]));
                    i += 1;
                }
                let mut fields: Vec<(String, JsonVal)> = Vec::new();
                fields.push(("deviceId".to_owned(), JsonVal::Str(device_id.clone())));
                fields.push(("eventsForDevice".to_owned(), JsonVal::Arr(arr)));
                let r = JsonVal::Obj(fields);
                proof {
                    assert("deviceId"@.len() == 8);
                    assert("eventsForDevice"@.len() == 15);
                    assert(json_get(r, "deviceId"@)
                        == Some(r->Obj_0@[0].1));
                    assert(crate::json::fields_get(r->Obj_0@, "eventsForDevice"@)
                        == crate::json::fields_get(r->Obj_0@.drop_first(), "eventsForDevice"@));
                    assert(r->Obj_0@.drop_first()[0] == r->Obj_0@[1]);
                    assert(json_get(r, "eventsForDevice"@) == Some(r->Obj_0@[1].1));
                }
                r
            }
            ServerMessage::Pong { message_type, timestamp } => {
                let mut fields: Vec<(String, JsonVal)> = Vec::new();
                fields.push(("type".to_owned(), JsonVal::Str("pong".to_owned())));
                match timestamp {
                    Some(t) => {
                        fields.push(("timestamp".to_owned(), JsonVal::UInt(*t)));
                    }
                    None => {}
                }
                let r = JsonVal::Obj(fields);
                proof {
                    assert(json_get(r, "type"@) == Some(r->Obj_0@[0].1));
                }
                r
            }
        }
    }
}

/// Every key of a 2-entry object with distinct keys answers its entry.
proof fn lemma_fields2(fs: Seq<(String, JsonVal)>)
    requires
        fs.len() == 2,
        fs[0].0@ != fs[1].0@,
    ensures
        crate::json::fields_get(fs, fs[0].0@) == Some(fs[0].1),
        crate::json::fields_get(fs, fs[1].0@) == Some(fs[1].1),
{
    assert(crate::json::fields_get(fs, fs[0].0@) == Some(fs[0].1));
    assert(fs.drop_first()[0] == fs[1]);
    assert(crate::json::fields_get(fs, fs[1].0@) == crate::json::fields_get(fs.drop_first(), fs[1].0@));
    assert(fs.drop_first()[0] == fs[1]);
    assert(crate::json::fields_get(fs.drop_first(), fs[1].0@) == Some(fs[1].1));
}

/// Every key of a 3-entry object with distinct keys answers its entry.
proof fn lemma_fields3(fs: Seq<(String, JsonVal)>)
    requires
        fs.len() == 3,
        fs[0].0@ != fs[1].0@,
        fs[0].0@ != fs[2].0@,
        fs[1].0@ != fs[2].0@,
    ensures
        crate::json::fields_get(fs, fs[0].0@) == Some(fs[0].1),
        crate::json::fields_get(fs, fs[1].0@) == Some(fs[1].1),
        crate::json::fields_get(fs, fs[2].0@) == Some(fs[2].1),
{
    assert(crate::json::fields_get(fs, fs[0].0@) == Some(fs[0].1));
    assert(fs.drop_first()[0] == fs[1]);
    assert(crate::json::fields_get(fs, fs[1].0@) == crate::json::fields_get(fs.drop_first(), fs[1].0@));
    assert(fs.drop_first()[0] == fs[1]);
    assert(crate::json::fields_get(fs.drop_first(), fs[1].0@) == Some(fs[1].1));
    assert(fs.drop_first()[0] == fs[1]);
    assert(crate::json::fields_get(fs, fs[2].0@) == crate::json::fields_get(fs.drop_first(), fs[2].0@));
    assert(fs.drop_first().drop_first()[0] == fs[2]);
    assert(crate::json::fields_get(fs.drop_first(), fs[2].0@) == crate::json::fields_get(fs.drop_first().drop_first(), fs[2].0@));
    assert(fs.drop_first().drop_first()[0] == fs[2]);
    assert(crate::json::fields_get(fs.drop_first().drop_first(), fs[2].0@) == Some(fs[2].1));
}

/// Every key of a 4-entry object with distinct keys answers its entry.
proof fn lemma_fields4(fs: Seq<(String, JsonVal)>)
    requires
        fs.len() == 4,
        fs[0].0@ != fs[1].0@,
        fs[0].0@ != fs[2].0@,
        fs[0].0@ != fs[3].0@,
        fs[1].0@ != fs[2].0@,
        fs[1].0@ != fs[3].0@,
        fs[2].0@ != fs[3].0@,
    ensures
        crate::json::fields_get(fs, fs[0].0@) == Some(fs[0].1),
        crate::json::fields_get(fs, fs[1].0@) == Some(fs[1].1),
        crate::json::fields_get(fs, fs[2].0@) == Some(fs[2].1),
        crate::json::fields_get(fs, fs[3].0@) == Some(fs[3].1),
{
    assert(crate::json::fields_get(fs, fs[0].0@) == Some(fs[0].1));
    assert(fs.drop_first()[0] == fs[1]);
    assert(crate::json::fields_get(fs, fs[1].0@) == crate::json::fields_get(fs.drop_first(), fs[1].0@));
    assert(fs.drop_first()[0] == fs[1]);
    assert(crate::json::fields_get(fs.drop_first(), fs[1].0@) == Some(fs[1].1));
    assert(fs.drop_first()[0] == fs[1]);
    assert(crate::json::fields_get(fs, fs[2].0@) == crate::json::fields_get(fs.drop_first(), fs[2].0@));
    assert(fs.drop_first().drop_first()[0] == fs[2]);
    assert(crate::json::fields_get(fs.drop_first(), fs[2].0@) == crate::json::fields_get(fs.drop_first().drop_first(), fs[2].0@));
    assert(fs.drop_first().drop_first()[0] == fs[2]);
    assert(crate::json::fields_get(fs.drop_first().drop_first(), fs[2].0@) == Some(fs[2].1));
    assert(fs.drop_first()[0] == fs[1]);
    assert(crate::json::fields_get(fs, fs[3].0@) == crate::json::fields_get(fs.drop_first(), fs[3].0@));
    assert(fs.drop_first().drop_first()[0] == fs[2]);
    assert(crate::json::fields_get(fs.drop_first(), fs[3].0@) == crate::json::fields_get(fs.drop_first().drop_first(), fs[3].0@));
    assert(fs.drop_first().drop_first().drop_first()[0] == fs[3]);
    assert(crate::json::fields_get(fs.drop_first().drop_first(), fs[3].0@) == crate::json::fields_get(fs.drop_first().drop_first().drop_first(), fs[3].0@));
    assert(fs.drop_first().drop_first().drop_first()[0] == fs[3]);
    assert(crate::json::fields_get(fs.drop_first().drop_first().drop_first(), fs[3].0@) == Some(fs[3].1));
}

/// Every key of a 5-entry object with distinct keys answers its entry.
proof fn lemma_fields5(fs: Seq<(String, JsonVal)>)
    requires
        fs.len() == 5,
        fs[0].0@ != fs[1].0@,
        fs[0].0@ != fs[2].0@,
        fs[0].0@ != fs[3].0@,
        fs[0].0@ != fs[4].0@,
        fs[1].0@ != fs[2].0@,
        fs[1].0@ != fs[3].0@,
        fs[1].0@ != fs[4].0@,
        fs[2].0@ != fs[3].0@,
        fs[2].0@ != fs[4].0@,
        fs[3].0@ != fs[4].0@,
    ensures
        crate::json::fields_get(fs, fs[0].0@) == Some(fs[0].1),
        crate::json::fields_get(fs, fs[1].0@) == Some(fs[1].1),
        crate::json::fields_get(fs, fs[2].0@) == Some(fs[2].1),
        crate::json::fields_get(fs, fs[3].0@) == Some(fs[3].1),
        crate::json::fields_get(fs, fs[4].0@) == Some(fs[4].1),
{
    assert(crate::json::fields_get(fs, fs[0].0@) == Some(fs[0].1));
    assert(fs.drop_first()[0] == fs[1]);
    assert(crate::json::fields_get(fs, fs[1].0@) == crate::json::fields_get(fs.drop_first(), fs[1].0@));
    assert(fs.drop_first()[0] == fs[1]);
    assert(crate::json::fields_get(fs.drop_first(), fs[1].0@) == Some(fs[1].1));
    assert(fs.drop_first()[0] == fs[1]);
    assert(crate::json::fields_get(fs, fs[2].0@) == crate::json::fields_get(fs.drop_first(), fs[2].0@));
    assert(fs.drop_first().drop_first()[0] == fs[2]);
    assert(crate::json::fields_get(fs.drop_first(), fs[2].0@) == crate::json::fields_get(fs.drop_first().drop_first(), fs[2].0@));
    assert(fs.drop_first().drop_first()[0] == fs[2]);
    assert(crate::json::fields_get(fs.drop_first().drop_first(), fs[2].0@) == Some(fs[2].1));
    assert(fs.drop_first()[0] == fs[1]);
    assert(crate::json::fields_get(fs, fs[3].0@) == crate::json::fields_get(fs.drop_first(), fs[3].0@));
    assert(fs.drop_first().drop_first()[0] == fs[2]);
    assert(crate::json::fields_get(fs.drop_first(), fs[3].0@) == crate::json::fields_get(fs.drop_first().drop_first(), fs[3].0@));
    assert(fs.drop_first().drop_first().drop_first()[0] == fs[3]);
    assert(crate::json::fields_get(fs.drop_first().drop_first(), fs[3].0@) == crate::json::fields_get(fs.drop_first().drop_first().drop_first(), fs[3].0@));
    assert(fs.drop_first().drop_first().drop_first()[0] == fs[3]);
    assert(crate::json::fields_get(fs.drop_first().drop_first().drop_first(), fs[3].0@) == Some(fs[3].1));
    assert(fs.drop_first()[0] == fs[1]);
    assert(crate::json::fields_get(fs, fs[4].0@) == crate::json::fields_get(fs.drop_first(), fs[4].0@));
    assert(fs.drop_first().drop_first()[0] == fs[2]);
    assert(crate::json::fields_get(fs.drop_first(), fs[4].0@) == crate::json::fields_get(fs.drop_first().drop_first(), fs[4].0@));
    assert(fs.drop_first().drop_first().drop_first()[0] == fs[3]);
    assert(crate::json::fields_get(fs.drop_first().drop_first(), fs[4].0@) == crate::json::fields_get(fs.drop_first().drop_first().drop_first(), fs[4].0@));
    assert(fs.drop_first().drop_first().drop_first().drop_first()[0] == fs[4]);
    assert(crate::json::fields_get(fs.drop_first().drop_first().drop_first(), fs[4].0@) == crate::json::fields_get(fs.drop_first().drop_first().drop_first().drop_first(), fs[4].0@));
    assert(fs.drop_first().drop_first().drop_first().drop_first()[0] == fs[4]);
    assert(crate::json::fields_get(fs.drop_first().drop_first().drop_first().drop_first(), fs[4].0@) == Some(fs[4].1));
}

/// Every key of a 6-entry object with distinct keys answers its entry.
proof fn lemma_fields6(fs: Seq<(String, JsonVal)>)
    requires
        fs.len() == 6,
        fs[0].0@ != fs[1].0@,
        fs[0].0@ != fs[2].0@,
        fs[0].0@ != fs[3].0@,
        fs[0].0@ != fs[4].0@,
        fs[0].0@ != fs[5].0@,
        fs[1].0@ != fs[2].0@,
        fs[1].0@ != fs[3].0@,
        fs[1].0@ != fs[4].0@,
        fs[1].0@ != fs[5].0@,
        fs[2].0@ != fs[3].0@,
        fs[2].0@ != fs[4].0@,
        fs[2].0@ != fs[5].0@,
        fs[3].0@ != fs[4].0@,
        fs[3].0@ != fs[5].0@,
        fs[4].0@ != fs[5].0@,
    ensures
        crate::json::fields_get(fs, fs[0].0@) == Some(fs[0].1),
        crate::json::fields_get(fs, fs[1].0@) == Some(fs[1].1),
        crate::json::fields_get(fs, fs[2].0@) == Some(fs[2].1),
        crate::json::fields_get(fs, fs[3].0@) == Some(fs[3].1),
        crate::json::fields_get(fs, fs[4].0@) == Some(fs[4].1),
        crate::json::fields_get(fs, fs[5].0@) == Some(fs[5].1),
{
    assert(crate::json::fields_get(fs, fs[0].0@) == Some(fs[0].1));
    assert(fs.drop_first()[0] == fs[1]);
    assert(crate::json::fields_get(fs, fs[1].0@) == crate::json::fields_get(fs.drop_first(), fs[1].0@));
    assert(fs.drop_first()[0] == fs[1]);
    assert(crate::json::fields_get(fs.drop_first(), fs[1].0@) == Some(fs[1].1));
    assert(fs.drop_first()[0] == fs[1]);
    assert(crate::json::fields_get(fs, fs[2].0@) == crate::json::fields_get(fs.drop_first(), fs[2].0@));
    assert(fs.drop_first().drop_first()[0] == fs[2]);
    assert(crate::json::fields_get(fs.drop_first(), fs[2].0@) == crate::json::fields_get(fs.drop_first().drop_first(), fs[2].0@));
    assert(fs.drop_first().drop_first()[0] == fs[2]);
    assert(crate::json::fields_get(fs.drop_first().drop_first(), fs[2].0@) == Some(fs[2].1));
    assert(fs.drop_first()[0] == fs[1]);
    assert(crate::json::fields_get(fs, fs[3].0@) == crate::json::fields_get(fs.drop_first(), fs[3].0@));
    assert(fs.drop_first().drop_first()[0] == fs[2]);
    assert(crate::json::fields_get(fs.drop_first(), fs[3].0@) == crate::json::fields_get(fs.drop_first().drop_first(), fs[3].0@));
    assert(fs.drop_first().drop_first().drop_first()[0] == fs[3]);
    assert(crate::json::fields_get(fs.drop_first().drop_first(), fs[3].0@) == crate::json::fields_get(fs.drop_first().drop_first().drop_first(), fs[3].0@));
    assert(fs.drop_first().drop_first().drop_first()[0] == fs[3]);
    assert(crate::json::fields_get(fs.drop_first().drop_first().drop_first(), fs[3].0@) == Some(fs[3].1));
    assert(fs.drop_first()[0] == fs[1]);
    assert(crate::json::fields_get(fs, fs[4].0@) == crate::json::fields_get(fs.drop_first(), fs[4].0@));
    assert(fs.drop_first().drop_first()[0] == fs[2]);
    assert(crate::json::fields_get(fs.drop_first(), fs[4].0@) == crate::json::fields_get(fs.drop_first().drop_first(), fs[4].0@));
    assert(fs.drop_first().drop_first().drop_first()[0] == fs[3]);
    assert(crate::json::fields_get(fs.drop_first().drop_first(), fs[4].0@) == crate::json::fields_get(fs.drop_first().drop_first().drop_first(), fs[4].0@));
    assert(fs.drop_first().drop_first().drop_first().drop_first()[0] == fs[4]);
    assert(crate::json::fields_get(fs.drop_first().drop_first().drop_first(), fs[4].0@) == crate::json::fields_get(fs.drop_first().drop_first().drop_first().drop_first(), fs[4].0@));
    assert(fs.drop_first().drop_first().drop_first().drop_first()[0] == fs[4]);
    assert(crate::json::fields_get(fs.drop_first().drop_first().drop_first().drop_first(), fs[4].0@) == Some(fs[4].1));
    assert(fs.drop_first()[0] == fs[1]);
    assert(crate::json::fields_get(fs, fs[5].0@) == crate::json::fields_get(fs.drop_first(), fs[5].0@));
    assert(fs.drop_first().drop_first()[0] == fs[2]);
    assert(crate::json::fields_get(fs.drop_first(), fs[5].0@) == crate::json::fields_get(fs.drop_first().drop_first(), fs[5].0@));
    assert(fs.drop_first().drop_first().drop_first()[0] == fs[3]);
    assert(crate::json::fields_get(fs.drop_first().drop_first(), fs[5].0@) == crate::json::fields_get(fs.drop_first().drop_first().drop_first(), fs[5].0@));
    assert(fs.drop_first().drop_first().drop_first().drop_first()[0] == fs[4]);
    assert(crate::json::fields_get(fs.drop_first().drop_first().drop_first(), fs[5].0@) == crate::json::fields_get(fs.drop_first().drop_first().drop_first().drop_first(), fs[5].0@));
    assert(fs.drop_first().drop_first().drop_first().drop_first().drop_first()[0] == fs[5]);
    assert(crate::json::fields_get(fs.drop_first().drop_first().drop_first().drop_first(), fs[5].0@) == crate::json::fields_get(fs.drop_first().drop_first().drop_first().drop_first().drop_first(), fs[5].0@));
    assert(fs.drop_first().drop_first().drop_first().drop_first().drop_first()[0] == fs[5]);
    assert(crate::json::fields_get(fs.drop_first().drop_first().drop_first().drop_first().drop_first(), fs[5].0@) == Some(fs[5].1));
}

/// Every key of a 7-entry object with distinct keys answers its entry.
proof fn lemma_fields7(fs: Seq<(String, JsonVal)>)
    requires
        fs.len() == 7,
        fs[0].0@ != fs[1].0@,
        fs[0].0@ != fs[2].0@,
        fs[0].0@ != fs[3].0@,
        fs[0].0@ != fs[4].0@,
        fs[0].0@ != fs[5].0@,
        fs[0].0@ != fs[6].0@,
        fs[1].0@ != fs[2].0@,
        fs[1].0@ != fs[3].0@,
        fs[1].0@ != fs[4].0@,
        fs[1].0@ != fs[5].0@,
        fs[1].0@ != fs[6].0@,
        fs[2].0@ != fs[3].0@,
        fs[2].0@ != fs[4].0@,
        fs[2].0@ != fs[5].0@,
        fs[2].0@ != fs[6].0@,
        fs[3].0@ != fs[4].0@,
        fs[3].0@ != fs[5].0@,
        fs[3].0@ != fs[6].0@,
        fs[4].0@ != fs[5].0@,
        fs[4].0@ != fs[6].0@,
        fs[5].0@ != fs[6].0@,
    ensures
        crate::json::fields_get(fs, fs[0].0@) == Some(fs[0].1),
        crate::json::fields_get(fs, fs[1].0@) == Some(fs[1].1),
        crate::json::fields_get(fs, fs[2].0@) == Some(fs[2].1),
        crate::json::fields_get(fs, fs[3].0@) == Some(fs[3].1),
        crate::json::fields_get(fs, fs[4].0@) == Some(fs[4].1),
        crate::json::fields_get(fs, fs[5].0@) == Some(fs[5].1),
        crate::json::fields_get(fs, fs[6].0@) == Some(fs[6].1),
{
    assert(crate::json::fields_get(fs, fs[0].0@) == Some(fs[0].1));
    assert(fs.drop_first()[0] == fs[1]);
    assert(crate::json::fields_get(fs, fs[1].0@) == crate::json::fields_get(fs.drop_first(), fs[1].0@));
    assert(fs.drop_first()[0] == fs[1]);
    assert(crate::json::fields_get(fs.drop_first(), fs[1].0@) == Some(fs[1].1));
    assert(fs.drop_first()[0] == fs[1]);
    assert(crate::json::fields_get(fs, fs[2].0@) == crate::json::fields_get(fs.drop_first(), fs[2].0@));
    assert(fs.drop_first().drop_first()[0] == fs[2]);
    assert(crate::json::fields_get(fs.drop_first(), fs[2].0@) == crate::json::fields_get(fs.drop_first().drop_first(), fs[2].0@));
    assert(fs.drop_first().drop_first()[0] == fs[2]);
    assert(crate::json::fields_get(fs.drop_first().drop_first(), fs[2].0@) == Some(fs[2].1));
    assert(fs.drop_first()[0] == fs[1]);
    assert(crate::json::fields_get(fs, fs[3].0@) == crate::json::fields_get(fs.drop_first(), fs[3].0@));
    assert(fs.drop_first().drop_first()[0] == fs[2]);
    assert(crate::json::fields_get(fs.drop_first(), fs[3].0@) == crate::json::fields_get(fs.drop_first().drop_first(), fs[3].0@));
    assert(fs.drop_first().drop_first().drop_first()[0] == fs[3]);
    assert(crate::json::fields_get(fs.drop_first().drop_first(), fs[3].0@) == crate::json::fields_get(fs.drop_first().drop_first().drop_first(), fs[3].0@));
    assert(fs.drop_first().drop_first().drop_first()[0] == fs[3]);
    assert(crate::json::fields_get(fs.drop_first().drop_first().drop_first(), fs[3].0@) == Some(fs[3].1));
    assert(fs.drop_first()[0] == fs[1]);
    assert(crate::json::fields_get(fs, fs[4].0@) == crate::json::fields_get(fs.drop_first(), fs[4].0@));
    assert(fs.drop_first().drop_first()[0] == fs[2]);
    assert(crate::json::fields_get(fs.drop_first(), fs[4].0@) == crate::json::fields_get(fs.drop_first().drop_first(), fs[4].0@));
    assert(fs.drop_first().drop_first().drop_first()[0] == fs[3]);
    assert(crate::json::fields_get(fs.drop_first().drop_first(), fs[4].0@) == crate::json::fields_get(fs.drop_first().drop_first().drop_first(), fs[4].0@));
    assert(fs.drop_first().drop_first().drop_first().drop_first()[0] == fs[4]);
    assert(crate::json::fields_get(fs.drop_first().drop_first().drop_first(), fs[4].0@) == crate::json::fields_get(fs.drop_first().drop_first().drop_first().drop_first(), fs[4].0@));
    assert(fs.drop_first().drop_first().drop_first().drop_first()[0] == fs[4]);
    assert(crate::json::fields_get(fs.drop_first().drop_first().drop_first().drop_first(), fs[4].0@) == Some(fs[4].1));
    assert(fs.drop_first()[0] == fs[1]);
    assert(crate::json::fields_get(fs, fs[5].0@) == crate::json::fields_get(fs.drop_first(), fs[5].0@));
    assert(fs.drop_first().drop_first()[0] == fs[2]);
    assert(crate::json::fields_get(fs.drop_first(), fs[5].0@) == crate::json::fields_get(fs.drop_first().drop_first(), fs[5].0@));
    assert(fs.drop_first().drop_first().drop_first()[0] == fs[3]);
    assert(crate::json::fields_get(fs.drop_first().drop_first(), fs[5].0@) == crate::json::fields_get(fs.drop_first().drop_first().drop_first(), fs[5].0@));
    assert(fs.drop_first().drop_first().drop_first().drop_first()[0] == fs[4]);
    assert(crate::json::fields_get(fs.drop_first().drop_first().drop_first(), fs[5].0@) == crate::json::fields_get(fs.drop_first().drop_first().drop_first().drop_first(), fs[5].0@));
    assert(fs.drop_first().drop_first().drop_first().drop_first().drop_first()[0] == fs[5]);
    assert(crate::json::fields_get(fs.drop_first().drop_first().drop_first().drop_first(), fs[5].0@) == crate::json::fields_get(fs.drop_first().drop_first().drop_first().drop_first().drop_first(), fs[5].0@));
    assert(fs.drop_first().drop_first().drop_first().drop_first().drop_first()[0] == fs[5]);
    assert(crate::json::fields_get(fs.drop_first().drop_first().drop_first().drop_first().drop_first(), fs[5].0@) == Some(fs[5].1));
    assert(fs.drop_first()[0] == fs[1]);
    assert(crate::json::fields_get(fs, fs[6].0@) == crate::json::fields_get(fs.drop_first(), fs[6].0@));
    assert(fs.drop_first().drop_first()[0] == fs[2]);
    assert(crate::json::fields_get(fs.drop_first(), fs[6].0@) == crate::json::fields_get(fs.drop_first().drop_first(), fs[6].0@));
    assert(fs.drop_first().drop_first().drop_first()[0] == fs[3]);
    assert(crate::json::fields_get(fs.drop_first().drop_first(), fs[6].0@) == crate::json::fields_get(fs.drop_first().drop_first().drop_first(), fs[6].0@));
    assert(fs.drop_first().drop_first().drop_first().drop_first()[0] == fs[4]);
    assert(crate::json::fields_get(fs.drop_first().drop_first().drop_first(), fs[6].0@) == crate::json::fields_get(fs.drop_first().drop_first().drop_first().drop_first(), fs[6].0@));
    assert(fs.drop_first().drop_first().drop_first().drop_first().drop_first()[0] == fs[5]);
    assert(crate::json::fields_get(fs.drop_first().drop_first().drop_first().drop_first(), fs[6].0@) == crate::json::fields_get(fs.drop_first().drop_first().drop_first().drop_first().drop_first(), fs[6].0@));
    assert(fs.drop_first().drop_first().drop_first().drop_first().drop_first().drop_first()[0] == fs[6]);
    assert(crate::json::fields_get(fs.drop_first().drop_first().drop_first().drop_first().drop_first(), fs[6].0@) == crate::json::fields_get(fs.drop_first().drop_first().drop_first().drop_first().drop_first().drop_first(), fs[6].0@));
    assert(fs.drop_first().drop_first().drop_first().drop_first().drop_first().drop_first()[0] == fs[6]);
    assert(crate::json::fields_get(fs.drop_first().drop_first().drop_first().drop_first().drop_first().drop_first(), fs[6].0@) == Some(fs[6].1));
}

/// Every key of a 8-entry object with distinct keys answers its entry.
proof fn lemma_fields8(fs: Seq<(String, JsonVal)>)
    requires
        fs.len() == 8,
        fs[0].0@ != fs[1].0@,
        fs[0].0@ != fs[2].0@,
        fs[0].0@ != fs[3].0@,
        fs[0].0@ != fs[4].0@,
        fs[0].0@ != fs[5].0@,
        fs[0].0@ != fs[6].0@,
        fs[0].0@ != fs[7].0@,
        fs[1].0@ != fs[2].0@,
        fs[1].0@ != fs[3].0@,
        fs[1].0@ != fs[4].0@,
        fs[1].0@ != fs[5].0@,
        fs[1].0@ != fs[6].0@,
        fs[1].0@ != fs[7].0@,
        fs[2].0@ != fs[3].0@,
        fs[2].0@ != fs[4].0@,
        fs[2].0@ != fs[5].0@,
        fs[2].0@ != fs[6].0@,
        fs[2].0@ != fs[7].0@,
        fs[3].0@ != fs[4].0@,
        fs[3].0@ != fs[5].0@,
        fs[3].0@ != fs[6].0@,
        fs[3].0@ != fs[7].0@,
        fs[4].0@ != fs[5].0@,
        fs[4].0@ != fs[6].0@,
        fs[4].0@ != fs[7].0@,
        fs[5].0@ != fs[6].0@,
        fs[5].0@ != fs[7].0@,
        fs[6].0@ != fs[7].0@,
    ensures
        crate::json::fields_get(fs, fs[0].0@) == Some(fs[0].1),
        crate::json::fields_get(fs, fs[1].0@) == Some(fs[1].1),
        crate::json::fields_get(fs, fs[2].0@) == Some(fs[2].1),
        crate::json::fields_get(fs, fs[3].0@) == Some(fs[3].1),
        crate::json::fields_get(fs, fs[4].0@) == Some(fs[4].1),
        crate::json::fields_get(fs, fs[5].0@) == Some(fs[5].1),
        crate::json::fields_get(fs, fs[6].0@) == Some(fs[6].1),
        crate::json::fields_get(fs, fs[7].0@) == Some(fs[7].1),
{
    assert(crate::json::fields_get(fs, fs[0].0@) == Some(fs[0].1));
    assert(fs.drop_first()[0] == fs[1]);
    assert(crate::json::fields_get(fs, fs[1].0@) == crate::json::fields_get(fs.drop_first(), fs[1].0@));
    assert(fs.drop_first()[0] == fs[1]);
    assert(crate::json::fields_get(fs.drop_first(), fs[1].0@) == Some(fs[1].1));
    assert(fs.drop_first()[0] == fs[1]);
    assert(crate::json::fields_get(fs, fs[2].0@) == crate::json::fields_get(fs.drop_first(), fs[2].0@));
    assert(fs.drop_first().drop_first()[0] == fs[2]);
    assert(crate::json::fields_get(fs.drop_first(), fs[2].0@) == crate::json::fields_get(fs.drop_first().drop_first(), fs[2].0@));
    assert(fs.drop_first().drop_first()[0] == fs[2]);
    assert(crate::json::fields_get(fs.drop_first().drop_first(), fs[2].0@) == Some(fs[2].1));
    assert(fs.drop_first()[0] == fs[1]);
    assert(crate::json::fields_get(fs, fs[3].0@) == crate::json::fields_get(fs.drop_first(), fs[3].0@));
    assert(fs.drop_first().drop_first()[0] == fs[2]);
    assert(crate::json::fields_get(fs.drop_first(), fs[3].0@) == crate::json::fields_get(fs.drop_first().drop_first(), fs[3].0@));
    assert(fs.drop_first().drop_first().drop_first()[0] == fs[3]);
    assert(crate::json::fields_get(fs.drop_first().drop_first(), fs[3].0@) == crate::json::fields_get(fs.drop_first().drop_first().drop_first(), fs[3].0@));
    assert(fs.drop_first().drop_first().drop_first()[0] == fs[3]);
    assert(crate::json::fields_get(fs.drop_first().drop_first().drop_first(), fs[3].0@) == Some(fs[3].1));
    assert(fs.drop_first()[0] == fs[1]);
    assert(crate::json::fields_get(fs, fs[4].0@) == crate::json::fields_get(fs.drop_first(), fs[4].0@));
    assert(fs.drop_first().drop_first()[0] == fs[2]);
    assert(crate::json::fields_get(fs.drop_first(), fs[4].0@) == crate::json::fields_get(fs.drop_first().drop_first(), fs[4].0@));
    assert(fs.drop_first().drop_first().drop_first()[0] == fs[3]);
    assert(crate::json::fields_get(fs.drop_first().drop_first(), fs[4].0@) == crate::json::fields_get(fs.drop_first().drop_first().drop_first(), fs[4].0@));
    assert(fs.drop_first().drop_first().drop_first().drop_first()[0] == fs[4]);
    assert(crate::json::fields_get(fs.drop_first().drop_first().drop_first(), fs[4].0@) == crate::json::fields_get(fs.drop_first().drop_first().drop_first().drop_first(), fs[4].0@));
    assert(fs.drop_first().drop_first().drop_first().drop_first()[0] == fs[4]);
    assert(crate::json::fields_get(fs.drop_first().drop_first().drop_first().drop_first(), fs[4].0@) == Some(fs[4].1));
    assert(fs.drop_first()[0] == fs[1]);
    assert(crate::json::fields_get(fs, fs[5].0@) == crate::json::fields_get(fs.drop_first(), fs[5].0@));
    assert(fs.drop_first().drop_first()[0] == fs[2]);
    assert(crate::json::fields_get(fs.drop_first(), fs[5].0@) == crate::json::fields_get(fs.drop_first().drop_first(), fs[5].0@));
    assert(fs.drop_first().drop_first().drop_first()[0] == fs[3]);
    assert(crate::json::fields_get(fs.drop_first().drop_first(), fs[5].0@) == crate::json::fields_get(fs.drop_first().drop_first().drop_first(), fs[5].0@));
    assert(fs.drop_first().drop_first().drop_first().drop_first()[0] == fs[4]);
    assert(crate::json::fields_get(fs.drop_first().drop_first().drop_first(), fs[5].0@) == crate::json::fields_get(fs.drop_first().drop_first().drop_first().drop_first(), fs[5].0@));
    assert(fs.drop_first().drop_first().drop_first().drop_first().drop_first()[0] == fs[5]);
    assert(crate::json::fields_get(fs.drop_first().drop_first().drop_first().drop_first(), fs[5].0@) == crate::json::fields_get(fs.drop_first().drop_first().drop_first().drop_first().drop_first(), fs[5].0@));
    assert(fs.drop_first().drop_first().drop_first().drop_first().drop_first()[0] == fs[5]);
    assert(crate::json::fields_get(fs.drop_first().drop_first().drop_first().drop_first().drop_first(), fs[5].0@) == Some(fs[5].1));
    assert(fs.drop_first()[0] == fs[1]);
    assert(crate::json::fields_get(fs, fs[6].0@) == crate::json::fields_get(fs.drop_first(), fs[6].0@));
    assert(fs.drop_first().drop_first()[0] == fs[2]);
    assert(crate::json::fields_get(fs.drop_first(), fs[6].0@) == crate::json::fields_get(fs.drop_first().drop_first(), fs[6].0@));
    assert(fs.drop_first().drop_first().drop_first()[0] == fs[3]);
    assert(crate::json::fields_get(fs.drop_first().drop_first(), fs[6].0@) == crate::json::fields_get(fs.drop_first().drop_first().drop_first(), fs[6].0@));
    assert(fs.drop_first().drop_first().drop_first().drop_first()[0] == fs[4]);
    assert(crate::json::fields_get(fs.drop_first().drop_first().drop_first(), fs[6].0@) == crate::json::fields_get(fs.drop_first().drop_first().drop_first().drop_first(), fs[6].0@));
    assert(fs.drop_first().drop_first().drop_first().drop_first().drop_first()[0] == fs[5]);
    assert(crate::json::fields_get(fs.drop_first().drop_first().drop_first().drop_first(), fs[6].0@) == crate::json::fields_get(fs.drop_first().drop_first().drop_first().drop_first().drop_first(), fs[6].0@));
    assert(fs.drop_first().drop_first().drop_first().drop_first().drop_first().drop_first()[0] == fs[6]);
    assert(crate::json::fields_get(fs.drop_first().drop_first().drop_first().drop_first().drop_first(), fs[6].0@) == crate::json::fields_get(fs.drop_first().drop_first().drop_first().drop_first().drop_first().drop_first(), fs[6].0@));
    assert(fs.drop_first().drop_first().drop_first().drop_first().drop_first().drop_first()[0] == fs[6]);
    assert(crate::json::fields_get(fs.drop_first().drop_first().drop_first().drop_first().drop_first().drop_first(), fs[6].0@) == Some(fs[6].1));
    assert(fs.drop_first()[0] == fs[1]);
    assert(crate::json::fields_get(fs, fs[7].0@) == crate::json::fields_get(fs.drop_first(), fs[7].0@));
    assert(fs.drop_first().drop_first()[0] == fs[2]);
    assert(crate::json::fields_get(fs.drop_first(), fs[7].0@) == crate::json::fields_get(fs.drop_first().drop_first(), fs[7].0@));
    assert(fs.drop_first().drop_first().drop_first()[0] == fs[3]);
    assert(crate::json::fields_get(fs.drop_first().drop_first(), fs[7].0@) == crate::json::fields_get(fs.drop_first().drop_first().drop_first(), fs[7].0@));
    assert(fs.drop_first().drop_first().drop_first().drop_first()[0] == fs[4]);
    assert(crate::json::fields_get(fs.drop_first().drop_first().drop_first(), fs[7].0@) == crate::json::fields_get(fs.drop_first().drop_first().drop_first().drop_first(), fs[7].0@));
    assert(fs.drop_first().drop_first().drop_first().drop_first().drop_first()[0] == fs[5]);
    assert(crate::json::fields_get(fs.drop_first().drop_first().drop_first().drop_first(), fs[7].0@) == crate::json::fields_get(fs.drop_first().drop_first().drop_first().drop_first().drop_first(), fs[7].0@));
    assert(fs.drop_first().drop_first().drop_first().drop_first().drop_first().drop_first()[0] == fs[6]);
    assert(crate::json::fields_get(fs.drop_first().drop_first().drop_first().drop_first().drop_first(), fs[7].0@) == crate::json::fields_get(fs.drop_first().drop_first().drop_first().drop_first().drop_first().drop_first(), fs[7].0@));
    assert(fs.drop_first().drop_first().drop_first().drop_first().drop_first().drop_first().drop_first()[0] == fs[7]);
    assert(crate::json::fields_get(fs.drop_first().drop_first().drop_first().drop_first().drop_first().drop_first(), fs[7].0@) == crate::json::fields_get(fs.drop_first().drop_first().drop_first().drop_first().drop_first().drop_first().drop_first(), fs[7].0@));
    assert(fs.drop_first().drop_first().drop_first().drop_first().drop_first().drop_first().drop_first()[0] == fs[7]);
    assert(crate::json::fields_get(fs.drop_first().drop_first().drop_first().drop_first().drop_first().drop_first().drop_first(), fs[7].0@) == Some(fs[7].1));
}

/// A key different from all 2 of an object's keys answers nothing.
proof fn lemma_absent2(fs: Seq<(String, JsonVal)>, k: Seq<char>)
    requires
        fs.len() == 2,
        fs[0].0@ != k,
        fs[1].0@ != k,
    ensures
        crate::json::fields_get(fs, k) is None,
{
    assert(crate::json::fields_get(fs, k) == crate::json::fields_get(fs.drop_first(), k));
    assert(fs.drop_first()[0] == fs[1]);
    assert(crate::json::fields_get(fs.drop_first(), k) == crate::json::fields_get(fs.drop_first().drop_first(), k));
    assert(fs.drop_first().drop_first().len() == 0);
}

/// A key different from all 3 of an object's keys answers nothing.
proof fn lemma_absent3(fs: Seq<(String, JsonVal)>, k: Seq<char>)
    requires
        fs.len() == 3,
        fs[0].0@ != k,
        fs[1].0@ != k,
        fs[2].0@ != k,
    ensures
        crate::json::fields_get(fs, k) is None,
{
    assert(crate::json::fields_get(fs, k) == crate::json::fields_get(fs.drop_first(), k));
    assert(fs.drop_first()[0] == fs[1]);
    assert(crate::json::fields_get(fs.drop_first(), k) == crate::json::fields_get(fs.drop_first().drop_first(), k));
    assert(fs.drop_first().drop_first()[0] == fs[2]);
    assert(crate::json::fields_get(fs.drop_first().drop_first(), k) == crate::json::fields_get(fs.drop_first().drop_first().drop_first(), k));
    assert(fs.drop_first().drop_first().drop_first().len() == 0);
}

/// A key different from all 4 of an object's keys answers nothing.
proof fn lemma_absent4(fs: Seq<(String, JsonVal)>, k: Seq<char>)
    requires
        fs.len() == 4,
        fs[0].0@ != k,
        fs[1].0@ != k,
        fs[2].0@ != k,
        fs[3].0@ != k,
    ensures
        crate::json::fields_get(fs, k) is None,
{
    assert(crate::json::fields_get(fs, k) == crate::json::fields_get(fs.drop_first(), k));
    assert(fs.drop_first()[0] == fs[1]);
    assert(crate::json::fields_get(fs.drop_first(), k) == crate::json::fields_get(fs.drop_first().drop_first(), k));
    assert(fs.drop_first().drop_first()[0] == fs[2]);
    assert(crate::json::fields_get(fs.drop_first().drop_first(), k) == crate::json::fields_get(fs.drop_first().drop_first().drop_first(), k));
    assert(fs.drop_first().drop_first().drop_first()[0] == fs[3]);
    assert(crate::json::fields_get(fs.drop_first().drop_first().drop_first(), k) == crate::json::fields_get(fs.drop_first().drop_first().drop_first().drop_first(), k));
    assert(fs.drop_first().drop_first().drop_first().drop_first().len() == 0);
}

/// A key different from all 5 of an object's keys answers nothing.
proof fn lemma_absent5(fs: Seq<(String, JsonVal)>, k: Seq<char>)
    requires
        fs.len() == 5,
        fs[0].0@ != k,
        fs[1].0@ != k,
        fs[2].0@ != k,
        fs[3].0@ != k,
        fs[4].0@ != k,
    ensures
        crate::json::fields_get(fs, k) is None,
{
    assert(crate::json::fields_get(fs, k) == crate::json::fields_get(fs.drop_first(), k));
    assert(fs.drop_first()[0] == fs[1]);
    assert(crate::json::fields_get(fs.drop_first(), k) == crate::json::fields_get(fs.drop_first().drop_first(), k));
    assert(fs.drop_first().drop_first()[0] == fs[2]);
    assert(crate::json::fields_get(fs.drop_first().drop_first(), k) == crate::json::fields_get(fs.drop_first().drop_first().drop_first(), k));
    assert(fs.drop_first().drop_first().drop_first()[0] == fs[3]);
    assert(crate::json::fields_get(fs.drop_first().drop_first().drop_first(), k) == crate::json::fields_get(fs.drop_first().drop_first().drop_first().drop_first(), k));
    assert(fs.drop_first().drop_first().drop_first().drop_first()[0] == fs[4]);
    assert(crate::json::fields_get(fs.drop_first().drop_first().drop_first().drop_first(), k) == crate::json::fields_get(fs.drop_first().drop_first().drop_first().drop_first().drop_first(), k));
    assert(fs.drop_first().drop_first().drop_first().drop_first().drop_first().len() == 0);
}

/// A key different from all 6 of an object's keys answers nothing.
proof fn lemma_absent6(fs: Seq<(String, JsonVal)>, k: Seq<char>)
    requires
        fs.len() == 6,
        fs[0].0@ != k,
        fs[1].0@ != k,
        fs[2].0@ != k,
        fs[3].0@ != k,
        fs[4].0@ != k,
        fs[5].0@ != k,
    ensures
        crate::json::fields_get(fs, k) is None,
{
    assert(crate::json::fields_get(fs, k) == crate::json::fields_get(fs.drop_first(), k));
    assert(fs.drop_first()[0] == fs[1]);
    assert(crate::json::fields_get(fs.drop_first(), k) == crate::json::fields_get(fs.drop_first().drop_first(), k));
    assert(fs.drop_first().drop_first()[0] == fs[2]);
    assert(crate::json::fields_get(fs.drop_first().drop_first(), k) == crate::json::fields_get(fs.drop_first().drop_first().drop_first(), k));
    assert(fs.drop_first().drop_first().drop_first()[0] == fs[3]);
    assert(crate::json::fields_get(fs.drop_first().drop_first().drop_first(), k) == crate::json::fields_get(fs.drop_first().drop_first().drop_first().drop_first(), k));
    assert(fs.drop_first().drop_first().drop_first().drop_first()[0] == fs[4]);
    assert(crate::json::fields_get(fs.drop_first().drop_first().drop_first().drop_first(), k) == crate::json::fields_get(fs.drop_first().drop_first().drop_first().drop_first().drop_first(), k));
    assert(fs.drop_first().drop_first().drop_first().drop_first().drop_first()[0] == fs[5]);
    assert(crate::json::fields_get(fs.drop_first().drop_first().drop_first().drop_first().drop_first(), k) == crate::json::fields_get(fs.drop_first().drop_first().drop_first().drop_first().drop_first().drop_first(), k));
    assert(fs.drop_first().drop_first().drop_first().drop_first().drop_first().drop_first().len() == 0);
}

/// A key different from all 7 of an object's keys answers nothing.
proof fn lemma_absent7(fs: Seq<(String, JsonVal)>, k: Seq<char>)
    requires
        fs.len() == 7,
        fs[0].0@ != k,
        fs[1].0@ != k,
        fs[2].0@ != k,
        fs[3].0@ != k,
        fs[4].0@ != k,
        fs[5].0@ != k,
        fs[6].0@ != k,
    ensures
        crate::json::fields_get(fs, k) is None,
{
    assert(crate::json::fields_get(fs, k) == crate::json::fields_get(fs.drop_first(), k));
    assert(fs.drop_first()[0] == fs[1]);
    assert(crate::json::fields_get(fs.drop_first(), k) == crate::json::fields_get(fs.drop_first().drop_first(), k));
    assert(fs.drop_first().drop_first()[0] == fs[2]);
    assert(crate::json::fields_get(fs.drop_first().drop_first(), k) == crate::json::fields_get(fs.drop_first().drop_first().drop_first(), k));
    assert(fs.drop_first().drop_first().drop_first()[0] == fs[3]);
    assert(crate::json::fields_get(fs.drop_first().drop_first().drop_first(), k) == crate::json::fields_get(fs.drop_first().drop_first().drop_first().drop_first(), k));
    assert(fs.drop_first().drop_first().drop_first().drop_first()[0] == fs[4]);
    assert(crate::json::fields_get(fs.drop_first().drop_first().drop_first().drop_first(), k) == crate::json::fields_get(fs.drop_first().drop_first().drop_first().drop_first().drop_first(), k));
    assert(fs.drop_first().drop_first().drop_first().drop_first().drop_first()[0] == fs[5]);
    assert(crate::json::fields_get(fs.drop_first().drop_first().drop_first().drop_first().drop_first(), k) == crate::json::fields_get(fs.drop_first().drop_first().drop_first().drop_first().drop_first().drop_first(), k));
    assert(fs.drop_first().drop_first().drop_first().drop_first().drop_first().drop_first()[0] == fs[6]);
    assert(crate::json::fields_get(fs.drop_first().drop_first().drop_first().drop_first().drop_first().drop_first(), k) == crate::json::fields_get(fs.drop_first().drop_first().drop_first().drop_first().drop_first().drop_first().drop_first(), k));
    assert(fs.drop_first().drop_first().drop_first().drop_first().drop_first().drop_first().drop_first().len() == 0);
}





/// The wire tree of one event: its kind under `event`, and every plain
/// field under the camel-case names of the wire protocol, per
/// `event_plain_fields_match`; the free-form payload texts are embedded as
/// their parsed trees.
#[verifier::loop_isolation(false)]
pub fn event_to_json_val(e: &DeviceEvent) -> (r: JsonVal)
    ensures
        r is Obj,
        (json_get(r, "event"@) matches Some(JsonVal::Str(t)) && t@ == spec_event_tag(*e)),
        event_plain_fields_match(*e, r),
{
    proof {
        reveal_strlit("event");
        reveal_strlit("command");
        reveal_strlit("parameters");
        reveal_strlit("status");
        reveal_strlit("ipAddress");
        reveal_strlit("firmwareVersion");
        reveal_strlit("config");
        reveal_strlit("sensor");
        reveal_strlit("value");
        reveal_strlit("timestamp");
        reveal_strlit("userId");
        reveal_strlit("displayName");
        reveal_strlit("userColor");
        reveal_strlit("deviceId");
        reveal_strlit("variableName");
        reveal_strlit("variableValue");
        reveal_strlit("min");
        reveal_strlit("max");
        reveal_strlit("options");
        reveal_strlit("variables");
        reveal_strlit("message");
        reveal_strlit("fromIp");
        reveal_strlit("fromPort");
        reveal_strlit("connected");
        reveal_strlit("deviceIp");
        reveal_strlit("tcpPort");
        reveal_strlit("udpPort");
        reveal_strlit("deviceName");
        reveal_strlit("uptime");
        reveal_strlit("discoveredAt");
        reveal_strlit("macAddress");
        reveal_strlit("mdnsHostname");
        reveal_strlit("name");
        reveal_strlit("deviceCommand");
        reveal_strlit("deviceStatusUpdate");
        reveal_strlit("deviceConfigUpdate");
        reveal_strlit("deviceSensorData");
        reveal_strlit("userJoined");
        reveal_strlit("userLeft");
        reveal_strlit("esp32Command");
        reveal_strlit("esp32VariableUpdate");
        reveal_strlit("esp32StartOptions");
        reveal_strlit("esp32ChangeableVariables");
        reveal_strlit("esp32UdpBroadcast");
        reveal_strlit("esp32ConnectionStatus");
        reveal_strlit("esp32DeviceInfo");
        reveal_strlit("esp32DeviceDiscovered");
        assert("event"@.len() == 5);
        assert("command"@.len() == 7);
        assert("parameters"@.len() == 10);
        assert("status"@.len() == 6);
        assert("ipAddress"@.len() == 9);
        assert("firmwareVersion"@.len() == 15);
        assert("config"@.len() == 6);
        assert("sensor"@.len() == 6);
        assert("value"@.len() == 5);
        assert("timestamp"@.len() == 9);
        assert("userId"@.len() == 6);
        assert("displayName"@.len() == 11);
        assert("userColor"@.len() == 9);
        assert("deviceId"@.len() == 8);
        assert("variableName"@.len() == 12);
        assert("variableValue"@.len() == 13);
        assert("min"@.len() == 3);
        assert("max"@.len() == 3);
        assert("options"@.len() == 7);
        assert("variables"@.len() == 9);
        assert("message"@.len() == 7);
        assert("fromIp"@.len() == 6);
        assert("fromPort"@.len() == 8);
        assert("connected"@.len() == 9);
        assert("deviceIp"@.len() == 8);
        assert("tcpPort"@.len() == 7);
        assert("udpPort"@.len() == 7);
        assert("deviceName"@.len() == 10);
        assert("uptime"@.len() == 6);
        assert("discoveredAt"@.len() == 12);
        assert("macAddress"@.len() == 10);
        assert("mdnsHostname"@.len() == 12);
        assert("name"@.len() == 4);
        // The only same-length key pairs that share an object, told apart
        // by one character each.
        assert("deviceId"@ != "deviceIp"@) by {
            assert("deviceId"@[7] == 'd');
            assert("deviceIp"@[7] == 'p');
        }
        assert("tcpPort"@ != "udpPort"@) by {
            assert("tcpPort"@[0] == 't');
            assert("udpPort"@[0] == 'u');
        }
        assert("deviceId"@ != "fromPort"@) by {
            assert("deviceId"@[0] == 'd');
            assert("fromPort"@[0] == 'f');
        }
        assert("discoveredAt"@ != "mdnsHostname"@) by {
            assert("discoveredAt"@[0] == 'd');
            assert("mdnsHostname"@[0] == 'm');
        }
        assert("min"@ != "max"@) by {
            assert("min"@[1] == 'i');
            assert("max"@[1] == 'a');
        }
        assert("event"@ != "value"@) by {
            assert("event"@[0] == 'e');
            assert("value"@[0] == 'v');
        }
    }
    match e {
        DeviceEvent::DeviceCommand { command, parameters } => {
            let mut fields: Vec<(String, JsonVal)> = Vec::new();
            fields.push(("event".to_owned(), JsonVal::Str("deviceCommand".to_owned())));
            fields.push(("command".to_owned(), JsonVal::Str(command.clone())));
            match parameters {
                Some(p) => {
                    let tree = match crate::json::parse_json(p.as_str()) {
                        Some(t) => t,
                        None => JsonVal::Str(p.clone()),
                    };
                    fields.push(("parameters".to_owned(), tree));
                }
                None => {}
            }
            proof {
                match parameters {
                    Some(_) => lemma_fields3(fields@),
                    None => {
                        lemma_fields2(fields@);
                        lemma_absent2(fields@, "parameters"@);
                    }
                }
            }
            JsonVal::Obj(fields)
        }
        DeviceEvent::DeviceStatusUpdate { status, ip_address, firmware_version } => {
            let mut fields: Vec<(String, JsonVal)> = Vec::new();
            fields.push(("event".to_owned(), JsonVal::Str("deviceStatusUpdate".to_owned())));
            fields.push(("status".to_owned(), JsonVal::Str(status.clone())));
            match ip_address {
                Some(ip) => {
                    fields.push(("ipAddress".to_owned(), JsonVal::Str(ip.clone())));
                }
                None => {}
            }
            match firmware_version {
                Some(f) => {
                    fields.push(("firmwareVersion".to_owned(), JsonVal::Str(f.clone())));
                }
                None => {}
            }
            proof {
                match (ip_address, firmware_version) {
                    (Some(_), Some(_)) => lemma_fields4(fields@),
                    (Some(_), None) => {
                        lemma_fields3(fields@);
                        lemma_absent3(fields@, "firmwareVersion"@);
                    },
                    (None, Some(_)) => {
                        lemma_fields3(fields@);
                        lemma_absent3(fields@, "ipAddress"@);
                    },
                    (None, None) => {
                        lemma_fields2(fields@);
                        lemma_absent2(fields@, "ipAddress"@);
                        lemma_absent2(fields@, "firmwareVersion"@);
                    },
                }
            }
            JsonVal::Obj(fields)
        }
        DeviceEvent::DeviceConfigUpdate { config } => {
            let mut fields: Vec<(String, JsonVal)> = Vec::new();
            fields.push(("event".to_owned(), JsonVal::Str("deviceConfigUpdate".to_owned())));
            let tree = match crate::json::parse_json(config.as_str()) {
                Some(t) => t,
                None => JsonVal::Str(config.clone()),
            };
            fields.push(("config".to_owned(), tree));
            proof {
                lemma_fields2(fields@);
            }
            JsonVal::Obj(fields)
        }
        DeviceEvent::DeviceSensorData { sensor, value, timestamp } => {
            let mut fields: Vec<(String, JsonVal)> = Vec::new();
            fields.push(("event".to_owned(), JsonVal::Str("deviceSensorData".to_owned())));
            fields.push(("sensor".to_owned(), JsonVal::Str(sensor.clone())));
            let tree = match crate::json::parse_json(value.as_str()) {
                Some(t) => t,
                None => JsonVal::Str(value.clone()),
            };
            fields.push(("value".to_owned(), tree));
            fields.push(("timestamp".to_owned(), JsonVal::Int(*timestamp)));
            proof {
                lemma_fields4(fields@);
            }
            JsonVal::Obj(fields)
        }
        DeviceEvent::UserJoined { user_id, display_name, user_color } => {
            let mut fields: Vec<(String, JsonVal)> = Vec::new();
            fields.push(("event".to_owned(), JsonVal::Str("userJoined".to_owned())));
            fields.push(("userId".to_owned(), JsonVal::Str(user_id.clone())));
            fields.push(("displayName".to_owned(), JsonVal::Str(display_name.clone())));
            fields.push(("userColor".to_owned(), JsonVal::Str(user_color.clone())));
            proof {
                lemma_fields4(fields@);
            }
            JsonVal::Obj(fields)
        }
        DeviceEvent::UserLeft { user_id, display_name, user_color } => {
            let mut fields: Vec<(String, JsonVal)> = Vec::new();
            fields.push(("event".to_owned(), JsonVal::Str("userLeft".to_owned())));
            fields.push(("userId".to_owned(), JsonVal::Str(user_id.clone())));
            fields.push(("displayName".to_owned(), JsonVal::Str(display_name.clone())));
            fields.push(("userColor".to_owned(), JsonVal::Str(user_color.clone())));
            proof {
                lemma_fields4(fields@);
            }
            JsonVal::Obj(fields)
        }
        DeviceEvent::Esp32Command { device_id, command } => {
            let mut fields: Vec<(String, JsonVal)> = Vec::new();
            fields.push(("event".to_owned(), JsonVal::Str("esp32Command".to_owned())));
            fields.push(("deviceId".to_owned(), JsonVal::Str(device_id.clone())));
            let tree = match crate::json::parse_json(command.as_str()) {
                Some(t) => t,
                None => JsonVal::Str(command.clone()),
            };
            fields.push(("command".to_owned(), tree));
            proof {
                lemma_fields3(fields@);
            }
            JsonVal::Obj(fields)
        }
        DeviceEvent::Esp32VariableUpdate { device_id, variable_name, variable_value, min, max } => {
            let mut fields: Vec<(String, JsonVal)> = Vec::new();
            fields.push(("event".to_owned(), JsonVal::Str("esp32VariableUpdate".to_owned())));
            fields.push(("deviceId".to_owned(), JsonVal::Str(device_id.clone())));
            fields.push(("variableName".to_owned(), JsonVal::Str(variable_name.clone())));
            fields.push(("variableValue".to_owned(), JsonVal::Str(variable_value.clone())));
            match min {
                Some(m) => {
                    fields.push(("min".to_owned(), JsonVal::UInt(*m)));
                }
                None => {}
            }
            match max {
                Some(m) => {
                    fields.push(("max".to_owned(), JsonVal::UInt(*m)));
                }
                None => {}
            }
            proof {
                match (min, max) {
                    (Some(_), Some(_)) => lemma_fields6(fields@),
                    (Some(_), None) => {
                        lemma_fields5(fields@);
                        lemma_absent5(fields@, "max"@);
                    },
                    (None, Some(_)) => {
                        lemma_fields5(fields@);
                        lemma_absent5(fields@, "min"@);
                    },
                    (None, None) => {
                        lemma_fields4(fields@);
                        lemma_absent4(fields@, "min"@);
                        lemma_absent4(fields@, "max"@);
                    },
                }
            }
            JsonVal::Obj(fields)
        }
        DeviceEvent::Esp32StartOptions { device_id, options } => {
            let mut fields: Vec<(String, JsonVal)> = Vec::new();
            fields.push(("event".to_owned(), JsonVal::Str("esp32StartOptions".to_owned())));
            fields.push(("deviceId".to_owned(), JsonVal::Str(device_id.clone())));
            let mut arr: Vec<JsonVal> = Vec::new();
            let mut i: usize = 0;
            while i < options.len()
                invariant
                    i <= options@.len(),
                    arr@.len() == i,
                    forall|k: int| 0 <= k < i
                        ==> (#[trigger] arr@[k] matches JsonVal::Str(o)
                            && o@ == options@[k]@),
                decreases options@.len() - i,
            {
                arr.push(JsonVal::Str(options[i].clone()));
                i += 1;
            }
            fields.push(("options".to_owned(), JsonVal::Arr(arr)));
            proof {
                lemma_fields3(fields@);
            }
            JsonVal::Obj(fields)
        }
        DeviceEvent::Esp32ChangeableVariables { device_id, variables } => {
            let mut fields: Vec<(String, JsonVal)> = Vec::new();
            fields.push(("event".to_owned(), JsonVal::Str("esp32ChangeableVariables".to_owned())));
            fields.push(("deviceId".to_owned(), JsonVal::Str(device_id.clone())));
            let mut arr: Vec<JsonVal> = Vec::new();
            let mut i: usize = 0;
            while i < variables.len()
                invariant
                    i <= variables@.len(),
                    arr@.len() == i,
                    forall|k: int| 0 <= k < i
                        ==> changeable_variable_matches(variables@[k], #[trigger] arr@[k]),
                decreases variables@.len() - i,
            {
                let cv = &variables[i];
                let mut vf: Vec<(String, JsonVal)> = Vec::new();
                vf.push(("name".to_owned(), JsonVal::Str(cv.name.clone())));
                vf.push(("value".to_owned(), JsonVal::UInt(cv.value)));
                match cv.min {
                    Some(m) => {
                        vf.push(("min".to_owned(), JsonVal::UInt(m)));
                    }
                    None => {}
                }
                match cv.max {
                    Some(m) => {
                        vf.push(("max".to_owned(), JsonVal::UInt(m)));
                    }
                    None => {}
                }
                proof {
                    match (cv.min, cv.max) {
                        (Some(_), Some(_)) => lemma_fields4(vf@),
                        (Some(_), None) => {
                            lemma_fields3(vf@);
                            lemma_absent3(vf@, "max"@);
                        },
                        (None, Some(_)) => {
                            lemma_fields3(vf@);
                            lemma_absent3(vf@, "min"@);
                        },
                        (None, None) => {
                            lemma_fields2(vf@);
                            lemma_absent2(vf@, "min"@);
                            lemma_absent2(vf@, "max"@);
                        },
                    }
                }
                arr.push(JsonVal::Obj(vf));
                i += 1;
            }
            fields.push(("variables".to_owned(), JsonVal::Arr(arr)));
            proof {
                lemma_fields3(fields@);
            }
            JsonVal::Obj(fields)
        }
        DeviceEvent::Esp32UdpBroadcast { device_id, message, from_ip, from_port } => {
            let mut fields: Vec<(String, JsonVal)> = Vec::new();
            fields.push(("event".to_owned(), JsonVal::Str("esp32UdpBroadcast".to_owned())));
            fields.push(("deviceId".to_owned(), JsonVal::Str(device_id.clone())));
            fields.push(("message".to_owned(), JsonVal::Str(message.clone())));
            fields.push(("fromIp".to_owned(), JsonVal::Str(from_ip.clone())));
            fields.push(("fromPort".to_owned(), JsonVal::UInt(*from_port as u64)));
            proof {
                lemma_fields5(fields@);
            }
            JsonVal::Obj(fields)
        }
        DeviceEvent::Esp32ConnectionStatus { device_id, connected, device_ip, tcp_port, udp_port } => {
            let mut fields: Vec<(String, JsonVal)> = Vec::new();
            fields.push(("event".to_owned(), JsonVal::Str("esp32ConnectionStatus".to_owned())));
            fields.push(("deviceId".to_owned(), JsonVal::Str(device_id.clone())));
            fields.push(("connected".to_owned(), JsonVal::Bool(*connected)));
            fields.push(("deviceIp".to_owned(), JsonVal::Str(device_ip.clone())));
            fields.push(("tcpPort".to_owned(), JsonVal::UInt(*tcp_port as u64)));
            fields.push(("udpPort".to_owned(), JsonVal::UInt(*udp_port as u64)));
            proof {
                lemma_fields6(fields@);
            }
            JsonVal::Obj(fields)
        }
        DeviceEvent::Esp32DeviceInfo { device_id, device_name, firmware_version, uptime } => {
            let mut fields: Vec<(String, JsonVal)> = Vec::new();
            fields.push(("event".to_owned(), JsonVal::Str("esp32DeviceInfo".to_owned())));
            fields.push(("deviceId".to_owned(), JsonVal::Str(device_id.clone())));
            match device_name {
                Some(n) => {
                    fields.push(("deviceName".to_owned(), JsonVal::Str(n.clone())));
                }
                None => {
                    fields.push(("deviceName".to_owned(), JsonVal::Null));
                }
            }
            match firmware_version {
                Some(f) => {
                    fields.push(("firmwareVersion".to_owned(), JsonVal::Str(f.clone())));
                }
                None => {
                    fields.push(("firmwareVersion".to_owned(), JsonVal::Null));
                }
            }
            match uptime {
                Some(u) => {
                    fields.push(("uptime".to_owned(), JsonVal::UInt(*u)));
                }
                None => {
                    fields.push(("uptime".to_owned(), JsonVal::Null));
                }
            }
            proof {
                lemma_fields5(fields@);
            }
            JsonVal::Obj(fields)
        }
        DeviceEvent::Esp32DeviceDiscovered {
            device_id, device_ip, tcp_port, udp_port, discovered_at, mac_address, mdns_hostname,
        } => {
            let mut fields: Vec<(String, JsonVal)> = Vec::new();
            fields.push(("event".to_owned(), JsonVal::Str("esp32DeviceDiscovered".to_owned())));
            fields.push(("deviceId".to_owned(), JsonVal::Str(device_id.clone())));
            fields.push(("deviceIp".to_owned(), JsonVal::Str(device_ip.clone())));
            fields.push(("tcpPort".to_owned(), JsonVal::UInt(*tcp_port as u64)));
            fields.push(("udpPort".to_owned(), JsonVal::UInt(*udp_port as u64)));
            fields.push(("discoveredAt".to_owned(), JsonVal::Str(discovered_at.clone())));
            match mac_address {
                Some(m) => {
                    fields.push(("macAddress".to_owned(), JsonVal::Str(m.clone())));
                }
                None => {}
            }
            match mdns_hostname {
                Some(h) => {
                    fields.push(("mdnsHostname".to_owned(), JsonVal::Str(h.clone())));
                }
                None => {}
            }
            proof {
                match (mac_address, mdns_hostname) {
                    (Some(_), Some(_)) => lemma_fields8(fields@),
                    (Some(_), None) => {
                        lemma_fields7(fields@);
                        lemma_absent7(fields@, "mdnsHostname"@);
                    },
                    (None, Some(_)) => {
                        lemma_fields7(fields@);
                        lemma_absent7(fields@, "macAddress"@);
                    },
                    (None, None) => {
                        lemma_fields6(fields@);
                        lemma_absent6(fields@, "macAddress"@);
                        lemma_absent6(fields@, "mdnsHostname"@);
                    },
                }
            }
            JsonVal::Obj(fields)
        }
    }
}

/// The text of a message to a subscriber: the rendering of its wire tree.
pub fn server_message_text(m: &ServerMessage) -> (r: String)
    ensures
        exists|v: JsonVal| #![trigger crate::json::json_text_of(v)]
            {
                &&& r@ == crate::json::json_text_of(v)
                &&& (m matches ServerMessage::DeviceEvents { device_id, events_for_device }
                    ==> is_device_events_json(v, device_id@, events_for_device@))
                &&& (m matches ServerMessage::Pong { .. }
                    ==> (json_get(v, "type"@) matches Some(JsonVal::Str(t)) && t@ == "pong"@))
            },
{
    let v = m.to_json_val();
    crate::json::render_json(&v)
}

/// What registering for a device instructs the transport layer to do.
pub enum RegisterAction {
    /// A full subscription on a network device: dial it.
    ConnectDevice,
    /// A full subscription on a serial device: write this frame so the
    /// node learns a tab opened.
    UartTabOpened { frame: Vec<u8> },
    /// Nothing beyond the registration itself.
    NoAction,
}

/// Everything a registration yields: the replay snapshot, the presence
/// broadcast and its recipients, the follow-up action, and for a light
/// subscription the status painted to the registering client alone.
pub struct RegisterHandled {
    pub replay: Vec<DeviceEvent>,
    pub emitted: DeviceEvent,
    pub emitted_recipients: Vec<String>,
    pub user_color: String,
    pub is_reconnection: bool,
    pub action: RegisterAction,
    pub initial_status: Option<DeviceEvent>,
}

/// What a subscriber command routes to.
pub enum CommandAction {
    /// Send over the device's TCP session.
    Tcp(crate::types::Esp32Command),
    /// Write this frame on the serial line.
    Uart { frame: Vec<u8> },
}

/// Register a subscriber for a device. The permission rule is applied
/// first, falling back to the identity collaborator's answer; the store
/// registration keeps a returning user's color; a full subscription on a
/// network device asks for a dial, one on a serial device notifies the
/// node; a light subscription paints an initial connection status.
#[verifier::rlimit(60)]
pub fn handle_register_for_device(
    mgr: &mut crate::manager::Esp32Manager,
    device_id: &str,
    user_id: &str,
    display_name: &str,
    client_id: &str,
    subscription_type: SubscriptionType,
    db_granted: bool,
    discovery_config: Option<crate::types::Esp32DeviceConfig>,
) -> (r: Result<RegisterHandled, crate::types::Esp32Error>)
    requires
        old(mgr).wf(),
        device_id@.len() > 0,
        discovery_config matches Some(c) ==> c.device_id@ == device_id@,
    ensures
        final(mgr).wf(),
        ({
            let allowed = match spec_register_allowed(user_id@, device_id@) {
                Some(b) => b,
                None => db_granted,
            };
            &&& (!allowed ==> (r matches Err(e) && e is Unauthorised
                && *final(mgr) == *old(mgr)))
            &&& (allowed ==> r is Ok)
        }),
        match r {
            Ok(h) => {
                let conns0 = crate::store::conns_of(old(mgr).device_store, device_id@);
                let typ = old(mgr).device_connection_types.spec_get(device_id@);
                let network = typ == Some(crate::types::DeviceConnectionType::TcpUdp)
                    || (typ is None
                        && (spec_mac_colon(device_id@) || spec_mac_dash(device_id@)));
                &&& h.is_reconnection == (crate::store::find_user_color(
                    crate::store::without_client(conns0, client_id@), user_id@) is Some)
                &&& (crate::store::find_user_color(
                    crate::store::without_client(conns0, client_id@), user_id@)
                    matches Some(c) ==> h.user_color == c)
                &&& crate::store::conns_of(final(mgr).device_store, device_id@).len()
                    == crate::store::without_client(conns0, client_id@).len() + 1
                &&& crate::events::same_events(
                    h.replay@,
                    crate::store::events_of(old(mgr).device_store, device_id@)
                        .map_values(|m: crate::events::EventWithMetadata| m.event),
                )
                &&& (h.action is ConnectDevice)
                    == (network && subscription_type == SubscriptionType::Full)
                &&& (h.action is UartTabOpened)
                    == (typ == Some(crate::types::DeviceConnectionType::Uart)
                        && subscription_type == SubscriptionType::Full)
                &&& (network ==> final(mgr).device_configs.spec_get(device_id@) is Some)
                &&& (h.initial_status is Some)
                    == (network && subscription_type == SubscriptionType::Light)
                &&& (h.initial_status matches Some(ev) ==> (
                    (ev matches DeviceEvent::Esp32ConnectionStatus {
                        device_id: d2, connected, ..
                    } && d2@ == device_id@
                        && (old(mgr).device_configs.spec_get(device_id@) is None
                            ==> !connected))
                ))
            },
            Err(_) => true,
        },
{
    let allowed = match register_permission(user_id, device_id) {
        Some(b) => b,
        None => db_granted,
    };
    if !allowed {
        return Err(crate::types::Esp32Error::Unauthorised);
    }

    let is_full = match subscription_type {
        SubscriptionType::Full => true,
        SubscriptionType::Light => false,
    };
    let outcome = mgr.device_store.register_client(
        device_id.to_owned(),
        user_id.to_owned(),
        display_name.to_owned(),
        client_id.to_owned(),
        subscription_type,
    );

    // Classify the device to pick the follow-up.
    let device_type = mgr.get_device_connection_type(device_id);
    let is_uart = match device_type {
        Some(crate::types::DeviceConnectionType::Uart) => true,
        _ => false,
    };
    let inferred_tcp = device_type.is_none()
        && (is_mac_address_format(device_id) || is_mac_key_format(device_id));
    let is_tcp = (match device_type {
        Some(crate::types::DeviceConnectionType::TcpUdp) => true,
        _ => false,
    }) || inferred_tcp;
    let mut action = RegisterAction::NoAction;
    let mut initial_status: Option<DeviceEvent> = None;

    if is_tcp && is_full {
        // Make sure the manager knows the device, then ask for a dial.
        if mgr.get_device_config(device_id).is_none() {
            let config = match discovery_config {
                Some(c) => c,
                None => crate::types::Esp32DeviceConfig::new(
                    device_id.to_owned(),
                    "192.168.1.100".to_owned(),
                    3232,
                    3232,
                ),
            };
            let added = mgr.add_device(config);
            match added {
                Ok(()) => {}
                Err(_) => {}
            }
        }
        action = RegisterAction::ConnectDevice;
    } else if is_uart && is_full {
        let frame = crate::uart::frame_tab_opened(device_id);
        action = RegisterAction::UartTabOpened { frame };
    } else if is_tcp {
        // A light subscription: known device paints its current status,
        // an unknown one is added unconnected and painted disconnected.
        if mgr.get_device_config(device_id).is_none() {
            let config = match discovery_config {
                Some(c) => c,
                None => crate::types::Esp32DeviceConfig::new(
                    device_id.to_owned(),
                    "192.168.1.100".to_owned(),
                    3232,
                    3232,
                ),
            };
            let (ip, tcp_port, udp_port) =
                (config.ip_address.clone(), config.tcp_port, config.udp_port);
            let added = mgr.add_device(config);
            match added {
                Ok(()) => {}
                Err(_) => {}
            }
            initial_status = Some(DeviceEvent::Esp32ConnectionStatus {
                device_id: device_id.to_owned(),
                connected: false,
                device_ip: ip,
                tcp_port,
                udp_port,
            });
        } else {
            let coords: Option<(String, u16, u16)> = match mgr.get_device_config(device_id) {
                Some(c) => Some((c.ip_address.clone(), c.tcp_port, c.udp_port)),
                None => None,
            };
            let connected = match mgr.get_device_state(device_id) {
                Some(st) => st.is_connected(),
                None => false,
            };
            match coords {
                Some((ip, tcp_port, udp_port)) => {
                    initial_status = Some(DeviceEvent::Esp32ConnectionStatus {
                        device_id: device_id.to_owned(),
                        connected,
                        device_ip: ip,
                        tcp_port,
                        udp_port,
                    });
                }
                None => {}
            }
        }
    }

    Ok(RegisterHandled {
        replay: outcome.replay,
        emitted: outcome.emitted,
        emitted_recipients: outcome.recipients,
        user_color: outcome.user_color,
        is_reconnection: outcome.is_reconnection,
        action,
        initial_status,
    })
}

/// Drop a subscriber's registration for one device — with the store's
/// full guarantees: the surviving subscriber list, the departure or
/// count-refresh event with its recipients, and the device's entry gone
/// with its last subscriber — and erase the device from the client's
/// registered list.
pub fn handle_unregister_for_device(
    mgr: &mut crate::manager::Esp32Manager,
    device_id: &str,
    client_id: &str,
    registered: &mut Vec<String>,
) -> (r: crate::store::UnregisterOutcome)
    requires
        old(mgr).wf(),
    ensures
        final(mgr).wf(),
        forall|i: int| 0 <= i < final(registered)@.len()
            ==> final(registered)@[i]@ != device_id@,
        final(mgr).device_store.device_events == old(mgr).device_store.device_events,
        final(mgr).sessions == old(mgr).sessions,
        final(mgr).device_configs == old(mgr).device_configs,
        ({
            let conns0 = crate::store::conns_of(old(mgr).device_store, device_id@);
            let kept = crate::store::without_client(conns0, client_id@);
            &&& crate::store::conns_of(final(mgr).device_store, device_id@) == kept
            &&& (final(mgr).device_store.active_connections.spec_get(device_id@) is Some)
                == (kept.len() > 0)
            &&& forall|d: Seq<char>| d != device_id@
                ==> crate::store::conns_of(final(mgr).device_store, d)
                    == crate::store::conns_of(old(mgr).device_store, d)
            &&& (match crate::store::find_client(conns0, client_id@) {
                None => r.emitted is None,
                Some(c) => r.emitted matches Some(e)
                    && (if crate::store::user_present(kept, c.user_id@) {
                        crate::store::is_refresh_left(e)
                    } else {
                        e == (DeviceEvent::UserLeft {
                            user_id: c.user_id,
                            display_name: c.display_name,
                            user_color: c.user_color,
                        })
                    }),
            })
            &&& r.recipients@ == (match r.emitted {
                Some(e) => crate::store::recips(kept, client_id@, e),
                None => Seq::<String>::empty(),
            })
        }),
{
    let outcome = mgr.device_store.unregister_client(device_id, client_id);
    let mut kept: Vec<String> = Vec::new();
    while registered.len() > 0
        invariant
            forall|i: int| 0 <= i < kept@.len() ==> kept@[i]@ != device_id@,
        decreases registered@.len(),
    {
        match registered.pop() {
            Some(d) => {
                if !str_eq(d.as_str(), device_id) {
                    kept.push(d);
                }
            }
            None => {}
        }
    }
    let ghost gk = kept@;
    registered.append(&mut kept);
    proof {
        assert(registered@ =~= gk);
    }
    outcome
}

/// Whether a device stands in a client's registered list.
pub fn is_registered(registered: &Vec<String>, device_id: &str) -> (r: bool)
    ensures
        r == (exists|i: int| 0 <= i < registered@.len()
            && #[trigger] registered@[i]@ == device_id@),
{
    let mut i: usize = 0;
    while i < registered.len()
        invariant
            i <= registered@.len(),
            forall|j: int| 0 <= j < i ==> #[trigger] registered@[j]@ != device_id@,
        decreases registered@.len() - i,
    {
        if str_eq(registered[i].as_str(), device_id) {
            return true;
        }
        i += 1;
    }
    false
}

/// Whether one event of a batch can be carried out: a command event must
/// hold valid JSON that the device's transport accepts — any object for a
/// serial device, a decodable command for a network one — and any other
/// event must pass the store's validation rule.
pub open spec fn event_processable(
    types: Seq<(String, crate::types::DeviceConnectionType)>,
    d: Seq<char>,
    e: DeviceEvent,
) -> bool {
    match e {
        DeviceEvent::Esp32Command { command, .. } => match crate::json::json_val_of(command@) {
            Some(t) => if crate::alist::al_get(types, d)
                == Some(crate::types::DeviceConnectionType::Uart) {
                t is Obj
            } else {
                crate::codec::spec_cmd_of_json(t) is Some
            },
            None => false,
        },
        _ => crate::events::event_valid(e),
    }
}

/// Handle an inbound event batch from a subscriber: the client must have
/// registered for the device and hold write permission; command events are
/// routed to the device's transport and never stored here; everything else
/// is stored under the cap rule and broadcast. The batch succeeds exactly
/// when every event can be carried out.
#[verifier::loop_isolation(false)]
#[verifier::rlimit(60)]
pub fn handle_device_events(
    mgr: &mut crate::manager::Esp32Manager,
    device_id: &str,
    events: Vec<DeviceEvent>,
    user_id: &str,
    client_id: &str,
    registered: &Vec<String>,
    db_write_granted: bool,
) -> (r: Result<(Vec<crate::manager::OutboundMsg>, Vec<CommandAction>),
    crate::types::Esp32Error>)
    requires
        old(mgr).wf(),
        device_id@.len() > 0,
    ensures
        final(mgr).wf(),
        (!exists|i: int| 0 <= i < registered@.len()
            && #[trigger] registered@[i]@ == device_id@)
            ==> (r matches Err(e) && e is InvalidCommand && *final(mgr) == *old(mgr)),
        ({
            let allowed = match spec_write_allowed(user_id@, device_id@) {
                Some(b) => b,
                None => db_write_granted,
            };
            ((exists|i: int| 0 <= i < registered@.len()
                && #[trigger] registered@[i]@ == device_id@) && !allowed)
                ==> (r matches Err(e) && e is Unauthorised && *final(mgr) == *old(mgr))
        }),
        ({
            let allowed = match spec_write_allowed(user_id@, device_id@) {
                Some(b) => b,
                None => db_write_granted,
            };
            ((exists|i: int| 0 <= i < registered@.len()
                && #[trigger] registered@[i]@ == device_id@) && allowed)
                ==> (r is Ok) == (forall|k: int| 0 <= k < events@.len()
                    ==> event_processable(
                        old(mgr).device_connection_types@,
                        device_id@,
                        #[trigger] events@[k],
                    ))
        }),
        r matches Ok((out, actions)) ==> {
            let conns0 = crate::store::conns_of(old(mgr).device_store, device_id@);
            let cap = old(mgr).device_store.max_debug_messages as int;
            &&& forall|k: int| 0 <= k < out@.len()
                ==> (#[trigger] out@[k]).recipients@
                    == crate::store::recips(conns0, client_id@, out@[k].event)
            &&& forall|a: int| 0 <= a < actions@.len() ==> match #[trigger] actions@[a] {
                CommandAction::Uart { frame } => frame@.len() >= 2
                    && frame@[0] == crate::framing::STX
                    && frame@[frame@.len() - 1] == crate::framing::ETX,
                CommandAction::Tcp(cmd) => exists|j: int| 0 <= j < events@.len()
                    && (#[trigger] events@[j] matches DeviceEvent::Esp32Command {
                        command, ..
                    } && (crate::json::json_val_of(command@) matches Some(t)
                        && crate::codec::spec_cmd_of_json(t) == Some(cmd))),
            }
            &&& exists|ms: Seq<crate::events::EventWithMetadata>|
                #![trigger crate::manager::fold_add(
                    crate::store::events_of(old(mgr).device_store, device_id@), cap, ms)]
                {
                    &&& ms.len() == out@.len()
                    &&& (forall|k: int| 0 <= k < ms.len() ==> crate::events::same_event(
                        (#[trigger] out@[k]).event,
                        ms[k].event,
                    ))
                    &&& crate::store::events_of(final(mgr).device_store, device_id@)
                        == crate::manager::fold_add(
                            crate::store::events_of(old(mgr).device_store, device_id@),
                            cap,
                            ms,
                        )
                }
        },
        forall|d: Seq<char>| d != device_id@
            ==> crate::store::events_of(final(mgr).device_store, d)
                == crate::store::events_of(old(mgr).device_store, d),
        final(mgr).device_store.active_connections
            == old(mgr).device_store.active_connections,
        final(mgr).sessions == old(mgr).sessions,
        final(mgr).device_configs == old(mgr).device_configs,
        final(mgr).device_connection_types == old(mgr).device_connection_types,
{
    if !is_registered(registered, device_id) {
        return Err(crate::types::Esp32Error::InvalidCommand(
            "client is not registered for this device".to_owned(),
        ));
    }
    let allowed = match write_permission(user_id, device_id) {
        Some(b) => b,
        None => db_write_granted,
    };
    if !allowed {
        return Err(crate::types::Esp32Error::Unauthorised);
    }

    let ghost gin = events@;
    let ghost base = crate::store::events_of(old(mgr).device_store, device_id@);
    let ghost cap = old(mgr).device_store.max_debug_messages as int;
    let ghost conns0 = crate::store::conns_of(old(mgr).device_store, device_id@);
    let ghost mut gms: Seq<crate::events::EventWithMetadata> = Seq::empty();
    let mut events = events;
    let total = events.len();
    proof {
        assert(gin.len() == total as int);
    }
    let mut out: Vec<crate::manager::OutboundMsg> = Vec::new();
    let mut actions: Vec<CommandAction> = Vec::new();
    let mut done: usize = 0;
    while events.len() > 0
        invariant
            mgr.wf(),
            done + events@.len() == gin.len(),
            events@ =~= gin.skip(done as int),
            forall|j: int| 0 <= j < done ==> event_processable(
                old(mgr).device_connection_types@,
                device_id@,
                #[trigger] gin[j],
            ),
            crate::store::events_of(mgr.device_store, device_id@)
                == crate::manager::fold_add(base, cap, gms),
            gms.len() == out@.len(),
            forall|k: int| 0 <= k < out@.len() ==> crate::events::same_event(
                (#[trigger] out@[k]).event,
                gms[k].event,
            ),
            forall|k: int| 0 <= k < out@.len()
                ==> (#[trigger] out@[k]).recipients@
                    == crate::store::recips(conns0, client_id@, out@[k].event),
            forall|a: int| 0 <= a < actions@.len() ==> match #[trigger] actions@[a] {
                CommandAction::Uart { frame } => frame@.len() >= 2
                    && frame@[0] == crate::framing::STX
                    && frame@[frame@.len() - 1] == crate::framing::ETX,
                CommandAction::Tcp(cmd) => exists|j: int| 0 <= j < gin.len()
                    && (#[trigger] gin[j] matches DeviceEvent::Esp32Command { command, .. }
                        && (crate::json::json_val_of(command@) matches Some(t)
                            && crate::codec::spec_cmd_of_json(t) == Some(cmd))),
            },
            forall|d: Seq<char>| d != device_id@
                ==> crate::store::events_of(mgr.device_store, d)
                    == crate::store::events_of(old(mgr).device_store, d),
            mgr.device_store.active_connections
                == old(mgr).device_store.active_connections,
            mgr.device_store.max_debug_messages
                == old(mgr).device_store.max_debug_messages,
            mgr.sessions == old(mgr).sessions,
            mgr.device_configs == old(mgr).device_configs,
            mgr.device_connection_types == old(mgr).device_connection_types,
            mgr.unified_activity == old(mgr).unified_activity,
            mgr.unified_connected == old(mgr).unified_connected,
            mgr.ip_to_device_id == old(mgr).ip_to_device_id,
        decreases events@.len(),
    {
        proof {
            assert(gin.skip(done as int)[0] == gin[done as int]);
            assert(gin.skip(done as int).drop_first() =~= gin.skip(done as int + 1));
        }
        let event = events.remove(0);
        proof {
            assert(events@ =~= gin.skip(done as int).drop_first());
            assert(done < total);
        }
        let ghost gcur = gin[done as int];
        let is_command = match &event {
            DeviceEvent::Esp32Command { .. } => true,
            _ => false,
        };
        if is_command {
            let command_text: String = match &event {
                DeviceEvent::Esp32Command { command, .. } => command.clone(),
                _ => String::new(),
            };
            let tree = match crate::json::parse_json(command_text.as_str()) {
                Some(t) => t,
                None => {
                    return Err(crate::types::Esp32Error::InvalidCommand(
                        "command is not valid JSON".to_owned(),
                    ));
                }
            };
            let device_type = mgr.get_device_connection_type(device_id);
            let is_uart = match device_type {
                Some(crate::types::DeviceConnectionType::Uart) => true,
                _ => false,
            };
            if is_uart {
                match crate::uart::frame_uart_json(tree, device_id) {
                    Ok(frame) => {
                        actions.push(CommandAction::Uart { frame });
                    }
                    Err(e) => {
                        return Err(e);
                    }
                }
            } else {
                let cmd = match crate::codec::cmd_from_json_val(&tree) {
                    Ok(c) => c,
                    Err(e) => {
                        return Err(e);
                    }
                };
                // Retain a command event carrying the canonical rendering,
                // for the peers watching the device.
                let text = crate::json::render_json(&cmd.to_json_val());
                let stored_event = DeviceEvent::Esp32Command {
                    device_id: device_id.to_owned(),
                    command: text,
                };
                let event_copy = stored_event.duplicate();
                let ghost gstored = stored_event;
                let ghost gcopy = event_copy;
                proof {
                    crate::events::lemma_same_event_plain(gcopy, gstored);
                }
                let (recipients, trace) = mgr.add_event_traced(
                    device_id,
                    stored_event,
                    user_id,
                    client_id,
                );
                proof {
                    let prev = gms;
                    gms = gms.push(trace@);
                    assert(gms.drop_last() =~= prev);
                    assert(crate::manager::fold_add(base, cap, gms)
                        == crate::store::events_after_add(
                            crate::manager::fold_add(base, cap, prev), cap, trace@));
                }
                out.push(crate::manager::OutboundMsg { event: event_copy, recipients });
                actions.push(CommandAction::Tcp(cmd));
            }
        } else {
            match event.validate() {
                Ok(()) => {}
                Err(e) => {
                    return Err(crate::types::Esp32Error::Validation(e));
                }
            }
            let event_copy = event.duplicate();
            let ghost gcopy = event_copy;
            proof {
                crate::manager::lemma_same_event_respects(gcur, gcopy, device_id@);
                crate::manager::lemma_recips_event_irrelevant(conns0, client_id@, gcur, gcopy);
            }
            let (recipients, trace) = mgr.add_event_traced(
                device_id,
                event,
                user_id,
                client_id,
            );
            proof {
                let prev = gms;
                gms = gms.push(trace@);
                assert(gms.drop_last() =~= prev);
                assert(crate::manager::fold_add(base, cap, gms)
                    == crate::store::events_after_add(
                        crate::manager::fold_add(base, cap, prev), cap, trace@));
            }
            out.push(crate::manager::OutboundMsg { event: event_copy, recipients });
        }
        proof {
            assert(event_processable(
                old(mgr).device_connection_types@,
                device_id@,
                gin[done as int],
            ));
        }
        done += 1;
    }
    proof {
        assert(gin.skip(done as int) =~= Seq::<DeviceEvent>::empty());
    }
    Ok((out, actions))
}

/// Whether one wire tree reads as one event: the tag and every plain field
/// correspond, an optional field is present exactly when the event carries
/// it, and list fields match element for element. The free-form payloads
/// carried as rendered text (`parameters`, `config`, `value`, `command` of
/// `esp32Command`) are related separately by the encoder and the decoder.
pub open spec fn event_plain_fields_match(e: DeviceEvent, v: JsonVal) -> bool {
    &&& (json_get(v, "event"@) matches Some(JsonVal::Str(t)) && t@ == spec_event_tag(e))
    &&& match e {
        DeviceEvent::DeviceCommand { command, parameters } => {
            &&& (json_get(v, "command"@) matches Some(JsonVal::Str(c)) && c@ == command@)
            &&& (parameters is None ==> json_get(v, "parameters"@) is None)
        },
        DeviceEvent::DeviceStatusUpdate { status, ip_address, firmware_version } => {
            &&& (json_get(v, "status"@) matches Some(JsonVal::Str(st)) && st@ == status@)
            &&& match ip_address {
                Some(ip) => json_get(v, "ipAddress"@) matches Some(JsonVal::Str(x))
                    && x@ == ip@,
                None => json_get(v, "ipAddress"@) is None,
            }
            &&& match firmware_version {
                Some(f) => json_get(v, "firmwareVersion"@) matches Some(JsonVal::Str(x))
                    && x@ == f@,
                None => json_get(v, "firmwareVersion"@) is None,
            }
        },
        DeviceEvent::DeviceConfigUpdate { .. } => true,
        DeviceEvent::DeviceSensorData { sensor, timestamp, .. } => {
            &&& (json_get(v, "sensor"@) matches Some(JsonVal::Str(sn)) && sn@ == sensor@)
            &&& json_get(v, "timestamp"@) == Some(JsonVal::Int(timestamp))
        },
        DeviceEvent::UserJoined { user_id, display_name, user_color } => {
            &&& (json_get(v, "userId"@) matches Some(JsonVal::Str(u)) && u@ == user_id@)
            &&& (json_get(v, "displayName"@) matches Some(JsonVal::Str(d))
                && d@ == display_name@)
            &&& (json_get(v, "userColor"@) matches Some(JsonVal::Str(c))
                && c@ == user_color@)
        },
        DeviceEvent::UserLeft { user_id, display_name, user_color } => {
            &&& (json_get(v, "userId"@) matches Some(JsonVal::Str(u)) && u@ == user_id@)
            &&& (json_get(v, "displayName"@) matches Some(JsonVal::Str(d))
                && d@ == display_name@)
            &&& (json_get(v, "userColor"@) matches Some(JsonVal::Str(c))
                && c@ == user_color@)
        },
        DeviceEvent::Esp32Command { device_id, .. } => {
            json_get(v, "deviceId"@) matches Some(JsonVal::Str(d)) && d@ == device_id@
        },
        DeviceEvent::Esp32VariableUpdate {
            device_id, variable_name, variable_value, min, max,
        } => {
            &&& (json_get(v, "deviceId"@) matches Some(JsonVal::Str(d))
                && d@ == device_id@)
            &&& (json_get(v, "variableName"@) matches Some(JsonVal::Str(n))
                && n@ == variable_name@)
            &&& (json_get(v, "variableValue"@) matches Some(JsonVal::Str(x))
                && x@ == variable_value@)
            &&& (match json_get(v, "min"@) {
                Some(JsonVal::UInt(m)) => min == Some(m),
                _ => min is None,
            })
            &&& (match json_get(v, "max"@) {
                Some(JsonVal::UInt(m)) => max == Some(m),
                _ => max is None,
            })
        },
        DeviceEvent::Esp32StartOptions { device_id, options } => {
            &&& (json_get(v, "deviceId"@) matches Some(JsonVal::Str(d))
                && d@ == device_id@)
            &&& (json_get(v, "options"@) matches Some(JsonVal::Arr(a))
                && a@.len() == options@.len()
                && forall|k: int| 0 <= k < a@.len()
                    ==> (#[trigger] a@[k] matches JsonVal::Str(o)
                        && o@ == options@[k]@))
        },
        DeviceEvent::Esp32ChangeableVariables { device_id, variables } => {
            &&& (json_get(v, "deviceId"@) matches Some(JsonVal::Str(d))
                && d@ == device_id@)
            &&& (json_get(v, "variables"@) matches Some(JsonVal::Arr(a))
                && a@.len() == variables@.len()
                && forall|k: int| 0 <= k < a@.len()
                    ==> changeable_variable_matches(variables@[k], #[trigger] a@[k]))
        },
        DeviceEvent::Esp32UdpBroadcast { device_id, message, from_ip, from_port } => {
            &&& (json_get(v, "deviceId"@) matches Some(JsonVal::Str(d))
                && d@ == device_id@)
            &&& (json_get(v, "message"@) matches Some(JsonVal::Str(m)) && m@ == message@)
            &&& (json_get(v, "fromIp"@) matches Some(JsonVal::Str(ip)) && ip@ == from_ip@)
            &&& json_get(v, "fromPort"@) == Some(JsonVal::UInt(from_port as u64))
        },
        DeviceEvent::Esp32ConnectionStatus {
            device_id, connected, device_ip, tcp_port, udp_port,
        } => {
            &&& (json_get(v, "deviceId"@) matches Some(JsonVal::Str(d))
                && d@ == device_id@)
            &&& json_get(v, "connected"@) == Some(JsonVal::Bool(connected))
            &&& (json_get(v, "deviceIp"@) matches Some(JsonVal::Str(ip))
                && ip@ == device_ip@)
            &&& json_get(v, "tcpPort"@) == Some(JsonVal::UInt(tcp_port as u64))
            &&& json_get(v, "udpPort"@) == Some(JsonVal::UInt(udp_port as u64))
        },
        DeviceEvent::Esp32DeviceInfo { device_id, device_name, firmware_version, uptime } => {
            &&& (json_get(v, "deviceId"@) matches Some(JsonVal::Str(d))
                && d@ == device_id@)
            &&& match device_name {
                Some(n) => json_get(v, "deviceName"@) matches Some(JsonVal::Str(x))
                    && x@ == n@,
                None => json_get(v, "deviceName"@) == Some(JsonVal::Null),
            }
            &&& match firmware_version {
                Some(f) => json_get(v, "firmwareVersion"@) matches Some(JsonVal::Str(x))
                    && x@ == f@,
                None => json_get(v, "firmwareVersion"@) == Some(JsonVal::Null),
            }
            &&& match uptime {
                Some(u) => json_get(v, "uptime"@) == Some(JsonVal::UInt(u)),
                None => json_get(v, "uptime"@) == Some(JsonVal::Null),
            }
        },
        DeviceEvent::Esp32DeviceDiscovered {
            device_id, device_ip, tcp_port, udp_port, discovered_at, mac_address,
            mdns_hostname,
        } => {
            &&& (json_get(v, "deviceId"@) matches Some(JsonVal::Str(d))
                && d@ == device_id@)
            &&& (json_get(v, "deviceIp"@) matches Some(JsonVal::Str(ip))
                && ip@ == device_ip@)
            &&& json_get(v, "tcpPort"@) == Some(JsonVal::UInt(tcp_port as u64))
            &&& json_get(v, "udpPort"@) == Some(JsonVal::UInt(udp_port as u64))
            &&& (json_get(v, "discoveredAt"@) matches Some(JsonVal::Str(at))
                && at@ == discovered_at@)
            &&& match mac_address {
                Some(m) => json_get(v, "macAddress"@) matches Some(JsonVal::Str(x))
                    && x@ == m@,
                None => json_get(v, "macAddress"@) is None,
            }
            &&& match mdns_hostname {
                Some(h) => json_get(v, "mdnsHostname"@) matches Some(JsonVal::Str(x))
                    && x@ == h@,
                None => json_get(v, "mdnsHostname"@) is None,
            }
        },
    }
}

/// Whether one wire object reads as one changeable variable.
pub open spec fn changeable_variable_matches(
    c: crate::events::ChangeableVariable,
    v: JsonVal,
) -> bool {
    &&& (json_get(v, "name"@) matches Some(JsonVal::Str(n)) && n@ == c.name@)
    &&& json_get(v, "value"@) == Some(JsonVal::UInt(c.value))
    &&& (match json_get(v, "min"@) {
        Some(JsonVal::UInt(m)) => c.min == Some(m),
        _ => c.min is None,
    })
    &&& (match json_get(v, "max"@) {
        Some(JsonVal::UInt(m)) => c.max == Some(m),
        _ => c.max is None,
    })
}

/// An optional string field on the wire: absent, or a string.
pub open spec fn opt_str_wire(f: Option<JsonVal>) -> bool {
    match f {
        None => true,
        Some(JsonVal::Str(_)) => true,
        _ => false,
    }
}

/// An optional unsigned field on the wire: absent, or an unsigned number.
pub open spec fn opt_u64_wire(f: Option<JsonVal>) -> bool {
    match f {
        None => true,
        Some(JsonVal::UInt(_)) => true,
        _ => false,
    }
}

/// Whether a wire tree decodes to an event: it carries one of the tags the
/// channel accepts with the string fields that tag requires.
pub open spec fn event_json_decodable(v: JsonVal) -> bool {
    match json_get(v, "event"@) {
        Some(JsonVal::Str(t)) => {
            ||| (t@ == "esp32Command"@
                && (json_get(v, "deviceId"@) matches Some(JsonVal::Str(_)))
                && json_get(v, "command"@) is Some)
            ||| (t@ == "esp32VariableUpdate"@
                && (json_get(v, "deviceId"@) matches Some(JsonVal::Str(_)))
                && (json_get(v, "variableName"@) matches Some(JsonVal::Str(_)))
                && (json_get(v, "variableValue"@) matches Some(JsonVal::Str(_)))
                && opt_u64_wire(json_get(v, "min"@))
                && opt_u64_wire(json_get(v, "max"@)))
            ||| (t@ == "deviceCommand"@
                && (json_get(v, "command"@) matches Some(JsonVal::Str(_))))
            ||| (t@ == "deviceStatusUpdate"@
                && (json_get(v, "status"@) matches Some(JsonVal::Str(_)))
                && opt_str_wire(json_get(v, "ipAddress"@))
                && opt_str_wire(json_get(v, "firmwareVersion"@)))
            ||| (t@ == "userJoined"@
                && (json_get(v, "userId"@) matches Some(JsonVal::Str(_)))
                && (json_get(v, "displayName"@) matches Some(JsonVal::Str(_)))
                && (json_get(v, "userColor"@) matches Some(JsonVal::Str(_))))
            ||| (t@ == "userLeft"@
                && (json_get(v, "userId"@) matches Some(JsonVal::Str(_)))
                && (json_get(v, "displayName"@) matches Some(JsonVal::Str(_)))
                && (json_get(v, "userColor"@) matches Some(JsonVal::Str(_))))
        },
        _ => false,
    }
}

/// The tag naming an event kind on the wire.
pub open spec fn spec_event_tag(e: DeviceEvent) -> Seq<char> {
    match e {
        DeviceEvent::DeviceCommand { .. } => "deviceCommand"@,
        DeviceEvent::DeviceStatusUpdate { .. } => "deviceStatusUpdate"@,
        DeviceEvent::DeviceConfigUpdate { .. } => "deviceConfigUpdate"@,
        DeviceEvent::DeviceSensorData { .. } => "deviceSensorData"@,
        DeviceEvent::UserJoined { .. } => "userJoined"@,
        DeviceEvent::UserLeft { .. } => "userLeft"@,
        DeviceEvent::Esp32Command { .. } => "esp32Command"@,
        DeviceEvent::Esp32VariableUpdate { .. } => "esp32VariableUpdate"@,
        DeviceEvent::Esp32StartOptions { .. } => "esp32StartOptions"@,
        DeviceEvent::Esp32ChangeableVariables { .. } => "esp32ChangeableVariables"@,
        DeviceEvent::Esp32UdpBroadcast { .. } => "esp32UdpBroadcast"@,
        DeviceEvent::Esp32ConnectionStatus { .. } => "esp32ConnectionStatus"@,
        DeviceEvent::Esp32DeviceInfo { .. } => "esp32DeviceInfo"@,
        DeviceEvent::Esp32DeviceDiscovered { .. } => "esp32DeviceDiscovered"@,
    }
}

/// A string read from an optional tree node.
fn get_str(v: &JsonVal, key: &str) -> (r: Option<String>)
    ensures
        match r {
            Some(s) => json_get(*v, key@) matches Some(JsonVal::Str(x)) && x == s,
            None => !(json_get(*v, key@) matches Some(JsonVal::Str(_))),
        },
{
    match v {
        JsonVal::Obj(fields) => match crate::json::obj_get(fields, key) {
            Some(JsonVal::Str(s)) => Some(s.clone()),
            _ => None,
        },
        _ => None,
    }
}

/// An optional string field: absent, a string, or ill-typed.
fn get_opt_str(v: &JsonVal, key: &str) -> (r: Option<Option<String>>)
    ensures
        match r {
            Some(Some(s)) => json_get(*v, key@) matches Some(JsonVal::Str(x)) && x == s,
            Some(None) => json_get(*v, key@) is None,
            None => !opt_str_wire(json_get(*v, key@)),
        },
{
    match v {
        JsonVal::Obj(fields) => match crate::json::obj_get(fields, key) {
            Some(JsonVal::Str(x)) => Some(Some(x.clone())),
            Some(_) => None,
            None => Some(None),
        },
        _ => Some(None),
    }
}

/// An optional unsigned field: absent, a number, or ill-typed.
fn get_opt_u64(v: &JsonVal, key: &str) -> (r: Option<Option<u64>>)
    ensures
        match r {
            Some(Some(u)) => json_get(*v, key@) == Some(JsonVal::UInt(u)),
            Some(None) => json_get(*v, key@) is None,
            None => !opt_u64_wire(json_get(*v, key@)),
        },
{
    match v {
        JsonVal::Obj(fields) => match crate::json::obj_get(fields, key) {
            Some(JsonVal::UInt(u)) => Some(Some(*u)),
            Some(_) => None,
            None => Some(None),
        },
        _ => Some(None),
    }
}

/// An unsigned number read from an optional tree node.
fn get_u64(v: &JsonVal, key: &str) -> (r: Option<u64>)
    ensures
        match r {
            Some(u) => json_get(*v, key@) == Some(JsonVal::UInt(u)),
            None => !(json_get(*v, key@) matches Some(JsonVal::UInt(_))),
        },
{
    match v {
        JsonVal::Obj(fields) => match crate::json::obj_get(fields, key) {
            Some(JsonVal::UInt(u)) => Some(*u),
            _ => None,
        },
        _ => None,
    }
}

/// Decode one event from its wire tree: exactly the decodable trees yield
/// an event, whose fields read back from the tree; the free-form command
/// payloads come back as the rendering of their subtree.
pub fn event_from_json_val(v: &JsonVal) -> (r: Option<DeviceEvent>)
    ensures
        (r is Some) == event_json_decodable(*v),
        r matches Some(e) ==> event_plain_fields_match(e, *v),
        r matches Some(e)
            ==> (e matches DeviceEvent::Esp32Command { command, .. }
                ==> (json_get(*v, "command"@) matches Some(t)
                    && command@ == crate::json::json_text_of(t))),
        r matches Some(e)
            ==> (e matches DeviceEvent::DeviceCommand { parameters: Some(p), .. }
                ==> (json_get(*v, "parameters"@) matches Some(t)
                    && p@ == crate::json::json_text_of(t))),
{
    proof {
        reveal_strlit("esp32Command");
        reveal_strlit("esp32VariableUpdate");
        reveal_strlit("deviceCommand");
        reveal_strlit("deviceStatusUpdate");
        reveal_strlit("userJoined");
        reveal_strlit("userLeft");
        assert("esp32Command"@.len() == 12);
        assert("esp32VariableUpdate"@.len() == 19);
        assert("deviceCommand"@.len() == 13);
        assert("deviceStatusUpdate"@.len() == 18);
        assert("userJoined"@.len() == 10);
        assert("userLeft"@.len() == 8);
    }
    let tag = match get_str(v, "event") {
        Some(t) => t,
        None => {
            return None;
        }
    };
    if str_eq(tag.as_str(), "esp32Command") {
        let device_id = match get_str(v, "deviceId") {
            Some(d) => d,
            None => {
                return None;
            }
        };
        let command_text = match v {
            JsonVal::Obj(fields) => match crate::json::obj_get(fields, "command") {
                Some(t) => crate::json::render_json(t),
                None => {
                    return None;
                }
            },
            _ => {
                return None;
            }
        };
        return Some(DeviceEvent::Esp32Command { device_id, command: command_text });
    }
    if str_eq(tag.as_str(), "esp32VariableUpdate") {
        let device_id = match get_str(v, "deviceId") {
            Some(d) => d,
            None => {
                return None;
            }
        };
        let name = match get_str(v, "variableName") {
            Some(d) => d,
            None => {
                return None;
            }
        };
        let value = match get_str(v, "variableValue") {
            Some(d) => d,
            None => {
                return None;
            }
        };
        let min = match get_opt_u64(v, "min") {
            Some(m) => m,
            None => {
                return None;
            }
        };
        let max = match get_opt_u64(v, "max") {
            Some(m) => m,
            None => {
                return None;
            }
        };
        return Some(DeviceEvent::Esp32VariableUpdate {
            device_id,
            variable_name: name,
            variable_value: value,
            min,
            max,
        });
    }
    if str_eq(tag.as_str(), "deviceCommand") {
        let command = match get_str(v, "command") {
            Some(c) => c,
            None => {
                return None;
            }
        };
        let parameters = match v {
            JsonVal::Obj(fields) => match crate::json::obj_get(fields, "parameters") {
                Some(t) => Some(crate::json::render_json(t)),
                None => None,
            },
            _ => None,
        };
        return Some(DeviceEvent::DeviceCommand { command, parameters });
    }
    if str_eq(tag.as_str(), "deviceStatusUpdate") {
        let status = match get_str(v, "status") {
            Some(c) => c,
            None => {
                return None;
            }
        };
        let ip_address = match get_opt_str(v, "ipAddress") {
            Some(x) => x,
            None => {
                return None;
            }
        };
        let firmware_version = match get_opt_str(v, "firmwareVersion") {
            Some(x) => x,
            None => {
                return None;
            }
        };
        return Some(DeviceEvent::DeviceStatusUpdate { status, ip_address, firmware_version });
    }
    if str_eq(tag.as_str(), "userJoined") {
        let user_id = match get_str(v, "userId") {
            Some(c) => c,
            None => {
                return None;
            }
        };
        let display_name = match get_str(v, "displayName") {
            Some(c) => c,
            None => {
                return None;
            }
        };
        let user_color = match get_str(v, "userColor") {
            Some(c) => c,
            None => {
                return None;
            }
        };
        return Some(DeviceEvent::UserJoined { user_id, display_name, user_color });
    }
    if str_eq(tag.as_str(), "userLeft") {
        let user_id = match get_str(v, "userId") {
            Some(c) => c,
            None => {
                return None;
            }
        };
        let display_name = match get_str(v, "displayName") {
            Some(c) => c,
            None => {
                return None;
            }
        };
        let user_color = match get_str(v, "userColor") {
            Some(c) => c,
            None => {
                return None;
            }
        };
        return Some(DeviceEvent::UserLeft { user_id, display_name, user_color });
    }
    proof {
        assert(!event_json_decodable(*v));
    }
    None
}

/// A subscription-type field on the wire: absent, or `light`, or `full`.
pub open spec fn sub_type_wire(f: Option<JsonVal>) -> bool {
    match f {
        None => true,
        Some(JsonVal::Str(st)) => st@ == "light"@ || st@ == "full"@,
        _ => false,
    }
}

/// Whether a wire tree decodes to a subscriber message: a heartbeat, a
/// well-formed registration or unregistration, or an event batch whose
/// every element decodes.
pub open spec fn client_msg_decodable(v: JsonVal) -> bool {
    match json_get(v, "type"@) {
        Some(JsonVal::Str(t)) => {
            ||| (t@ == "ping"@ && opt_u64_wire(json_get(v, "timestamp"@)))
            ||| (t@ == "registerForDevice"@
                && (json_get(v, "deviceId"@) matches Some(JsonVal::Str(_)))
                && sub_type_wire(json_get(v, "subscriptionType"@)))
            ||| (t@ == "unregisterForDevice"@
                && (json_get(v, "deviceId"@) matches Some(JsonVal::Str(_))))
            ||| (t@ == "deviceEvent"@
                && (json_get(v, "deviceId"@) matches Some(JsonVal::Str(_)))
                && (json_get(v, "eventsForDevice"@) matches Some(JsonVal::Arr(a))
                    && forall|k: int| 0 <= k < a@.len()
                        ==> event_json_decodable(#[trigger] a@[k])))
        },
        _ => false,
    }
}

/// Decode one message from a subscriber: exactly the decodable trees yield
/// a message, whose fields read back from the tree. Text that is not JSON
/// is a codec error; a recognised tree with a malformed shape is an
/// invalid command.
#[verifier::loop_isolation(false)]
pub fn parse_client_message(text: &str) -> (r: Result<ClientMessage, crate::types::Esp32Error>)
    ensures
        match r {
            Ok(m) => (crate::json::json_val_of(text@) matches Some(v)
                && client_msg_decodable(v)
                && client_msg_reads_back(m, v)),
            Err(e) => {
                &&& (e is JsonError || e is InvalidCommand)
                &&& (e is JsonError) == (crate::json::json_val_of(text@) is None)
                &&& (crate::json::json_val_of(text@) matches Some(v)
                    ==> !client_msg_decodable(v))
            },
        },
{
    proof {
        reveal_strlit("ping");
        reveal_strlit("registerForDevice");
        reveal_strlit("unregisterForDevice");
        reveal_strlit("deviceEvent");
        reveal_strlit("light");
        reveal_strlit("full");
        assert("ping"@.len() == 4);
        assert("registerForDevice"@.len() == 17);
        assert("unregisterForDevice"@.len() == 19);
        assert("deviceEvent"@.len() == 11);
        assert("light"@.len() == 5);
        assert("full"@.len() == 4);
    }
    let tree = match crate::json::parse_json(text) {
        Some(t) => t,
        None => {
            return Err(crate::types::Esp32Error::JsonError("not valid JSON".to_owned()));
        }
    };
    let tag = match get_str(&tree, "type") {
        Some(t) => t,
        None => {
            return Err(crate::types::Esp32Error::InvalidCommand(
                "message has no type".to_owned(),
            ));
        }
    };
    if str_eq(tag.as_str(), "ping") {
        let timestamp = match get_opt_u64(&tree, "timestamp") {
            Some(t) => t,
            None => {
                return Err(crate::types::Esp32Error::InvalidCommand(
                    "malformed heartbeat timestamp".to_owned(),
                ));
            }
        };
        return Ok(ClientMessage::Ping { timestamp });
    }
    if str_eq(tag.as_str(), "registerForDevice") {
        let device_id = match get_str(&tree, "deviceId") {
            Some(d) => d,
            None => {
                return Err(crate::types::Esp32Error::InvalidCommand(
                    "registration names no device".to_owned(),
                ));
            }
        };
        let subscription_type = match get_opt_str(&tree, "subscriptionType") {
            Some(Some(st)) => {
                if str_eq(st.as_str(), "light") {
                    SubscriptionType::Light
                } else if str_eq(st.as_str(), "full") {
                    SubscriptionType::Full
                } else {
                    return Err(crate::types::Esp32Error::InvalidCommand(
                        "unknown subscription type".to_owned(),
                    ));
                }
            }
            Some(None) => SubscriptionType::Full,
            None => {
                return Err(crate::types::Esp32Error::InvalidCommand(
                    "malformed subscription type".to_owned(),
                ));
            }
        };
        return Ok(ClientMessage::RegisterForDevice { device_id, subscription_type });
    }
    if str_eq(tag.as_str(), "unregisterForDevice") {
        let device_id = match get_str(&tree, "deviceId") {
            Some(d) => d,
            None => {
                return Err(crate::types::Esp32Error::InvalidCommand(
                    "unregistration names no device".to_owned(),
                ));
            }
        };
        return Ok(ClientMessage::UnregisterForDevice { device_id });
    }
    if str_eq(tag.as_str(), "deviceEvent") {
        let device_id = match get_str(&tree, "deviceId") {
            Some(d) => d,
            None => {
                return Err(crate::types::Esp32Error::InvalidCommand(
                    "event batch names no device".to_owned(),
                ));
            }
        };
        let mut events: Vec<DeviceEvent> = Vec::new();
        match &tree {
            JsonVal::Obj(fields) => match crate::json::obj_get(fields, "eventsForDevice") {
                Some(JsonVal::Arr(a)) => {
                    let mut i: usize = 0;
                    while i < a.len()
                        invariant
                            i <= a@.len(),
                            events@.len() == i,
                            forall|k: int| 0 <= k < i ==> event_plain_fields_match(
                                events@[k],
                                a@[k],
                            ),
                            forall|k: int| 0 <= k < i ==> event_json_decodable(a@[k]),
                        decreases a@.len() - i,
                    {
                        match event_from_json_val(&a[i]) {
                            Some(e) => {
                                events.push(e);
                            }
                            None => {
                                return Err(crate::types::Esp32Error::InvalidCommand(
                                    "unrecognised event in batch".to_owned(),
                                ));
                            }
                        }
                        i += 1;
                    }
                }
                _ => {
                    return Err(crate::types::Esp32Error::InvalidCommand(
                        "event batch holds no event list".to_owned(),
                    ));
                }
            },
            _ => {
                return Err(crate::types::Esp32Error::InvalidCommand(
                    "event batch is not an object".to_owned(),
                ));
            }
        }
        return Ok(ClientMessage::DeviceEvent { device_id, events_for_device: events });
    }
    Err(crate::types::Esp32Error::InvalidCommand("unknown message type".to_owned()))
}

/// How a decoded message's fields read back from its wire tree.
pub open spec fn client_msg_reads_back(m: ClientMessage, v: JsonVal) -> bool {
    match m {
        ClientMessage::Ping { timestamp } => {
            &&& (json_get(v, "type"@) matches Some(JsonVal::Str(t)) && t@ == "ping"@)
            &&& (match json_get(v, "timestamp"@) {
                Some(JsonVal::UInt(u)) => timestamp == Some(u),
                _ => timestamp is None,
            })
        },
        ClientMessage::RegisterForDevice { device_id, subscription_type } => {
            &&& (json_get(v, "type"@) matches Some(JsonVal::Str(t))
                && t@ == "registerForDevice"@)
            &&& (json_get(v, "deviceId"@) matches Some(JsonVal::Str(d)) && d == device_id)
            &&& (subscription_type == SubscriptionType::Light)
                == (json_get(v, "subscriptionType"@) matches Some(JsonVal::Str(st))
                    && st@ == "light"@)
        },
        ClientMessage::UnregisterForDevice { device_id } => {
            &&& (json_get(v, "type"@) matches Some(JsonVal::Str(t))
                && t@ == "unregisterForDevice"@)
            &&& (json_get(v, "deviceId"@) matches Some(JsonVal::Str(d)) && d == device_id)
        },
        ClientMessage::DeviceEvent { device_id, events_for_device } => {
            &&& (json_get(v, "type"@) matches Some(JsonVal::Str(t)) && t@ == "deviceEvent"@)
            &&& (json_get(v, "deviceId"@) matches Some(JsonVal::Str(d)) && d == device_id)
            &&& (json_get(v, "eventsForDevice"@) matches Some(JsonVal::Arr(a))
                && events_for_device@.len() == a@.len()
                && forall|k: int| 0 <= k < a@.len()
                    ==> event_plain_fields_match(events_for_device@[k], #[trigger] a@[k]))
        },
    }
}

} // verus!
