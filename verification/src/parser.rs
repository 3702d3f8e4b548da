//! Inbound payload parsing. A device message may carry start options, a list
//! of changeable variables, device information, and single variable updates;
//! parsing is tolerant and each recognised shape yields its event. A
//! key-value fallback scan handles bare `{"name":"value"}` and `{"name":N}`
//! pairs that the structured pass does not cover.

use vstd::prelude::*;
use vstd::string::StringSliceAdditionalSpecFns;
use crate::json::{JsonVal, json_get, fields_get};
use crate::events::{DeviceEvent, ChangeableVariable};
use crate::strutil::{dec_str, u64_to_string, i64_to_string, str_eq};

verus! {

/// A `u64` read from an optional tree node.
pub open spec fn as_u64_opt(v: Option<JsonVal>) -> Option<u64> {
    match v {
        Some(JsonVal::UInt(u)) => Some(u),
        _ => None,
    }
}

/// The string elements of an array, in order; other elements are ignored.
pub open spec fn str_views(a: Seq<JsonVal>) -> Seq<Seq<char>>
    decreases a.len(),
{
    if a.len() == 0 {
        Seq::empty()
    } else {
        let pre = str_views(a.drop_last());
        match a.last() {
            JsonVal::Str(s) => pre.push(s@),
            _ => pre,
        }
    }
}

/// The start options a payload announces.
pub open spec fn spec_start_options(v: JsonVal) -> Seq<Seq<char>> {
    match json_get(v, "startOptions"@) {
        Some(JsonVal::Arr(a)) => str_views(a@),
        _ => Seq::empty(),
    }
}

/// One changeable variable read from its object: a name and an unsigned
/// value are required, the bounds optional.
pub open spec fn cv_item(o: JsonVal) -> Option<(Seq<char>, u64, Option<u64>, Option<u64>)> {
    match json_get(o, "name"@) {
        Some(JsonVal::Str(n)) => match json_get(o, "value"@) {
            Some(JsonVal::UInt(u)) => Some((
                n@,
                u,
                as_u64_opt(json_get(o, "min"@)),
                as_u64_opt(json_get(o, "max"@)),
            )),
            _ => None,
        },
        _ => None,
    }
}

/// The well-formed changeable variables of an array, in order.
pub open spec fn cv_items(a: Seq<JsonVal>) -> Seq<(Seq<char>, u64, Option<u64>, Option<u64>)>
    decreases a.len(),
{
    if a.len() == 0 {
        Seq::empty()
    } else {
        let pre = cv_items(a.drop_last());
        match cv_item(a.last()) {
            Some(t) => pre.push(t),
            None => pre,
        }
    }
}

/// The changeable variables a payload announces.
pub open spec fn spec_change_vars(v: JsonVal) -> Seq<(Seq<char>, u64, Option<u64>, Option<u64>)> {
    match json_get(v, "changeableVariables"@) {
        Some(JsonVal::Arr(a)) => cv_items(a@),
        _ => Seq::empty(),
    }
}

/// The device information a payload announces: its name, the firmware
/// version or `unknown`, and the uptime clipped to thirty-two bits.
pub open spec fn spec_dev_info(v: JsonVal) -> Option<(Seq<char>, Seq<char>, u64)> {
    match json_get(v, "deviceName"@) {
        Some(JsonVal::Str(n)) => {
            let fw = match json_get(v, "firmwareVersion"@) {
                Some(JsonVal::Str(f)) => f@,
                _ => "unknown"@,
            };
            let up = match as_u64_opt(json_get(v, "uptime"@)) {
                Some(u) => u % 0x100000000,
                None => 0,
            };
            Some((n@, fw, up))
        }
        _ => None,
    }
}

/// The text a primitive value reads as; compound values read as nothing.
pub open spec fn prim_text(v: JsonVal) -> Option<Seq<char>> {
    match v {
        JsonVal::Str(s) => Some(s@),
        JsonVal::UInt(u) => Some(dec_str(u as nat)),
        JsonVal::Int(i) => Some(
            if i >= 0 { dec_str(i as nat) } else { seq!['-'] + dec_str((-(i as int)) as nat) },
        ),
        JsonVal::NumText(t) => Some(t@),
        _ => None,
    }
}

/// The keys the single-variable pass leaves to the structured shapes.
pub open spec fn sv_skip_key(k: Seq<char>) -> bool {
    ||| k == "min"@
    ||| k == "max"@
    ||| k == "device_id"@
    ||| k == "startOptions"@
    ||| k == "changeableVariables"@
    ||| k == "deviceName"@
    ||| k == "firmwareVersion"@
    ||| k == "uptime"@
    ||| k == "status"@
}

/// The single-variable updates of an object's fields, in field order, each
/// carrying the object's bounds.
pub open spec fn sv_list(
    fs: Seq<(String, JsonVal)>,
    minv: Option<u64>,
    maxv: Option<u64>,
) -> Seq<(Seq<char>, Seq<char>, Option<u64>, Option<u64>)>
    decreases fs.len(),
{
    if fs.len() == 0 {
        Seq::empty()
    } else {
        let pre = sv_list(fs.drop_last(), minv, maxv);
        let k = fs.last().0@;
        if !sv_skip_key(k) {
            match prim_text(fs.last().1) {
                Some(t) => pre.push((k, t, minv, maxv)),
                None => pre,
            }
        } else {
            pre
        }
    }
}

/// The single-variable updates a payload announces: only a payload that
/// carries `min` or `max` at top level takes this path.
pub open spec fn spec_single_vars(
    v: JsonVal,
) -> Seq<(Seq<char>, Seq<char>, Option<u64>, Option<u64>)> {
    match v {
        JsonVal::Obj(fields) => if fields_get(fields@, "min"@) is Some
            || fields_get(fields@, "max"@) is Some {
            sv_list(
                fields@,
                as_u64_opt(fields_get(fields@, "min"@)),
                as_u64_opt(fields_get(fields@, "max"@)),
            )
        } else {
            Seq::empty()
        },
        _ => Seq::empty(),
    }
}

/// What a start-options event must read as.
pub open spec fn is_start_options_event(e: DeviceEvent, d: Seq<char>, opts: Seq<Seq<char>>) -> bool {
    e matches DeviceEvent::Esp32StartOptions { device_id, options }
        && device_id@ == d
        && options@.map_values(|s: String| s@) == opts
}

/// What a changeable-variables event must read as.
pub open spec fn is_change_vars_event(
    e: DeviceEvent,
    d: Seq<char>,
    vars: Seq<(Seq<char>, u64, Option<u64>, Option<u64>)>,
) -> bool {
    e matches DeviceEvent::Esp32ChangeableVariables { device_id, variables }
        && device_id@ == d
        && variables@.map_values(|c: ChangeableVariable| (c.name@, c.value, c.min, c.max)) == vars
}

/// What a device-information event must read as.
pub open spec fn is_dev_info_event(
    e: DeviceEvent,
    d: Seq<char>,
    info: (Seq<char>, Seq<char>, u64),
) -> bool {
    e matches DeviceEvent::Esp32DeviceInfo { device_id, device_name, firmware_version, uptime }
        && device_id@ == d
        && (device_name matches Some(n) && n@ == info.0)
        && (firmware_version matches Some(f) && f@ == info.1)
        && uptime == Some(info.2)
}

/// What a variable-update event must read as.
pub open spec fn is_var_update_event(
    e: DeviceEvent,
    d: Seq<char>,
    item: (Seq<char>, Seq<char>, Option<u64>, Option<u64>),
) -> bool {
    e matches DeviceEvent::Esp32VariableUpdate {
        device_id, variable_name, variable_value, min, max,
    }
        && device_id@ == d
        && variable_name@ == item.0
        && variable_value@ == item.1
        && min == item.2
        && max == item.3
}

/// Parse the structured shapes of one payload tree into events, in the
/// fixed order: start options, changeable variables, device information,
/// then single-variable updates.
pub fn parse_structured(v: &JsonVal, device_id: &str) -> (r: Vec<DeviceEvent>)
    ensures
        ({
            let sos = spec_start_options(*v);
            let cvs = spec_change_vars(*v);
            let din = spec_dev_info(*v);
            let svs = spec_single_vars(*v);
            let n0: int = if sos.len() > 0 { 1int } else { 0int };
            let n1: int = if cvs.len() > 0 { 1int } else { 0int };
            let n2: int = if din is Some { 1int } else { 0int };
            &&& r@.len() == n0 + n1 + n2 + svs.len()
            &&& (sos.len() > 0 ==> is_start_options_event(r@[0], device_id@, sos))
            &&& (cvs.len() > 0 ==> is_change_vars_event(r@[n0], device_id@, cvs))
            &&& (din matches Some(info) ==> is_dev_info_event(r@[n0 + n1], device_id@, info))
            &&& forall|k: int| 0 <= k < svs.len()
                ==> is_var_update_event(r@[n0 + n1 + n2 + k], device_id@, svs[k])
        }),
{
    proof {
        reveal_strlit("startOptions");
        reveal_strlit("changeableVariables");
        reveal_strlit("deviceName");
        reveal_strlit("firmwareVersion");
        reveal_strlit("uptime");
        reveal_strlit("unknown");
        reveal_strlit("min");
        reveal_strlit("max");
        reveal_strlit("device_id");
        reveal_strlit("status");
        reveal_strlit("name");
        reveal_strlit("value");
    }
    let mut out: Vec<DeviceEvent> = Vec::new();

    // Start options.
    let fields = match v {
        JsonVal::Obj(fields) => fields,
        _ => {
            return out;
        }
    };
    match crate::json::obj_get(fields, "startOptions") {
        Some(JsonVal::Arr(a)) => {
            let opts = collect_strings(a);
            if opts.len() > 0 {
                out.push(DeviceEvent::Esp32StartOptions {
                    device_id: device_id.to_owned(),
                    options: opts,
                });
            }
        }
        _ => {}
    }

    // Changeable variables.
    match crate::json::obj_get(fields, "changeableVariables") {
        Some(JsonVal::Arr(a)) => {
            let vars = collect_change_vars(a);
            if vars.len() > 0 {
                out.push(DeviceEvent::Esp32ChangeableVariables {
                    device_id: device_id.to_owned(),
                    variables: vars,
                });
            }
        }
        _ => {}
    }

    // Device information.
    match crate::json::obj_get(fields, "deviceName") {
        Some(JsonVal::Str(n)) => {
            let fw: String = match crate::json::obj_get(fields, "firmwareVersion") {
                Some(JsonVal::Str(f)) => f.clone(),
                _ => "unknown".to_owned(),
            };
            let up: u64 = match crate::json::obj_get(fields, "uptime") {
                Some(JsonVal::UInt(u)) => *u % 0x100000000,
                _ => 0,
            };
            out.push(DeviceEvent::Esp32DeviceInfo {
                device_id: device_id.to_owned(),
                device_name: Some(n.clone()),
                firmware_version: Some(fw),
                uptime: Some(up),
            });
        }
        _ => {}
    }

    // Single-variable updates, taken only when the payload carries bounds.
    let has_min = crate::json::obj_get(fields, "min").is_some();
    let has_max = crate::json::obj_get(fields, "max").is_some();
    if has_min || has_max {
        let minv: Option<u64> = match crate::json::obj_get(fields, "min") {
            Some(JsonVal::UInt(u)) => Some(*u),
            _ => None,
        };
        let maxv: Option<u64> = match crate::json::obj_get(fields, "max") {
            Some(JsonVal::UInt(u)) => Some(*u),
            _ => None,
        };
        let mut sv_events = collect_single_vars(fields, minv, maxv, device_id);
        let ghost pre = out@;
        let ghost svl = sv_events@;
        out.append(&mut sv_events);
        proof {
            assert(out@ =~= pre + svl);
            assert(forall|k: int| 0 <= k < pre.len() ==> out@[k] == pre[k]);
            assert(forall|k: int| 0 <= k < svl.len() ==> out@[pre.len() + k] == svl[k]);
        }
    }
    out
}

/// Collect the single-variable updates of an object's fields.
fn collect_single_vars(
    fields: &Vec<(String, JsonVal)>,
    minv: Option<u64>,
    maxv: Option<u64>,
    device_id: &str,
) -> (r: Vec<DeviceEvent>)
    ensures
        r@.len() == sv_list(fields@, minv, maxv).len(),
        forall|k: int| 0 <= k < r@.len()
            ==> is_var_update_event(r@[k], device_id@, sv_list(fields@, minv, maxv)[k]),
{
    proof {
        reveal_strlit("min");
        reveal_strlit("max");
        reveal_strlit("device_id");
        reveal_strlit("startOptions");
        reveal_strlit("changeableVariables");
        reveal_strlit("deviceName");
        reveal_strlit("firmwareVersion");
        reveal_strlit("uptime");
        reveal_strlit("status");
    }
    let mut out: Vec<DeviceEvent> = Vec::new();
    let mut i: usize = 0;
    while i < fields.len()
        invariant
            i <= fields@.len(),
            out@.len() == sv_list(fields@.take(i as int), minv, maxv).len(),
            forall|k: int| 0 <= k < out@.len()
                ==> is_var_update_event(
                    out@[k],
                    device_id@,
                    sv_list(fields@.take(i as int), minv, maxv)[k],
                ),
        decreases fields@.len() - i,
    {
        proof {
            assert(fields@.take(i + 1).drop_last() =~= fields@.take(i as int));
            assert(fields@.take(i + 1).last() == fields@[i as int]);
        }
        let key = &fields[i].0;
        let skip = str_eq(key.as_str(), "min") || str_eq(key.as_str(), "max")
            || str_eq(key.as_str(), "device_id")
            || str_eq(key.as_str(), "startOptions")
            || str_eq(key.as_str(), "changeableVariables")
            || str_eq(key.as_str(), "deviceName")
            || str_eq(key.as_str(), "firmwareVersion")
            || str_eq(key.as_str(), "uptime") || str_eq(key.as_str(), "status");
        if !skip {
            match prim_text_exec(&fields[i].1) {
                Some(t) => {
                    out.push(DeviceEvent::Esp32VariableUpdate {
                        device_id: device_id.to_owned(),
                        variable_name: key.clone(),
                        variable_value: t,
                        min: minv,
                        max: maxv,
                    });
                }
                None => {}
            }
        }
        i += 1;
    }
    proof {
        assert(fields@.take(fields@.len() as int) =~= fields@);
    }
    out
}

/// The text a primitive value reads as, executably.
pub fn prim_text_exec(v: &JsonVal) -> (r: Option<String>)
    ensures
        match r {
            Some(t) => prim_text(*v) == Some(t@),
            None => prim_text(*v) is None,
        },
{
    match v {
        JsonVal::Str(s) => Some(s.clone()),
        JsonVal::UInt(u) => Some(u64_to_string(*u)),
        JsonVal::Int(i) => Some(i64_to_string(*i)),
        JsonVal::NumText(t) => Some(t.clone()),
        _ => None,
    }
}

/// Collect the string elements of an array.
fn collect_strings(a: &Vec<JsonVal>) -> (r: Vec<String>)
    ensures
        r@.map_values(|s: String| s@) == str_views(a@),
{
    let mut out: Vec<String> = Vec::new();
    let mut i: usize = 0;
    while i < a.len()
        invariant
            i <= a@.len(),
            out@.map_values(|s: String| s@) == str_views(a@.take(i as int)),
        decreases a@.len() - i,
    {
        proof {
            assert(a@.take(i + 1).drop_last() =~= a@.take(i as int));
            assert(a@.take(i + 1).last() == a@[i as int]);
        }
        match &a[i] {
            JsonVal::Str(s) => {
                let ghost pre = out@;
                out.push(s.clone());
                proof {
                    assert(out@.map_values(|s2: String| s2@)
                        =~= pre.map_values(|s2: String| s2@).push(a@[i as int]->Str_0@));
                }
            }
            _ => {}
        }
        i += 1;
    }
    proof {
        assert(a@.take(a@.len() as int) =~= a@);
    }
    out
}

/// Collect the well-formed changeable variables of an array.
fn collect_change_vars(a: &Vec<JsonVal>) -> (r: Vec<ChangeableVariable>)
    ensures
        r@.map_values(|c: ChangeableVariable| (c.name@, c.value, c.min, c.max)) == cv_items(a@),
{
    proof {
        reveal_strlit("name");
        reveal_strlit("value");
        reveal_strlit("min");
        reveal_strlit("max");
    }
    let mut out: Vec<ChangeableVariable> = Vec::new();
    let mut i: usize = 0;
    while i < a.len()
        invariant
            i <= a@.len(),
            out@.map_values(|c: ChangeableVariable| (c.name@, c.value, c.min, c.max))
                == cv_items(a@.take(i as int)),
        decreases a@.len() - i,
    {
        proof {
            assert(a@.take(i + 1).drop_last() =~= a@.take(i as int));
            assert(a@.take(i + 1).last() == a@[i as int]);
        }
        let item = &a[i];
        let extracted: Option<ChangeableVariable> = match item {
            JsonVal::Obj(o) => {
                let name = match crate::json::obj_get(o, "name") {
                    Some(JsonVal::Str(n)) => Some(n.clone()),
                    _ => None,
                };
                match name {
                    Some(n) => match crate::json::obj_get(o, "value") {
                        Some(JsonVal::UInt(u)) => {
                            let minv: Option<u64> = match crate::json::obj_get(o, "min") {
                                Some(JsonVal::UInt(m)) => Some(*m),
                                _ => None,
                            };
                            let maxv: Option<u64> = match crate::json::obj_get(o, "max") {
                                Some(JsonVal::UInt(m)) => Some(*m),
                                _ => None,
                            };
                            Some(ChangeableVariable { name: n, value: *u, min: minv, max: maxv })
                        }
                        _ => None,
                    },
                    None => None,
                }
            }
            _ => None,
        };
        match extracted {
            Some(cv) => {
                let ghost pre = out@;
                let ghost t = cv_item(a@[i as int]);
                out.push(cv);
                proof {
                    assert(out@.map_values(|c: ChangeableVariable| (c.name@, c.value, c.min, c.max))
                        =~= pre.map_values(|c: ChangeableVariable| (c.name@, c.value, c.min, c.max))
                            .push(t->0));
                }
            }
            None => {
                proof {
                    assert(cv_item(a@[i as int]) is None);
                }
            }
        }
        i += 1;
    }
    proof {
        assert(a@.take(a@.len() as int) =~= a@);
    }
    out
}

// ----------------------------------------------------------------------------
// The key-value fallback scan
// ----------------------------------------------------------------------------

/// Whitespace as the fallback patterns accept it between the key and the
/// value.
pub open spec fn kv_ws(b: u8) -> bool {
    b == 32 || b == 9 || b == 10 || b == 13 || b == 12 || b == 11
}

/// An ASCII decimal digit.
pub open spec fn is_digit(b: u8) -> bool {
    48 <= b <= 57
}

/// The first non-whitespace position at or after `i`.
pub open spec fn skip_ws_idx(s: Seq<u8>, i: int) -> int
    decreases s.len() - i when 0 <= i <= s.len()
{
    if i >= s.len() {
        i
    } else if kv_ws(s[i]) {
        skip_ws_idx(s, i + 1)
    } else {
        i
    }
}

/// The first non-digit position at or after `i`.
pub open spec fn digits_end(s: Seq<u8>, i: int) -> int
    decreases s.len() - i when 0 <= i <= s.len()
{
    if i >= s.len() {
        i
    } else if is_digit(s[i]) {
        digits_end(s, i + 1)
    } else {
        i
    }
}

proof fn lemma_skip_ws_bounds(s: Seq<u8>, i: int)
    requires
        0 <= i <= s.len(),
    ensures
        i <= skip_ws_idx(s, i) <= s.len(),
    decreases s.len() - i,
{
    if i < s.len() && kv_ws(s[i]) {
        lemma_skip_ws_bounds(s, i + 1);
    }
}

proof fn lemma_digits_end_bounds(s: Seq<u8>, i: int)
    requires
        0 <= i <= s.len(),
    ensures
        i <= digits_end(s, i) <= s.len(),
    decreases s.len() - i,
{
    if i < s.len() && is_digit(s[i]) {
        lemma_digits_end_bounds(s, i + 1);
    }
}

/// A fallback pair matched at position `i`, in the exact shape of one of
/// the two patterns `{"name":"value"}` and `{"name":digits}` with optional
/// whitespace around the colon: the name bytes, the value bytes, whether
/// the value was numeric, and the position right after the closing brace.
pub open spec fn kv_match_at(s: Seq<u8>, i: int) -> Option<(Seq<u8>, Seq<u8>, bool, int)> {
    if !(0 <= i && i + 1 < s.len() && s[i] == 123 && s[i + 1] == 34) {
        None
    } else {
        match crate::framing::find_byte(s, 34, i + 2) {
            None => None,
            Some(q) => if q == i + 2 {
                None
            } else {
                let c = skip_ws_idx(s, q + 1);
                if c < s.len() && s[c] == 58 {
                    let v0 = skip_ws_idx(s, c + 1);
                    if v0 < s.len() && s[v0] == 34 {
                        match crate::framing::find_byte(s, 34, v0 + 1) {
                            None => None,
                            Some(vq) => if vq == v0 + 1 {
                                None
                            } else if vq + 1 < s.len() && s[vq + 1] == 125 {
                                Some((s.subrange(i + 2, q), s.subrange(v0 + 1, vq), false, vq + 2))
                            } else {
                                None
                            },
                        }
                    } else if v0 < s.len() && is_digit(s[v0]) {
                        let de = digits_end(s, v0);
                        if de < s.len() && s[de] == 125 {
                            Some((s.subrange(i + 2, q), s.subrange(v0, de), true, de + 1))
                        } else {
                            None
                        }
                    } else {
                        None
                    }
                } else {
                    None
                }
            },
        }
    }
}

/// A match begins after its opening brace and ends within the buffer.
proof fn lemma_kv_match_bounds(s: Seq<u8>, i: int)
    requires
        0 <= i <= s.len(),
    ensures
        match kv_match_at(s, i) {
            Some(m) => i < m.3 <= s.len(),
            None => true,
        },
{
    if 0 <= i && i + 1 < s.len() && s[i] == 123 && s[i + 1] == 34 {
        crate::framing::lemma_find_byte(s, 34, i + 2);
        match crate::framing::find_byte(s, 34, i + 2) {
            None => {}
            Some(q) => {
                if q != i + 2 {
                    lemma_skip_ws_bounds(s, q + 1);
                    let c = skip_ws_idx(s, q + 1);
                    if c < s.len() && s[c] == 58 {
                        lemma_skip_ws_bounds(s, c + 1);
                        let v0 = skip_ws_idx(s, c + 1);
                        if v0 < s.len() && s[v0] == 34 {
                            crate::framing::lemma_find_byte(s, 34, v0 + 1);
                        } else if v0 < s.len() && is_digit(s[v0]) {
                            lemma_digits_end_bounds(s, v0);
                        }
                    }
                }
            }
        }
    }
}

/// Every fallback pair in the buffer, left to right and non-overlapping:
/// the scan resumes right after each match.
pub open spec fn kv_scan(s: Seq<u8>, i: int) -> Seq<(Seq<u8>, Seq<u8>, bool)>
    decreases s.len() - i when 0 <= i <= s.len()
    via kv_scan_decreases
{
    if i >= s.len() {
        Seq::empty()
    } else {
        match kv_match_at(s, i) {
            Some(m) => seq![(m.0, m.1, m.2)] + kv_scan(s, m.3),
            None => kv_scan(s, i + 1),
        }
    }
}

#[via_fn]
proof fn kv_scan_decreases(s: Seq<u8>, i: int) {
    lemma_kv_match_bounds(s, i);
}

/// Strip leading whitespace.
pub open spec fn ltrim(s: Seq<u8>) -> Seq<u8>
    decreases s.len(),
{
    if s.len() > 0 && kv_ws(s[0]) {
        ltrim(s.drop_first())
    } else {
        s
    }
}

/// Strip trailing whitespace.
pub open spec fn rtrim(s: Seq<u8>) -> Seq<u8>
    decreases s.len(),
{
    if s.len() > 0 && kv_ws(s.last()) {
        rtrim(s.drop_last())
    } else {
        s
    }
}

/// Strip whitespace from both ends, as the fallback pass trims captures.
pub open spec fn trim_bytes(s: Seq<u8>) -> Seq<u8> {
    rtrim(ltrim(s))
}

/// The key names the string-pair pass leaves alone.
pub open spec fn kv_str_skip(n: Seq<char>) -> bool {
    ||| n == "deviceName"@
    ||| n == "firmwareVersion"@
    ||| n == "name"@
    ||| n == "value"@
}

/// The key names the numeric-pair pass leaves alone.
pub open spec fn kv_num_skip(n: Seq<char>) -> bool {
    ||| n == "uptime"@
    ||| n == "value"@
}

/// The trimmed, decoded name and value of one match.
pub open spec fn kv_decoded(m: (Seq<u8>, Seq<u8>, bool)) -> (Seq<char>, Seq<char>) {
    (
        crate::strutil::lossy_of(trim_bytes(m.0)),
        crate::strutil::lossy_of(trim_bytes(m.1)),
    )
}

/// The string pairs the fallback pass keeps, in match order.
pub open spec fn kv_str_pairs(ms: Seq<(Seq<u8>, Seq<u8>, bool)>) -> Seq<(Seq<char>, Seq<char>)>
    decreases ms.len(),
{
    if ms.len() == 0 {
        Seq::empty()
    } else {
        let pre = kv_str_pairs(ms.drop_last());
        let m = ms.last();
        if !m.2 && !kv_str_skip(kv_decoded(m).0) {
            pre.push(kv_decoded(m))
        } else {
            pre
        }
    }
}

/// The numeric pairs the fallback pass keeps, in match order.
pub open spec fn kv_num_pairs(ms: Seq<(Seq<u8>, Seq<u8>, bool)>) -> Seq<(Seq<char>, Seq<char>)>
    decreases ms.len(),
{
    if ms.len() == 0 {
        Seq::empty()
    } else {
        let pre = kv_num_pairs(ms.drop_last());
        let m = ms.last();
        if m.2 && !kv_num_skip(kv_decoded(m).0) {
            pre.push(kv_decoded(m))
        } else {
            pre
        }
    }
}

/// Every variable update the fallback pass yields for a message: its string
/// pairs, then its numeric pairs.
pub open spec fn spec_kv_pairs(s: Seq<u8>) -> Seq<(Seq<char>, Seq<char>)> {
    kv_str_pairs(kv_scan(s, 0)) + kv_num_pairs(kv_scan(s, 0))
}

/// The first non-whitespace position, executably.
fn skip_ws_vec(s: &Vec<u8>, i: usize) -> (r: usize)
    requires
        i <= s@.len(),
    ensures
        r == skip_ws_idx(s@, i as int),
        i <= r <= s@.len(),
{
    let mut j: usize = i;
    while j < s.len() && is_kv_ws(s[j])
        invariant
            i <= j <= s@.len(),
            skip_ws_idx(s@, i as int) == skip_ws_idx(s@, j as int),
        decreases s@.len() - j,
    {
        j += 1;
    }
    j
}

/// The first non-digit position, executably.
fn digits_end_vec(s: &Vec<u8>, i: usize) -> (r: usize)
    requires
        i <= s@.len(),
    ensures
        r == digits_end(s@, i as int),
        i <= r <= s@.len(),
{
    let mut j: usize = i;
    while j < s.len() && 48 <= s[j] && s[j] <= 57
        invariant
            i <= j <= s@.len(),
            digits_end(s@, i as int) == digits_end(s@, j as int),
        decreases s@.len() - j,
    {
        j += 1;
    }
    j
}

/// Whitespace test for the fallback pass.
fn is_kv_ws(b: u8) -> (r: bool)
    ensures
        r == kv_ws(b),
{
    b == 32 || b == 9 || b == 10 || b == 13 || b == 12 || b == 11
}

/// Try to match one fallback pair at `i`, executably.
fn kv_match_at_vec(s: &Vec<u8>, i: usize) -> (r: Option<(Vec<u8>, Vec<u8>, bool, usize)>)
    requires
        i <= s@.len(),
    ensures
        match r {
            Some(m) => kv_match_at(s@, i as int) == Some((m.0@, m.1@, m.2, m.3 as int))
                && i < m.3 <= s@.len(),
            None => kv_match_at(s@, i as int) is None,
        },
{
    proof {
        lemma_kv_match_bounds(s@, i as int);
    }
    let n = s.len();
    if i >= n {
        return None;
    }
    if !(i + 1 < n && s[i] == 123 && s[i + 1] == 34) {
        return None;
    }
    let q = match crate::framing::find_byte_vec(s, 34, i + 2) {
        Some(q) => q,
        None => {
            return None;
        }
    };
    proof {
        crate::framing::lemma_find_byte(s@, 34, i + 2);
    }
    if q == i + 2 {
        return None;
    }
    let c = skip_ws_vec(s, q + 1);
    if !(c < s.len() && s[c] == 58) {
        return None;
    }
    let v0 = skip_ws_vec(s, c + 1);
    if v0 < s.len() && s[v0] == 34 {
        let vq = match crate::framing::find_byte_vec(s, 34, v0 + 1) {
            Some(vq) => vq,
            None => {
                return None;
            }
        };
        proof {
            crate::framing::lemma_find_byte(s@, 34, v0 + 1);
        }
        if vq == v0 + 1 {
            return None;
        }
        if vq + 1 < s.len() && s[vq + 1] == 125 {
            let name = crate::framing::vec_subrange(s, i + 2, q);
            let value = crate::framing::vec_subrange(s, v0 + 1, vq);
            return Some((name, value, false, vq + 2));
        }
        return None;
    }
    if v0 < s.len() && 48 <= s[v0] && s[v0] <= 57 {
        let de = digits_end_vec(s, v0);
        if de < s.len() && s[de] == 125 {
            let name = crate::framing::vec_subrange(s, i + 2, q);
            let value = crate::framing::vec_subrange(s, v0, de);
            return Some((name, value, true, de + 1));
        }
        return None;
    }
    None
}

/// Scan the whole buffer for fallback pairs, executably.
pub fn kv_scan_vec(s: &Vec<u8>) -> (r: Vec<(Vec<u8>, Vec<u8>, bool)>)
    ensures
        r@.map_values(|m: (Vec<u8>, Vec<u8>, bool)| (m.0@, m.1@, m.2)) == kv_scan(s@, 0),
{
    let mut out: Vec<(Vec<u8>, Vec<u8>, bool)> = Vec::new();
    let mut i: usize = 0;
    while i < s.len()
        invariant
            i <= s@.len(),
            kv_scan(s@, 0) =~= out@.map_values(|m: (Vec<u8>, Vec<u8>, bool)| (m.0@, m.1@, m.2))
                + kv_scan(s@, i as int),
        decreases s@.len() - i,
    {
        match kv_match_at_vec(s, i) {
            Some(m) => {
                let ghost pre = out@;
                let ghost gm = (m.0@, m.1@, m.2);
                let ghost e = m.3 as int;
                let end = m.3;
                out.push((m.0, m.1, m.2));
                proof {
                    assert(kv_scan(s@, i as int) =~= seq![gm] + kv_scan(s@, e));
                    assert(out@.map_values(|x: (Vec<u8>, Vec<u8>, bool)| (x.0@, x.1@, x.2))
                        =~= pre.map_values(|x: (Vec<u8>, Vec<u8>, bool)| (x.0@, x.1@, x.2))
                            .push(gm));
                }
                i = end;
            }
            None => {
                i += 1;
            }
        }
    }
    out
}

/// Trim whitespace off both ends of a byte run, executably.
pub fn trim_vec(v: &Vec<u8>) -> (r: Vec<u8>)
    ensures
        r@ == trim_bytes(v@),
{
    let mut l: usize = 0;
    assert(v@.skip(0) =~= v@);
    while l < v.len() && is_kv_ws(v[l])
        invariant
            l <= v@.len(),
            ltrim(v@) == ltrim(v@.skip(l as int)),
        decreases v@.len() - l,
    {
        proof {
            assert(v@.skip(l as int).drop_first() =~= v@.skip(l + 1));
            assert(v@.skip(l as int)[0] == v@[l as int]);
        }
        l += 1;
    }
    proof {
        if l < v@.len() {
            assert(v@.skip(l as int)[0] == v@[l as int]);
        }
        assert(ltrim(v@) == v@.skip(l as int));
    }
    let mut r: usize = v.len();
    proof {
        assert(v@.subrange(l as int, r as int) =~= v@.skip(l as int));
    }
    while r > l && is_kv_ws(v[r - 1])
        invariant
            l <= r <= v@.len(),
            rtrim(ltrim(v@)) == rtrim(v@.subrange(l as int, r as int)),
        decreases r,
    {
        proof {
            assert(v@.subrange(l as int, r as int).drop_last()
                =~= v@.subrange(l as int, r - 1));
            assert(v@.subrange(l as int, r as int).last() == v@[r - 1]);
        }
        r -= 1;
    }
    proof {
        if r > l {
            assert(v@.subrange(l as int, r as int).last() == v@[r - 1]);
        }
        assert(rtrim(v@.subrange(l as int, r as int)) == v@.subrange(l as int, r as int));
    }
    crate::framing::vec_subrange(v, l, r)
}

/// The fallback variable updates of one message: string pairs first, then
/// numeric pairs, each named and valued by its trimmed capture.
pub fn kv_fallback_events(message: &str, device_id: &str) -> (r: Vec<DeviceEvent>)
    ensures
        r@.len() == spec_kv_pairs(message.spec_bytes()).len(),
        forall|k: int| 0 <= k < r@.len() ==> is_var_update_event(
            r@[k],
            device_id@,
            (
                spec_kv_pairs(message.spec_bytes())[k].0,
                spec_kv_pairs(message.spec_bytes())[k].1,
                None::<u64>,
                None::<u64>,
            ),
        ),
{
    proof {
        reveal_strlit("deviceName");
        reveal_strlit("firmwareVersion");
        reveal_strlit("name");
        reveal_strlit("value");
        reveal_strlit("uptime");
    }
    let bytes = message.as_bytes_vec();
    let matches = kv_scan_vec(&bytes);
    let ghost ms = kv_scan(bytes@, 0);
    let mut out: Vec<DeviceEvent> = Vec::new();

    // String pairs.
    let mut i: usize = 0;
    while i < matches.len()
        invariant
            i <= matches@.len(),
            matches@.map_values(|m: (Vec<u8>, Vec<u8>, bool)| (m.0@, m.1@, m.2)) == ms,
            ms == kv_scan(bytes@, 0),
            bytes@ == message.spec_bytes(),
            out@.len() == kv_str_pairs(ms.take(i as int)).len(),
            forall|k: int| 0 <= k < out@.len() ==> is_var_update_event(
                out@[k],
                device_id@,
                (
                    kv_str_pairs(ms.take(i as int))[k].0,
                    kv_str_pairs(ms.take(i as int))[k].1,
                    None::<u64>,
                    None::<u64>,
                ),
            ),
        decreases matches@.len() - i,
    {
        proof {
            assert(ms.take(i + 1).drop_last() =~= ms.take(i as int));
            assert(ms.take(i + 1).last() == ms[i as int]);
        }
        let m = &matches[i];
        if !m.2 {
            let name = crate::strutil::bytes_to_string_lossy(&trim_vec(&m.0));
            let skip = str_eq(name.as_str(), "deviceName")
                || str_eq(name.as_str(), "firmwareVersion")
                || str_eq(name.as_str(), "name") || str_eq(name.as_str(), "value");
            if !skip {
                let value = crate::strutil::bytes_to_string_lossy(&trim_vec(&m.1));
                out.push(DeviceEvent::Esp32VariableUpdate {
                    device_id: device_id.to_owned(),
                    variable_name: name,
                    variable_value: value,
                    min: None,
                    max: None,
                });
            }
        }
        i += 1;
    }
    proof {
        assert(ms.take(ms.len() as int) =~= ms);
    }

    // Numeric pairs.
    let ghost base = out@.len() as int;
    let ghost str_part = out@;
    let mut nout: Vec<DeviceEvent> = Vec::new();
    let mut j: usize = 0;
    while j < matches.len()
        invariant
            j <= matches@.len(),
            matches@.map_values(|m: (Vec<u8>, Vec<u8>, bool)| (m.0@, m.1@, m.2)) == ms,
            ms == kv_scan(bytes@, 0),
            bytes@ == message.spec_bytes(),
            nout@.len() == kv_num_pairs(ms.take(j as int)).len(),
            forall|k: int| 0 <= k < nout@.len() ==> is_var_update_event(
                nout@[k],
                device_id@,
                (
                    kv_num_pairs(ms.take(j as int))[k].0,
                    kv_num_pairs(ms.take(j as int))[k].1,
                    None::<u64>,
                    None::<u64>,
                ),
            ),
        decreases matches@.len() - j,
    {
        proof {
            assert(ms.take(j + 1).drop_last() =~= ms.take(j as int));
            assert(ms.take(j + 1).last() == ms[j as int]);
        }
        let m = &matches[j];
        if m.2 {
            let name = crate::strutil::bytes_to_string_lossy(&trim_vec(&m.0));
            let skip = str_eq(name.as_str(), "uptime") || str_eq(name.as_str(), "value");
            if !skip {
                let value = crate::strutil::bytes_to_string_lossy(&trim_vec(&m.1));
                nout.push(DeviceEvent::Esp32VariableUpdate {
                    device_id: device_id.to_owned(),
                    variable_name: name,
                    variable_value: value,
                    min: None,
                    max: None,
                });
            }
        }
        j += 1;
    }
    proof {
        assert(ms.take(ms.len() as int) =~= ms);
    }
    let ghost num_part = nout@;
    out.append(&mut nout);
    proof {
        assert(out@ =~= str_part + num_part);
    }
    out
}

} // verus!