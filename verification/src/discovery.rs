//! Network discovery rules: which resolved services count as edge nodes,
//! how a MAC address becomes the canonical device id, and the cache of
//! discovered devices with its first-time-only announcement.

use vstd::prelude::*;
use vstd::string::StringSliceAdditionalSpecFns;
use crate::alist::AList;
use crate::events::DeviceEvent;
use crate::manager::{contains_seq, contains_sub};
use crate::strutil::str_eq;
use crate::types::Esp32DeviceConfig;

verus! {

/// What `str::to_lowercase` maps a text to: a function of the characters
/// alone.
pub uninterp spec fn lower_of(s: Seq<char>) -> Seq<char>;

/// Relies on `str::to_lowercase`: the result depends on the characters
/// alone.
#[verifier::external_body]
pub fn lowercase(s: &str) -> (r: String)
    ensures
        r@ == lower_of(s@),
{
    s.to_lowercase()
}

/// One resolved service, reduced to plain values: its hostname, addresses,
/// port and TXT records.
pub struct MdnsEsp32Device {
    pub hostname: String,
    pub ip_addresses: Vec<String>,
    pub port: u16,
    pub txt_records: Vec<(String, String)>,
    pub service_name: String,
}

/// Whether any TXT record carries one of the MAC keys.
pub open spec fn spec_has_mac_key(txt: Seq<(String, String)>) -> bool {
    exists|i: int| 0 <= i < txt.len()
        && (#[trigger] txt[i].0@ == "mac"@ || txt[i].0@ == "MAC"@
            || txt[i].0@ == "macAddress"@)
}

/// Whether a lower-cased text names one of the edge-node families.
pub open spec fn spec_names_edge_family(lower_bytes: Seq<u8>) -> bool {
    ||| contains_seq(lower_bytes, ("esp32").spec_bytes())
    ||| contains_seq(lower_bytes, ("esp").spec_bytes())
    ||| contains_seq(lower_bytes, ("arduino").spec_bytes())
    ||| contains_seq(lower_bytes, ("nodemcu").spec_bytes())
    ||| contains_seq(lower_bytes, ("wemos").spec_bytes())
    ||| contains_seq(lower_bytes, ("devkit").spec_bytes())
}

/// Whether a lower-cased TXT value names an edge-node maker.
pub open spec fn spec_value_names_maker(lower_bytes: Seq<u8>) -> bool {
    ||| contains_seq(lower_bytes, ("esp32").spec_bytes())
    ||| contains_seq(lower_bytes, ("arduino").spec_bytes())
    ||| contains_seq(lower_bytes, ("espressif").spec_bytes())
}

/// The acceptance rule for a resolved service: never the gateway's own
/// advertisement; a MAC TXT record is required; the `arduino` service type
/// always passes; otherwise the hostname must name an edge family or some
/// TXT value an edge maker.
pub open spec fn spec_is_esp32_device(
    hostname: Seq<char>,
    txt: Seq<(String, String)>,
    service_type: Seq<char>,
) -> bool {
    let hl = vstd::utf8::encode_utf8(lower_of(hostname));
    if contains_seq(hl, ("esp-server").spec_bytes()) {
        false
    } else if !spec_has_mac_key(txt) {
        false
    } else if service_type == "arduino"@ {
        true
    } else {
        spec_names_edge_family(hl)
            || exists|i: int| 0 <= i < txt.len()
                && spec_value_names_maker(
                    vstd::utf8::encode_utf8(lower_of(#[trigger] txt[i].1@)),
                )
    }
}

/// Apply the acceptance rule to a resolved service.
pub fn is_esp32_device(
    hostname: &str,
    txt_records: &Vec<(String, String)>,
    service_type: &str,
) -> (r: bool)
    ensures
        r == spec_is_esp32_device(hostname@, txt_records@, service_type@),
{
    let hl = lowercase(hostname);
    let hl_bytes = hl.as_str().as_bytes_vec();
    proof {
        assert(hl_bytes@ == vstd::utf8::encode_utf8(lower_of(hostname@)));
    }
    if contains_sub(hl_bytes.as_slice(), "esp-server".as_bytes()) {
        proof {
            assert(!spec_is_esp32_device(hostname@, txt_records@, service_type@));
        }
        return false;
    }
    let mut has_mac = false;
    let mut i: usize = 0;
    while i < txt_records.len()
        invariant
            i <= txt_records@.len(),
            has_mac == exists|j: int| 0 <= j < i
                && (#[trigger] txt_records@[j].0@ == "mac"@
                    || txt_records@[j].0@ == "MAC"@
                    || txt_records@[j].0@ == "macAddress"@),
        decreases txt_records@.len() - i,
    {
        let k = &txt_records[i].0;
        if str_eq(k.as_str(), "mac") || str_eq(k.as_str(), "MAC")
            || str_eq(k.as_str(), "macAddress") {
            has_mac = true;
        }
        i += 1;
    }
    if !has_mac {
        proof {
            assert(!spec_has_mac_key(txt_records@));
        }
        return false;
    }
    if str_eq(service_type, "arduino") {
        proof {
            assert(spec_is_esp32_device(hostname@, txt_records@, service_type@));
        }
        return true;
    }
    let host_matches = contains_sub(hl_bytes.as_slice(), "esp32".as_bytes())
        || contains_sub(hl_bytes.as_slice(), "esp".as_bytes())
        || contains_sub(hl_bytes.as_slice(), "arduino".as_bytes())
        || contains_sub(hl_bytes.as_slice(), "nodemcu".as_bytes())
        || contains_sub(hl_bytes.as_slice(), "wemos".as_bytes())
        || contains_sub(hl_bytes.as_slice(), "devkit".as_bytes());
    if host_matches {
        proof {
            assert(spec_is_esp32_device(hostname@, txt_records@, service_type@));
        }
        return true;
    }
    let mut j: usize = 0;
    while j < txt_records.len()
        invariant
            j <= txt_records@.len(),
            !contains_seq(
                vstd::utf8::encode_utf8(lower_of(hostname@)),
                ("esp-server").spec_bytes(),
            ),
            spec_has_mac_key(txt_records@),
            service_type@ != "arduino"@,
            !spec_names_edge_family(vstd::utf8::encode_utf8(lower_of(hostname@))),
            forall|m: int| 0 <= m < j ==> !spec_value_names_maker(
                vstd::utf8::encode_utf8(lower_of(#[trigger] txt_records@[m].1@)),
            ),
        decreases txt_records@.len() - j,
    {
        let vl = lowercase(txt_records[j].1.as_str());
        let vb = vl.as_str().as_bytes_vec();
        proof {
            assert(vb@ == vstd::utf8::encode_utf8(lower_of(txt_records@[j as int].1@)));
        }
        if contains_sub(vb.as_slice(), "esp32".as_bytes())
            || contains_sub(vb.as_slice(), "arduino".as_bytes())
            || contains_sub(vb.as_slice(), "espressif".as_bytes()) {
            return true;
        }
        j += 1;
    }
    false
}

/// A colon byte becomes a dash; everything else stays.
pub open spec fn dash_byte(b: u8) -> u8 {
    if b == 58 {
        45
    } else {
        b
    }
}

/// Canonicalise a MAC address: the colon separators become dashes.
pub fn mac_to_dash(mac: &str) -> (r: String)
    ensures
        r@ == crate::strutil::lossy_of(mac.spec_bytes().map_values(|b: u8| dash_byte(b))),
{
    let bytes = mac.as_bytes_vec();
    let mut out: Vec<u8> = Vec::new();
    let mut i: usize = 0;
    while i < bytes.len()
        invariant
            i <= bytes@.len(),
            out@ =~= bytes@.take(i as int).map_values(|b: u8| dash_byte(b)),
        decreases bytes@.len() - i,
    {
        let b = bytes[i];
        out.push(if b == 58 { 45 } else { b });
        proof {
            assert(out@ =~= bytes@.take(i + 1).map_values(|b2: u8| dash_byte(b2)));
        }
        i += 1;
    }
    proof {
        assert(bytes@.take(bytes@.len() as int) =~= bytes@);
    }
    crate::strutil::bytes_to_string_lossy(&out)
}

/// The first `mac` TXT value of a resolved service, if any.
pub open spec fn spec_first_mac(txt: Seq<(String, String)>) -> Option<String>
    decreases txt.len(),
{
    if txt.len() == 0 {
        None
    } else if txt[0].0@ == "mac"@ {
        Some(txt[0].1)
    } else {
        spec_first_mac(txt.drop_first())
    }
}

/// The first `mac` TXT value of a resolved service, if any.
pub fn mac_of(txt_records: &Vec<(String, String)>) -> (r: Option<String>)
    ensures
        r == spec_first_mac(txt_records@),
{
    let mut i: usize = 0;
    assert(txt_records@.skip(0) =~= txt_records@);
    while i < txt_records.len()
        invariant
            i <= txt_records@.len(),
            spec_first_mac(txt_records@) == spec_first_mac(txt_records@.skip(i as int)),
        decreases txt_records@.len() - i,
    {
        proof {
            assert(txt_records@.skip(i as int)[0] == txt_records@[i as int]);
            assert(txt_records@.skip(i as int).drop_first()
                =~= txt_records@.skip(i as int + 1));
        }
        if str_eq(txt_records[i].0.as_str(), "mac") {
            return Some(txt_records[i].1.clone());
        }
        i += 1;
    }
    None
}

/// The bytes of a hostname with a trailing dot removed, then a trailing
/// `.local` removed: exactly what the fallback identifier keeps.
pub open spec fn spec_stripped(b: Seq<u8>) -> Seq<u8> {
    let b1 = if b.len() > 0 && b.last() == 46 {
        b.drop_last()
    } else {
        b
    };
    if b1.len() >= 6 && b1.subrange(b1.len() - 6, b1.len() as int)
        =~= seq![46u8, 108u8, 111u8, 99u8, 97u8, 108u8] {
        b1.take(b1.len() - 6)
    } else {
        b1
    }
}

/// A hostname without its trailing dot and `.local` suffix, for the
/// fallback identifier of a device that advertised no MAC.
pub fn strip_local_suffix(hostname: &str) -> (r: String)
    ensures
        r@ == crate::strutil::lossy_of(spec_stripped(hostname.spec_bytes())),
{
    let bytes = hostname.as_bytes_vec();
    let ghost gb = bytes@;
    let mut end = bytes.len();
    if end > 0 && bytes[end - 1] == 46 {
        end -= 1;
    }
    proof {
        assert(bytes@.subrange(0, end as int) =~= (
            if gb.len() > 0 && gb.last() == 46 { gb.drop_last() } else { gb }
        ));
    }
    let ghost b1 = bytes@.subrange(0, end as int);
    // Cut a trailing `.local`, compared byte for byte.
    let mut cut = end;
    if end >= 6 {
        let m0 = bytes[end - 6] == 46;
        let m1 = bytes[end - 5] == 108;
        let m2 = bytes[end - 4] == 111;
        let m3 = bytes[end - 3] == 99;
        let m4 = bytes[end - 2] == 97;
        let m5 = bytes[end - 1] == 108;
        if m0 && m1 && m2 && m3 && m4 && m5 {
            cut = end - 6;
            proof {
                assert(b1.subrange(b1.len() - 6, b1.len() as int)
                    =~= seq![46u8, 108u8, 111u8, 99u8, 97u8, 108u8]);
                assert(bytes@.subrange(0, cut as int) =~= b1.take(b1.len() - 6));
            }
        } else {
            proof {
                assert(!(b1.subrange(b1.len() - 6, b1.len() as int)
                    =~= seq![46u8, 108u8, 111u8, 99u8, 97u8, 108u8]));
            }
        }
    }
    let head = crate::framing::vec_subrange(&bytes, 0, cut);
    proof {
        assert(head@ =~= spec_stripped(gb));
    }
    crate::strutil::bytes_to_string_lossy(&head)
}

/// A discovered device: its configuration, when it was seen, and the
/// advertised port.
pub struct DiscoveredEsp32Device {
    pub device_config: Esp32DeviceConfig,
    pub discovered_at: String,
    pub udp_port: u16,
}

/// The cache of discovered devices, keyed by device id. A device enters
/// once; later resolutions only refresh its coordinates.
pub struct DiscoveryCache {
    pub devices: AList<DiscoveredEsp32Device>,
}

impl DiscoveryCache {
    pub open spec fn wf(&self) -> bool {
        self.devices.wf()
    }

    pub fn new() -> (r: Self)
        ensures
            r.wf(),
            r.devices@.len() == 0,
    {
        DiscoveryCache { devices: AList::new() }
    }

    /// Record a device; the answer says whether it was new, which decides
    /// whether a discovery announcement goes out.
    pub fn observe(&mut self, device_id: String, entry: DiscoveredEsp32Device) -> (r: bool)
        requires
            old(self).wf(),
        ensures
            final(self).wf(),
            r == (old(self).devices.spec_get(device_id@) is None),
            final(self).devices.spec_get(device_id@) == Some(entry),
            forall|d: Seq<char>| d != device_id@
                ==> final(self).devices.spec_get(d) == old(self).devices.spec_get(d),
    {
        let was_new = !self.devices.contains_key(device_id.as_str());
        self.devices.set(device_id, entry);
        was_new
    }

    /// The cached record for a device.
    pub fn get(&self, device_id: &str) -> (r: Option<&DiscoveredEsp32Device>)
        ensures
            match r {
                Some(d) => self.devices.spec_get(device_id@) == Some(*d),
                None => self.devices.spec_get(device_id@) is None,
            },
    {
        self.devices.get(device_id)
    }
}

/// The address a resolved service is reached at: its first advertised
/// address, or the fallback placeholder when it advertised none.
pub open spec fn spec_discovered_ip(addrs: Seq<String>) -> Seq<char> {
    if addrs.len() > 0 {
        addrs[0]@
    } else {
        "192.168.1.100"@
    }
}

/// What one resolved service turns into: the canonical device id — the MAC
/// in dash form, or the stripped hostname under the serial-discovery
/// prefix when no MAC was advertised — the device's configuration at the
/// default ports, and the announcement for the reserved system stream
/// carrying the address, ports, MAC and hostname.
pub fn process_discovered(
    device: &MdnsEsp32Device,
    discovered_at: String,
) -> (r: (String, Esp32DeviceConfig, DeviceEvent))
    ensures
        r.1.device_id == r.0,
        r.1.ip_address@ == spec_discovered_ip(device.ip_addresses@),
        (match spec_first_mac(device.txt_records@) {
            Some(m) => r.0@ == crate::strutil::lossy_of(
                vstd::utf8::encode_utf8(m@).map_values(|b: u8| dash_byte(b)),
            ),
            None => r.0@ == "esp32-"@ + crate::strutil::lossy_of(
                spec_stripped(vstd::utf8::encode_utf8(device.hostname@)),
            ),
        }),
        (r.2 matches DeviceEvent::Esp32DeviceDiscovered {
            device_id, device_ip, tcp_port, udp_port, discovered_at: at, mac_address,
            mdns_hostname,
        } && {
            &&& device_id == r.0
            &&& device_ip@ == spec_discovered_ip(device.ip_addresses@)
            &&& tcp_port == 3232 && udp_port == 3232
            &&& at == discovered_at
            &&& mac_address == spec_first_mac(device.txt_records@)
            &&& (mdns_hostname matches Some(h) && h == device.hostname)
        }),
{
    let ip: String = if device.ip_addresses.len() > 0 {
        device.ip_addresses[0].clone()
    } else {
        "192.168.1.100".to_owned()
    };
    let mac = mac_of(&device.txt_records);
    let (device_id, config) = match &mac {
        Some(m) => {
            let id = mac_to_dash(m.as_str());
            let config = Esp32DeviceConfig::new_udp(id.clone(), ip.clone(), 3232);
            (id, config)
        }
        None => {
            let short = strip_local_suffix(device.hostname.as_str());
            let id = "esp32-".to_owned().concat(short.as_str());
            let config = Esp32DeviceConfig::new(id.clone(), ip.clone(), 3232, 3232);
            (id, config)
        }
    };
    let event = DeviceEvent::Esp32DeviceDiscovered {
        device_id: device_id.clone(),
        device_ip: ip,
        tcp_port: 3232,
        udp_port: 3232,
        discovered_at,
        mac_address: match &mac {
            Some(m) => Some(m.clone()),
            None => None,
        },
        mdns_hostname: Some(device.hostname.clone()),
    };
    (device_id, config, event)
}

/// The gateway's own advertisement, as the service daemon registers it.
pub struct Advertisement {
    pub service_type: String,
    pub instance_name: String,
    pub hostname: String,
    pub port: u16,
    pub txt_records: Vec<(String, String)>,
}

/// Build the gateway's advertisement: the web service type, the reserved
/// instance and host names, and the protocol TXT records.
pub fn gateway_advertisement(port: u16) -> (r: Advertisement)
    ensures
        r.service_type@ == "_http._tcp.local."@,
        r.instance_name@ == "esp-server"@,
        r.hostname@ == "esp-server.local."@,
        r.port == port,
        r.txt_records@.len() == 4,
        r.txt_records@[0].0@ == "version"@ && r.txt_records@[0].1@ == "1.0"@,
        r.txt_records@[1].0@ == "path"@ && r.txt_records@[1].1@ == "/"@,
        r.txt_records@[2].0@ == "type"@ && r.txt_records@[2].1@ == "esp32-manager"@,
        r.txt_records@[3].0@ == "protocol"@ && r.txt_records@[3].1@ == "http"@,
{
    let mut txt_records: Vec<(String, String)> = Vec::new();
    txt_records.push(("version".to_owned(), "1.0".to_owned()));
    txt_records.push(("path".to_owned(), "/".to_owned()));
    txt_records.push(("type".to_owned(), "esp32-manager".to_owned()));
    txt_records.push(("protocol".to_owned(), "http".to_owned()));
    Advertisement {
        service_type: "_http._tcp.local.".to_owned(),
        instance_name: "esp-server".to_owned(),
        hostname: "esp-server.local.".to_owned(),
        port,
        txt_records,
    }
}

} // verus!
