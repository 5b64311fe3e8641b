//! LocalSend discovery: multicast messages, DNS-SD records, and the set
//! of devices both of them feed.

use vstd::prelude::*;
use vstd::string::{StrSliceExecFns, StringExecFns};
use crate::device::{Device, DeviceType, IpAddress, Peer, device_type_of};
use crate::event::{Event, EventKind};
use crate::models::{DeviceInfo, DEFAULT_PORT, PROTOCOL_ID};
use crate::protocol::ProtocolId;
use crate::table::KeyedTable;
use crate::text::{lower_of, push_char, push_str, same_chars};

verus! {

/// Multicast discovery message, with both the older and the newer
/// announcement flag.
#[derive(Debug, Clone)]
pub struct MulticastDto {
    pub alias: String,
    pub version: Option<String>,
    pub device_model: Option<String>,
    pub device_type: Option<String>,
    pub fingerprint: String,
    pub port: Option<u16>,
    pub protocol: Option<String>,
    pub download: Option<bool>,
    pub announcement: Option<bool>,
    pub announce: Option<bool>,
}

/// The message that describes `info`, with both flags set to `flag`.
pub open spec fn dto_for(info: DeviceInfo, flag: bool, r: MulticastDto) -> bool {
    &&& r.alias@ == info.alias@
    &&& r.version matches Some(v) && v@ == info.version@
    &&& r.device_model matches Some(m) && m@ == "UniDrop"@
    &&& r.device_type matches Some(t) && t@ == "desktop"@
    &&& r.fingerprint@ == info.fingerprint@
    &&& r.port == Some(info.port)
    &&& r.protocol matches Some(p) && p@ == info.protocol@
    &&& r.download == Some(false)
    &&& r.announcement == Some(flag)
    &&& r.announce == Some(flag)
}

impl MulticastDto {
    fn describe(info: &DeviceInfo, flag: bool) -> (r: MulticastDto)
        ensures
            dto_for(*info, flag, r),
    {
        MulticastDto {
            alias: info.alias.clone(),
            version: Some(info.version.clone()),
            device_model: Some(String::from_str("UniDrop")),
            device_type: Some(String::from_str("desktop")),
            fingerprint: info.fingerprint.clone(),
            port: Some(info.port),
            protocol: Some(info.protocol.clone()),
            download: Some(false),
            announcement: Some(flag),
            announce: Some(flag),
        }
    }

    /// An announcement of `info`, asking others to answer.
    pub fn announcement(info: &DeviceInfo) -> (r: MulticastDto)
        ensures
            dto_for(*info, true, r),
    {
        MulticastDto::describe(info, true)
    }

    /// An answer describing `info`.
    pub fn response(info: &DeviceInfo) -> (r: MulticastDto)
        ensures
            dto_for(*info, false, r),
    {
        MulticastDto::describe(info, false)
    }

    pub open spec fn spec_is_announcement(&self) -> bool {
        self.announcement == Some(true) || self.announce == Some(true)
    }

    /// Whether either flag asks for an answer.
    pub fn is_announcement(&self) -> (r: bool)
        ensures
            r == self.spec_is_announcement(),
    {
        let a = match self.announcement {
            Some(b) => b,
            None => false,
        };
        let b = match self.announce {
            Some(b) => b,
            None => false,
        };
        a || b
    }
}

/// The LocalSend protocol identifier.
pub fn localsend_id() -> (r: ProtocolId)
    ensures
        r.0@ == PROTOCOL_ID@,
{
    ProtocolId::new(PROTOCOL_ID)
}

/// A LocalSend device as discovery describes it.
pub open spec fn describes(d: Device, fingerprint: Seq<char>, alias: Seq<char>, device_type: DeviceType,
    version: Seq<char>, ip: IpAddress, port: u16) -> bool {
    &&& d.peer.id.protocol.0@ == PROTOCOL_ID@
    &&& d.peer.protocol.0@ == PROTOCOL_ID@
    &&& d.peer.id.fingerprint@ == fingerprint
    &&& d.peer.name@ == alias
    &&& d.peer.device_type == device_type
    &&& d.peer.protocol_version@ == version
    &&& d.ip == ip
    &&& d.port == port
}

fn localsend_device(fingerprint: &str, alias: &str, device_type: DeviceType, version: &str, ip: IpAddress, port: u16) -> (r: Device)
    ensures
        describes(r, fingerprint@, alias@, device_type, version@, ip, port),
{
    let peer = Peer::new(localsend_id(), String::from_str(fingerprint), String::from_str(alias))
        .with_device_type(device_type)
        .with_version(version);
    Device::new(peer, ip, port)
}

/// Device type advertised as an optional word; desktop when absent.
pub open spec fn advertised_type(t: Option<String>) -> DeviceType {
    match t {
        Some(s) => device_type_of(lower_of(s@)),
        None => DeviceType::Desktop,
    }
}

fn type_of_advertised(t: &Option<String>) -> (r: DeviceType)
    ensures
        r == advertised_type(*t),
{
    match t {
        Some(s) => DeviceType::from_str(s.as_str()),
        None => DeviceType::Desktop,
    }
}

/// The device a multicast message describes, seen from `ip`.
pub open spec fn device_of_dto(dto: MulticastDto, ip: IpAddress, d: Device) -> bool {
    describes(d, dto.fingerprint@, dto.alias@, advertised_type(dto.device_type),
        match dto.version { Some(v) => v@, None => "2.0"@ },
        ip, match dto.port { Some(p) => p, None => DEFAULT_PORT })
}

/// What a node does with a received multicast message.
pub struct DatagramOutcome {
    pub event: Option<Event>,
    pub reply: Option<MulticastDto>,
}

/// LocalSend devices seen by discovery, by fingerprint; never this node.
pub struct LocalDevices {
    pub local_fingerprint: String,
    pub devices: KeyedTable<Device>,
}

impl LocalDevices {
    pub open spec fn wf(&self) -> bool {
        &&& self.devices.wf()
        &&& !self.devices@.contains_key(self.local_fingerprint@)
        &&& forall|k: Seq<char>| #[trigger] self.devices@.contains_key(k) ==> {
            &&& self.devices@[k].peer.id.fingerprint@ == k
            &&& self.devices@[k].peer.id.protocol.0@ == PROTOCOL_ID@
        }
    }

    pub fn new(local_fingerprint: String) -> (r: LocalDevices)
        ensures
            r.wf(),
            r.local_fingerprint == local_fingerprint,
            r.devices@ == Map::<Seq<char>, Device>::empty(),
    {
        LocalDevices { local_fingerprint, devices: KeyedTable::new() }
    }

    /// Records a device other than this node: the event is a discovery the
    /// first time its fingerprint is seen, an update afterwards.
    pub fn observe(&mut self, device: Device) -> (r: Event)
        requires
            old(self).wf(),
            device.peer.id.fingerprint@ != old(self).local_fingerprint@,
            device.peer.id.protocol.0@ == PROTOCOL_ID@,
        ensures
            final(self).wf(),
            final(self).local_fingerprint == old(self).local_fingerprint,
            final(self).devices@ == old(self).devices@.insert(device.peer.id.fingerprint@, device),
            !old(self).devices@.contains_key(device.peer.id.fingerprint@) ==> r.kind == EventKind::DeviceDiscovered(device),
            old(self).devices@.contains_key(device.peer.id.fingerprint@) ==> r.kind == EventKind::DeviceUpdated(device),
    {
        let key = device.peer.id.fingerprint.clone();
        let copy = device.clone_device();
        let existed = self.devices.insert(key, copy);
        if existed {
            Event::device_updated(device)
        } else {
            Event::device_discovered(device)
        }
    }

    /// A multicast message arrived from `ip`. Messages of this node are
    /// dropped; any other records its sender, and an announcement is
    /// answered with a response describing `local_info`.
    pub fn on_datagram(&mut self, dto: &MulticastDto, ip: IpAddress, local_info: &DeviceInfo) -> (r: DatagramOutcome)
        requires
            old(self).wf(),
        ensures
            final(self).wf(),
            final(self).local_fingerprint == old(self).local_fingerprint,
            dto.fingerprint@ == old(self).local_fingerprint@ ==> {
                &&& r.event is None
                &&& r.reply is None
                &&& final(self).devices@ == old(self).devices@
            },
            dto.fingerprint@ != old(self).local_fingerprint@ ==> {
                &&& final(self).devices@.contains_key(dto.fingerprint@)
                &&& device_of_dto(*dto, ip, final(self).devices@[dto.fingerprint@])
                &&& final(self).devices@ == old(self).devices@.insert(dto.fingerprint@, final(self).devices@[dto.fingerprint@])
                &&& r.event matches Some(e) && (if old(self).devices@.contains_key(dto.fingerprint@) {
                        e.kind == EventKind::DeviceUpdated(final(self).devices@[dto.fingerprint@])
                    } else {
                        e.kind == EventKind::DeviceDiscovered(final(self).devices@[dto.fingerprint@])
                    })
                &&& dto.spec_is_announcement() ==> (r.reply matches Some(m) && dto_for(*local_info, false, m))
                &&& !dto.spec_is_announcement() ==> r.reply is None
            },
    {
        if same_chars(dto.fingerprint.as_str(), self.local_fingerprint.as_str()) {
            return DatagramOutcome { event: None, reply: None };
        }
        let port = match dto.port {
            Some(p) => p,
            None => DEFAULT_PORT,
        };
        let version = match &dto.version {
            Some(v) => v.clone(),
            None => String::from_str("2.0"),
        };
        let device_type = type_of_advertised(&dto.device_type);
        let device = localsend_device(dto.fingerprint.as_str(), dto.alias.as_str(), device_type, version.as_str(), ip, port);
        let event = self.observe(device);
        let reply = if dto.is_announcement() {
            Some(MulticastDto::response(local_info))
        } else {
            None
        };
        DatagramOutcome { event: Some(event), reply }
    }

    /// Discovery says the device with this fingerprint left: it is dropped,
    /// and its loss announced if it was listed.
    pub fn forget(&mut self, fingerprint: &str) -> (r: Option<Event>)
        requires
            old(self).wf(),
        ensures
            final(self).wf(),
            final(self).local_fingerprint == old(self).local_fingerprint,
            final(self).devices@ == old(self).devices@.remove(fingerprint@),
            old(self).devices@.contains_key(fingerprint@) ==> (r matches Some(e) && (e.kind matches EventKind::DeviceLost(id)
                && id.fingerprint@ == fingerprint@ && id.protocol.0@ == PROTOCOL_ID@)),
            !old(self).devices@.contains_key(fingerprint@) ==> r is None,
    {
        match self.devices.remove(fingerprint) {
            Some(_) => Some(Event::device_lost(crate::device::DeviceId::new(localsend_id(), String::from_str(fingerprint)))),
            None => None,
        }
    }

    /// Every listed device.
    pub fn devices(&self) -> (r: Vec<Device>)
        requires
            self.wf(),
        ensures
            r@.len() == self.devices.entries@.len(),
            forall|i: int| 0 <= i < r@.len() ==> #[trigger] r@[i] == self.devices.entries@[i].1,
    {
        let mut out: Vec<Device> = Vec::new();
        let mut i: usize = 0;
        while i < self.devices.entries.len()
            invariant
                i <= self.devices.entries@.len(),
                out@.len() == i,
                forall|k: int| 0 <= k < i ==> #[trigger] out@[k] == self.devices.entries@[k].1,
            decreases self.devices.entries.len() - i,
        {
            out.push(self.devices.entries[i].1.clone_device());
            i = i + 1;
        }
        out
    }

    /// The device with this identifier: none for another protocol.
    pub fn device_by_id(&self, id: &crate::device::DeviceId) -> (r: Option<Device>)
        requires
            self.wf(),
        ensures
            id.protocol.0@ != PROTOCOL_ID@ ==> r is None,
            id.protocol.0@ == PROTOCOL_ID@ ==> (r is Some <==> self.devices@.contains_key(id.fingerprint@)),
            r matches Some(d) ==> d == self.devices@[id.fingerprint@],
    {
        if !same_chars(id.protocol.as_str(), PROTOCOL_ID) {
            return None;
        }
        self.device(id.fingerprint.as_str())
    }

    /// The device with this fingerprint.
    pub fn device(&self, fingerprint: &str) -> (r: Option<Device>)
        requires
            self.wf(),
        ensures
            r is Some <==> self.devices@.contains_key(fingerprint@),
            r matches Some(d) ==> d == self.devices@[fingerprint@],
    {
        match self.devices.get(fingerprint) {
            Some(d) => Some(d.clone_device()),
            None => None,
        }
    }
}

/// The value of a DNS-SD TXT property.
pub open spec fn txt_value(props: Seq<(String, String)>, key: Seq<char>) -> Option<Seq<char>>
    decreases props.len(),
{
    if props.len() == 0 {
        None
    } else if props[0].0@ == key {
        Some(props[0].1@)
    } else {
        txt_value(props.drop_first(), key)
    }
}

/// The value of a DNS-SD TXT property: the first with this key.
pub fn find_txt<'a>(props: &'a Vec<(String, String)>, key: &str) -> (r: Option<&'a String>)
    ensures
        r is Some <==> txt_value(props@, key@) is Some,
        r matches Some(v) ==> txt_value(props@, key@) == Some(v@),
{
    let mut i: usize = 0;
    assert(props@.subrange(0, props@.len() as int) == props@);
    while i < props.len()
        invariant
            i <= props@.len(),
            txt_value(props@, key@) == txt_value(props@.subrange(i as int, props@.len() as int), key@),
        decreases props.len() - i,
    {
        let ghost rest = props@.subrange(i as int, props@.len() as int);
        proof {
            assert(rest[0] == props@[i as int]);
            assert(rest.drop_first() == props@.subrange(i + 1, props@.len() as int));
        }
        if same_chars(props[i].0.as_str(), key) {
            return Some(&props[i].1);
        }
        i = i + 1;
    }
    None
}

/// The device a resolved DNS-SD service describes, unless it lacks a
/// fingerprint or is this node.
pub fn parse_service_info(props: &Vec<(String, String)>, addresses: &Vec<IpAddress>, port: u16, local_fingerprint: &str) -> (r: Option<Device>)
    ensures
        (txt_value(props@, "fingerprint"@) is None || txt_value(props@, "fingerprint"@) == Some(local_fingerprint@)) ==> r is None,
        txt_value(props@, "fingerprint"@) is Some && txt_value(props@, "fingerprint"@)->0 != local_fingerprint@ ==> (r matches Some(d) && describes(d, txt_value(props@, "fingerprint"@)->0,
            match txt_value(props@, "alias"@) { Some(a) => a, None => "Unknown"@ },
            match txt_value(props@, "deviceType"@) { Some(t) => device_type_of(lower_of(t)), None => DeviceType::Desktop },
            match txt_value(props@, "version"@) { Some(v) => v, None => "2.0"@ },
            if addresses@.len() > 0 { addresses@[0] } else { IpAddress::V4(0, 0, 0, 0) },
            port)),
{
    let fingerprint = match find_txt(props, "fingerprint") {
        Some(f) => f,
        None => {
            return None;
        },
    };
    if same_chars(fingerprint.as_str(), local_fingerprint) {
        return None;
    }
    let alias = match find_txt(props, "alias") {
        Some(a) => a.clone(),
        None => String::from_str("Unknown"),
    };
    let version = match find_txt(props, "version") {
        Some(v) => v.clone(),
        None => String::from_str("2.0"),
    };
    let device_type = match find_txt(props, "deviceType") {
        Some(t) => DeviceType::from_str(t.as_str()),
        None => DeviceType::Desktop,
    };
    let ip = if addresses.len() > 0 { addresses[0] } else { IpAddress::unspecified() };
    Some(localsend_device(fingerprint.as_str(), alias.as_str(), device_type, version.as_str(), ip, port))
}

/// Name, host name and TXT properties under which a node registers its
/// DNS-SD service: `{alias}-{first 8 fingerprint characters}`, and that
/// name with spaces as dashes under `.local.`.
pub fn mdns_registration(info: &DeviceInfo) -> (r: (String, String, Vec<(String, String)>))
    requires
        info.fingerprint@.len() >= 8,
    ensures
        r.0@ == info.alias@.push('-') + info.fingerprint@.subrange(0, 8),
        r.1@ == dashed(r.0@) + ".local."@,
        r.2@.len() == 5,
        r.2@[0].0@ == "alias"@ && r.2@[0].1@ == info.alias@,
        r.2@[1].0@ == "fingerprint"@ && r.2@[1].1@ == info.fingerprint@,
        r.2@[2].0@ == "version"@ && r.2@[2].1@ == info.version@,
        r.2@[3].0@ == "protocol"@ && r.2@[3].1@ == info.protocol@,
        r.2@[4].0@ == "deviceType"@ && r.2@[4].1@ == "desktop"@,
{
    let mut name = info.alias.clone();
    push_char(&mut name, '-');
    push_str(&mut name, info.fingerprint.as_str().substring_char(0, 8));
    let mut host = dash_spaces(name.as_str());
    push_str(&mut host, ".local.");
    let mut props: Vec<(String, String)> = Vec::new();
    props.push((String::from_str("alias"), info.alias.clone()));
    props.push((String::from_str("fingerprint"), info.fingerprint.clone()));
    props.push((String::from_str("version"), info.version.clone()));
    props.push((String::from_str("protocol"), info.protocol.clone()));
    props.push((String::from_str("deviceType"), String::from_str("desktop")));
    (name, host, props)
}

/// Every space replaced by a dash.
pub open spec fn dashed(s: Seq<char>) -> Seq<char> {
    s.map_values(|c: char| if c == ' ' { '-' } else { c })
}

fn dash_spaces(s: &str) -> (r: String)
    ensures
        r@ == dashed(s@),
{
    let n = s.unicode_len();
    let mut out = String::new();
    let mut i: usize = 0;
    while i < n
        invariant
            n == s@.len(),
            i <= n,
            out@ == dashed(s@.subrange(0, i as int)),
        decreases n - i,
    {
        let c = s.get_char(i);
        push_char(&mut out, if c == ' ' { '-' } else { c });
        proof {
            assert(s@.subrange(0, i + 1) == s@.subrange(0, i as int).push(c));
            assert(dashed(s@.subrange(0, i + 1)) =~= dashed(s@.subrange(0, i as int)).push(if c == ' ' { '-' } else { c }));
        }
        i = i + 1;
    }
    assert(s@.subrange(0, n as int) == s@);
    out
}

} // verus!
