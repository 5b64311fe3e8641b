//! Protocol-independent device model.

use vstd::prelude::*;
use vstd::string::StringExecFns;
use crate::protocol::ProtocolId;
use crate::text::{lowercase, lower_of, same_chars, push_char, push_str};

verus! {

/// Global identity of a device: the protocol that sees it and the
/// fingerprint that is unique within that protocol.
#[derive(Debug, Clone, Hash, PartialEq, Eq)]
pub struct DeviceId {
    pub protocol: ProtocolId,
    pub fingerprint: String,
}

/// The value that identifies a device: protocol and fingerprint characters.
pub open spec fn id_key(id: &DeviceId) -> (Seq<char>, Seq<char>) {
    (id.protocol.0@, id.fingerprint@)
}

impl DeviceId {
    pub fn new(protocol: ProtocolId, fingerprint: String) -> (r: DeviceId)
        ensures
            r.protocol == protocol,
            r.fingerprint == fingerprint,
    {
        DeviceId { protocol, fingerprint }
    }

    pub fn same_as(&self, other: &DeviceId) -> (r: bool)
        ensures
            r == (id_key(self) == id_key(other)),
    {
        self.protocol.same_as(&other.protocol) && self.fingerprint == other.fingerprint
    }

    pub fn duplicate(&self) -> (r: DeviceId)
        ensures
            id_key(&r) == id_key(self),
    {
        DeviceId { protocol: self.protocol.duplicate(), fingerprint: self.fingerprint.clone() }
    }

    /// Printable form `{protocol}:{fingerprint}`.
    pub fn to_string(&self) -> (r: String)
        ensures
            r@ == self.protocol.0@.push(':') + self.fingerprint@,
    {
        let mut s = self.protocol.0.clone();
        push_char(&mut s, ':');
        push_str(&mut s, self.fingerprint.as_str());
        s
    }
}

/// Kind of device.
#[derive(Debug, Clone, Copy, PartialEq, Eq, Structural)]
pub enum DeviceType {
    Mobile,
    Desktop,
    Tablet,
    Web,
    Server,
    Unknown,
}

/// Device type named by an already lowercased word.
pub open spec fn device_type_of(s: Seq<char>) -> DeviceType {
    if s == "mobile"@ || s == "phone"@ {
        DeviceType::Mobile
    } else if s == "desktop"@ || s == "laptop"@ {
        DeviceType::Desktop
    } else if s == "tablet"@ || s == "ipad"@ {
        DeviceType::Tablet
    } else if s == "web"@ || s == "browser"@ {
        DeviceType::Web
    } else if s == "server"@ || s == "headless"@ {
        DeviceType::Server
    } else {
        DeviceType::Unknown
    }
}

impl DeviceType {
    /// Device type named by a lowercase word (`"phone"`, `"laptop"`, ...).
    pub fn from_lowercase(s: &str) -> (r: DeviceType)
        ensures
            r == device_type_of(s@),
    {
        if same_chars(s, "mobile") || same_chars(s, "phone") {
            DeviceType::Mobile
        } else if same_chars(s, "desktop") || same_chars(s, "laptop") {
            DeviceType::Desktop
        } else if same_chars(s, "tablet") || same_chars(s, "ipad") {
            DeviceType::Tablet
        } else if same_chars(s, "web") || same_chars(s, "browser") {
            DeviceType::Web
        } else if same_chars(s, "server") || same_chars(s, "headless") {
            DeviceType::Server
        } else {
            DeviceType::Unknown
        }
    }

    /// Device type named by a word in any letter case.
    pub fn from_str(s: &str) -> (r: DeviceType)
        ensures
            r == device_type_of(lower_of(s@)),
    {
        let lower = lowercase(s);
        DeviceType::from_lowercase(lower.as_str())
    }
}

impl Default for DeviceType {
    fn default() -> (r: DeviceType)
        ensures
            r == DeviceType::Desktop,
    {
        DeviceType::Desktop
    }
}

/// Identity of a peer, without transport details.
#[derive(Debug, Clone)]
pub struct Peer {
    pub id: DeviceId,
    pub name: String,
    pub device_type: DeviceType,
    pub model: Option<String>,
    pub protocol: ProtocolId,
    pub protocol_version: String,
}

impl Peer {
    pub fn new(protocol: ProtocolId, fingerprint: String, name: String) -> (r: Peer)
        ensures
            r.id.protocol.0@ == protocol.0@,
            r.id.fingerprint == fingerprint,
            r.name == name,
            r.device_type == DeviceType::Desktop,
            r.model is None,
            r.protocol == protocol,
            r.protocol_version@ == Seq::<char>::empty(),
    {
        Peer {
            id: DeviceId::new(protocol.duplicate(), fingerprint),
            name,
            device_type: DeviceType::Desktop,
            model: None,
            protocol,
            protocol_version: String::new(),
        }
    }

    pub fn with_device_type(self, device_type: DeviceType) -> (r: Peer)
        ensures
            r == (Peer { device_type, ..self }),
    {
        Peer { device_type, ..self }
    }

    pub fn with_model(self, model: &str) -> (r: Peer)
        ensures
            r.model matches Some(m) && m@ == model@,
            r.id == self.id,
            r.name == self.name,
            r.device_type == self.device_type,
            r.protocol == self.protocol,
            r.protocol_version == self.protocol_version,
    {
        Peer { model: Some(String::from_str(model)), ..self }
    }

    pub fn with_version(self, version: &str) -> (r: Peer)
        ensures
            r.protocol_version@ == version@,
            r.id == self.id,
            r.name == self.name,
            r.device_type == self.device_type,
            r.model == self.model,
            r.protocol == self.protocol,
    {
        Peer { protocol_version: String::from_str(version), ..self }
    }
}

/// An IP address as plain values.
#[derive(Debug, Clone, Copy, PartialEq, Eq, Structural)]
pub enum IpAddress {
    V4(u8, u8, u8, u8),
    V6(u16, u16, u16, u16, u16, u16, u16, u16),
}

impl IpAddress {
    /// The IPv4 wildcard address `0.0.0.0`.
    pub fn unspecified() -> (r: IpAddress)
        ensures
            r == IpAddress::V4(0, 0, 0, 0),
    {
        IpAddress::V4(0, 0, 0, 0)
    }
}

/// Relies on `std::time::SystemTime::now`: milliseconds since the Unix
/// epoch, 0 for a clock set before it. The clock decides the value.
#[verifier::external_body]
pub(crate) fn unix_now_millis() -> (r: u64) {
    std::time::SystemTime::now().duration_since(std::time::UNIX_EPOCH).unwrap_or_default().as_millis() as u64
}

/// A peer together with where it can be reached.
#[derive(Debug, Clone)]
pub struct Device {
    pub peer: Peer,
    pub ip: IpAddress,
    pub port: u16,
    /// Unix seconds of the latest observation.
    pub last_seen: u64,
}

impl Device {
    /// A device observed now.
    pub fn new(peer: Peer, ip: IpAddress, port: u16) -> (r: Device)
        ensures
            r.peer == peer,
            r.ip == ip,
            r.port == port,
    {
        Device { peer, ip, port, last_seen: unix_now_millis() / 1000 }
    }

    pub fn id(&self) -> (r: &DeviceId)
        ensures
            *r == self.peer.id,
    {
        &self.peer.id
    }

    pub fn name(&self) -> (r: &str)
        ensures
            r@ == self.peer.name@,
    {
        self.peer.name.as_str()
    }

    pub fn protocol(&self) -> (r: &ProtocolId)
        ensures
            *r == self.peer.protocol,
    {
        &self.peer.protocol
    }

    /// Marks the device as observed now.
    pub fn touch(&mut self)
        ensures
            final(self).peer == old(self).peer,
            final(self).ip == old(self).ip,
            final(self).port == old(self).port,
    {
        self.last_seen = unix_now_millis() / 1000;
    }
}

impl Device {
    /// A copy of the device, field by field.
    pub fn clone_device(&self) -> (r: Device)
        ensures
            r == *self,
    {
        Device {
            peer: Peer {
                id: DeviceId {
                    protocol: ProtocolId(self.peer.id.protocol.0.clone()),
                    fingerprint: self.peer.id.fingerprint.clone(),
                },
                name: self.peer.name.clone(),
                device_type: self.peer.device_type,
                model: match &self.peer.model {
                    Some(m) => Some(m.clone()),
                    None => None,
                },
                protocol: ProtocolId(self.peer.protocol.0.clone()),
                protocol_version: self.peer.protocol_version.clone(),
            },
            ip: self.ip,
            port: self.port,
            last_seen: self.last_seen,
        }
    }
}

} // verus!

verus! {

/// Lowercase hexadecimal digit of `d < 16`.
pub open spec fn lower_hex_digit(d: nat) -> char {
    if d < 10 { crate::text::digit_char(d) }
    else if d == 10 { 'a' } else if d == 11 { 'b' } else if d == 12 { 'c' }
    else if d == 13 { 'd' } else if d == 14 { 'e' } else { 'f' }
}

/// Lowercase hexadecimal representation, without leading zeros.
pub open spec fn lower_hex_of(n: nat) -> Seq<char>
    decreases n,
{
    if n < 16 { seq![lower_hex_digit(n)] } else { lower_hex_of(n / 16).push(lower_hex_digit(n % 16)) }
}

fn push_lower_hex(s: &mut String, n: u16)
    ensures
        final(s)@ == old(s)@ + lower_hex_of(n as nat),
    decreases n,
{
    if n >= 16 {
        push_lower_hex(s, n / 16);
    }
    let d = (n % 16) as u8;
    let c = if d < 10 { crate::text::digit_u8(d) } else if d == 10 { 'a' } else if d == 11 { 'b' }
        else if d == 12 { 'c' } else if d == 13 { 'd' } else if d == 14 { 'e' } else { 'f' };
    push_char(s, c);
    assert(final(s)@ == old(s)@ + lower_hex_of(n as nat)) by {
        if n < 16 {
            assert(lower_hex_of(n as nat) == seq![lower_hex_digit(n as nat)]);
        }
    }
}

/// Text of an address: dotted decimal for IPv4; for IPv6 the eight groups
/// in lowercase hexadecimal, without leading zeros, joined by `:`.
pub open spec fn ip_text(ip: IpAddress) -> Seq<char> {
    match ip {
        IpAddress::V4(a, b, c, d) => crate::text::decimal_of(a as nat).push('.') + crate::text::decimal_of(b as nat).push('.')
            + crate::text::decimal_of(c as nat).push('.') + crate::text::decimal_of(d as nat),
        IpAddress::V6(a, b, c, d, e, f, g, h) => lower_hex_of(a as nat).push(':') + lower_hex_of(b as nat).push(':')
            + lower_hex_of(c as nat).push(':') + lower_hex_of(d as nat).push(':') + lower_hex_of(e as nat).push(':')
            + lower_hex_of(f as nat).push(':') + lower_hex_of(g as nat).push(':') + lower_hex_of(h as nat),
    }
}

impl IpAddress {
    /// Text of the address.
    pub fn to_text(&self) -> (r: String)
        ensures
            r@ == ip_text(*self),
    {
        let mut s = String::new();
        match *self {
            IpAddress::V4(a, b, c, d) => {
                crate::text::push_decimal(&mut s, a as u64);
                push_char(&mut s, '.');
                crate::text::push_decimal(&mut s, b as u64);
                push_char(&mut s, '.');
                crate::text::push_decimal(&mut s, c as u64);
                push_char(&mut s, '.');
                crate::text::push_decimal(&mut s, d as u64);
            },
            IpAddress::V6(a, b, c, d, e, f, g, h) => {
                push_lower_hex(&mut s, a);
                push_char(&mut s, ':');
                push_lower_hex(&mut s, b);
                push_char(&mut s, ':');
                push_lower_hex(&mut s, c);
                push_char(&mut s, ':');
                push_lower_hex(&mut s, d);
                push_char(&mut s, ':');
                push_lower_hex(&mut s, e);
                push_char(&mut s, ':');
                push_lower_hex(&mut s, f);
                push_char(&mut s, ':');
                push_lower_hex(&mut s, g);
                push_char(&mut s, ':');
                push_lower_hex(&mut s, h);
            },
        }
        s
    }
}

impl Device {
    /// `{ip}:{port}`.
    pub fn address(&self) -> (r: String)
        ensures
            r@ == ip_text(self.ip).push(':') + crate::text::decimal_of(self.port as nat),
    {
        let mut s = self.ip.to_text();
        push_char(&mut s, ':');
        crate::text::push_decimal(&mut s, self.port as u64);
        s
    }
}

impl DeviceType {
    /// The variant's name: `"Mobile"`, `"Desktop"`, ...
    pub fn name(&self) -> (r: &'static str)
        ensures
            *self == DeviceType::Mobile ==> r@ == "Mobile"@,
            *self == DeviceType::Desktop ==> r@ == "Desktop"@,
            *self == DeviceType::Tablet ==> r@ == "Tablet"@,
            *self == DeviceType::Web ==> r@ == "Web"@,
            *self == DeviceType::Server ==> r@ == "Server"@,
            *self == DeviceType::Unknown ==> r@ == "Unknown"@,
    {
        match self {
            DeviceType::Mobile => "Mobile",
            DeviceType::Desktop => "Desktop",
            DeviceType::Tablet => "Tablet",
            DeviceType::Web => "Web",
            DeviceType::Server => "Server",
            DeviceType::Unknown => "Unknown",
        }
    }
}

} // verus!
