//! Decisions of the peer-to-peer driver: which peers become devices, how a
//! relay reservation is made and advertised, and how requests are built and
//! taken in.

use vstd::prelude::*;
use vstd::string::StringExecFns;
use crate::device::{Device, DeviceId, DeviceType, IpAddress, Peer};
use crate::event::{Event, EventKind};
use crate::ids::new_uuid;
use crate::p2p::{FileRequest, FileResponse, P2pFileInfo, P2P_PROTOCOL_ID};
use crate::protocol::{ProtocolBuilder, ProtocolId, ProtocolInfo};
use crate::text::{contains_seq, contains_str, push_str};
use crate::transfer::{total_size_of, FileInfo, TransferRequest};

verus! {

/// Whether an identify agent string belongs to a relay server.
pub open spec fn is_relay_agent_spec(agent: Seq<char>) -> bool {
    contains_seq(agent, "rust-libp2p-server"@) || contains_seq(agent, "relayd"@)
}

/// Whether an identify agent string belongs to a relay server.
pub fn is_relay_agent(agent: &str) -> (r: bool)
    ensures
        r == is_relay_agent_spec(agent@),
{
    contains_str(agent, "rust-libp2p-server") || contains_str(agent, "relayd")
}

/// The identifier of this protocol.
pub fn p2p_protocol_id() -> (r: ProtocolId)
    ensures
        r.0@ == P2P_PROTOCOL_ID@,
{
    ProtocolId::new(P2P_PROTOCOL_ID)
}

/// The device that stands for a remote peer: reachable only through the
/// swarm, so without an address of its own.
pub fn peer_device(peer_id: &str, name: &str) -> (r: Device)
    ensures
        r.peer.id.protocol.0@ == P2P_PROTOCOL_ID@,
        r.peer.protocol.0@ == P2P_PROTOCOL_ID@,
        r.peer.id.fingerprint@ == peer_id@,
        r.peer.name@ == name@,
        r.peer.device_type == DeviceType::Desktop,
        r.ip == IpAddress::V4(0, 0, 0, 0),
        r.port == 0,
{
    let peer = Peer::new(p2p_protocol_id(), String::from_str(peer_id), String::from_str(name))
        .with_device_type(DeviceType::Desktop);
    Device::new(peer, IpAddress::unspecified(), 0)
}

/// Peers seen through identify, each fingerprint once, never this node.
pub struct PeerList {
    pub local_peer_id: String,
    pub devices: Vec<Device>,
}

impl PeerList {
    pub open spec fn wf(&self) -> bool {
        &&& forall|i: int| 0 <= i < self.devices@.len() ==> {
            &&& #[trigger] self.devices@[i].peer.id.fingerprint@ != self.local_peer_id@
            &&& self.devices@[i].peer.id.protocol.0@ == P2P_PROTOCOL_ID@
        }
        &&& forall|i: int, j: int| 0 <= i < j < self.devices@.len() ==>
            #[trigger] self.devices@[i].peer.id.fingerprint@ != #[trigger] self.devices@[j].peer.id.fingerprint@
    }

    /// The fingerprints of the listed devices.
    pub open spec fn known(&self, fp: Seq<char>) -> bool {
        exists|i: int| 0 <= i < self.devices@.len() && #[trigger] self.devices@[i].peer.id.fingerprint@ == fp
    }

    pub fn new(local_peer_id: String) -> (r: PeerList)
        ensures
            r.wf(),
            r.local_peer_id == local_peer_id,
            r.devices@.len() == 0,
    {
        PeerList { local_peer_id, devices: Vec::new() }
    }

    fn position(&self, peer_id: &str) -> (r: Option<usize>)
        ensures
            r matches Some(i) ==> i < self.devices@.len() && self.devices@[i as int].peer.id.fingerprint@ == peer_id@,
            r is None ==> !self.known(peer_id@),
    {
        let mut i: usize = 0;
        while i < self.devices.len()
            invariant
                i <= self.devices@.len(),
                forall|j: int| 0 <= j < i ==> #[trigger] self.devices@[j].peer.id.fingerprint@ != peer_id@,
            decreases self.devices.len() - i,
        {
            if crate::text::same_chars(self.devices[i].peer.id.fingerprint.as_str(), peer_id) {
                return Some(i);
            }
            i = i + 1;
        }
        None
    }

    /// A peer identified itself. Relays, this node and known peers are
    /// ignored; any other peer is listed and announced.
    pub fn on_identify(&mut self, peer_id: &str, agent: &str) -> (r: Option<Event>)
        requires
            old(self).wf(),
        ensures
            final(self).wf(),
            final(self).local_peer_id == old(self).local_peer_id,
            (is_relay_agent_spec(agent@) || peer_id@ == old(self).local_peer_id@ || old(self).known(peer_id@))
                ==> r is None && final(self).devices == old(self).devices,
            !(is_relay_agent_spec(agent@) || peer_id@ == old(self).local_peer_id@ || old(self).known(peer_id@)) ==> {
                &&& final(self).devices@.len() == old(self).devices@.len() + 1
                &&& final(self).devices@.drop_last() == old(self).devices@
                &&& final(self).devices@.last().peer.id.fingerprint@ == peer_id@
                &&& final(self).devices@.last().peer.name@ == agent@
                &&& r matches Some(e) && e.kind == EventKind::DeviceDiscovered(final(self).devices@.last())
            },
    {
        if is_relay_agent(agent) || crate::text::same_chars(peer_id, self.local_peer_id.as_str()) {
            return None;
        }
        if self.position(peer_id).is_some() {
            return None;
        }
        let device = peer_device(peer_id, agent);
        let event = Event::device_discovered(device.clone_device());
        let ghost old_devices = self.devices@;
        self.devices.push(device);
        proof {
            assert(self.devices@.drop_last() == old_devices);
            assert forall|i: int, j: int| 0 <= i < j < self.devices@.len() implies
                #[trigger] self.devices@[i].peer.id.fingerprint@ != #[trigger] self.devices@[j].peer.id.fingerprint@ by {
                if j == self.devices@.len() - 1 {
                    assert(old_devices[i] == self.devices@[i]);
                }
            }
        }
        Some(event)
    }

    /// The connection to a peer closed: it leaves the list, and its loss is
    /// announced.
    pub fn on_connection_closed(&mut self, peer_id: &str) -> (r: Event)
        requires
            old(self).wf(),
        ensures
            final(self).wf(),
            final(self).local_peer_id == old(self).local_peer_id,
            !final(self).known(peer_id@),
            forall|fp: Seq<char>| fp != peer_id@ ==> (final(self).known(fp) == old(self).known(fp)),
            r.kind matches EventKind::DeviceLost(id) && id.fingerprint@ == peer_id@
                && id.protocol.0@ == P2P_PROTOCOL_ID@,
    {
        match self.position(peer_id) {
            Some(i) => {
                let ghost before = self.devices@;
                let _gone = self.devices.remove(i);
                proof {
                    assert forall|k: int| 0 <= k < self.devices@.len() implies
                        #[trigger] self.devices@[k].peer.id.fingerprint@ != peer_id@ by {
                        if k < i {
                            assert(self.devices@[k] == before[k]);
                        } else {
                            assert(self.devices@[k] == before[k + 1]);
                        }
                    }
                    assert forall|fp: Seq<char>| fp != peer_id@ implies (self.known(fp) == old(self).known(fp)) by {
                        if old(self).known(fp) {
                            let k = choose|k: int| 0 <= k < before.len() && #[trigger] before[k].peer.id.fingerprint@ == fp;
                            if k < i {
                                assert(self.devices@[k] == before[k]);
                            } else {
                                assert(self.devices@[k - 1] == before[k]);
                            }
                        }
                        if self.known(fp) {
                            let k = choose|k: int| 0 <= k < self.devices@.len() && #[trigger] self.devices@[k].peer.id.fingerprint@ == fp;
                            if k < i {
                                assert(self.devices@[k] == before[k]);
                            } else {
                                assert(self.devices@[k] == before[k + 1]);
                            }
                        }
                    }
                    assert forall|a: int, b: int| 0 <= a < b < self.devices@.len() implies
                        #[trigger] self.devices@[a].peer.id.fingerprint@ != #[trigger] self.devices@[b].peer.id.fingerprint@ by {
                        let a2 = if a < i { a } else { a + 1 };
                        let b2 = if b < i { b } else { b + 1 };
                        assert(self.devices@[a] == before[a2]);
                        assert(self.devices@[b] == before[b2]);
                    }
                    assert forall|k: int| 0 <= k < self.devices@.len() implies {
                        &&& #[trigger] self.devices@[k].peer.id.fingerprint@ != self.local_peer_id@
                        &&& self.devices@[k].peer.id.protocol.0@ == P2P_PROTOCOL_ID@
                    } by {
                        let k2 = if k < i { k } else { k + 1 };
                        assert(self.devices@[k] == before[k2]);
                        assert(old(self).devices@[k2].peer.id.fingerprint@ != old(self).local_peer_id@);
                        assert(old(self).devices@[k2].peer.id.protocol.0@ == P2P_PROTOCOL_ID@);
                    }
                }
            },
            None => {},
        }
        Event::device_lost(DeviceId::new(p2p_protocol_id(), String::from_str(peer_id)))
    }
}

} // verus!

verus! {

/// The relay that serves reservations: the first one configured.
pub open spec fn chosen_relay(relays: Seq<String>) -> Option<Seq<char>> {
    if relays.len() == 0 { None } else { Some(relays[0]@) }
}

/// Relay reservation of this node.
pub struct RelayState {
    pub reserved: bool,
    /// Address of the relay that accepted the reservation.
    pub relay_addr: Option<String>,
}

impl RelayState {
    pub fn new() -> (r: RelayState)
        ensures
            !r.reserved,
            r.relay_addr is None,
    {
        RelayState { reserved: false, relay_addr: None }
    }

    /// An outbound connection completed. Until a reservation is held, the
    /// node listens through the first relay: the address to listen on.
    pub fn on_connection_established(&self, is_dialer: bool, relays: &Vec<String>) -> (r: Option<String>)
        ensures
            (is_dialer && !self.reserved && relays@.len() > 0) ==> (r matches Some(a) && a@ == relays@[0]@ + "/p2p-circuit"@),
            !(is_dialer && !self.reserved && relays@.len() > 0) ==> r is None,
    {
        if is_dialer && !self.reserved && relays.len() > 0 {
            let mut a = relays[0].clone();
            push_str(&mut a, "/p2p-circuit");
            Some(a)
        } else {
            None
        }
    }

    /// The relay accepted the reservation: remember the first relay, and
    /// return the address through which this node can be reached.
    pub fn on_reservation_accepted(&mut self, relays: &Vec<String>, local_peer_id: &str) -> (r: Option<String>)
        ensures
            final(self).reserved,
            relays@.len() > 0 ==> {
                &&& final(self).relay_addr matches Some(a) && a@ == relays@[0]@
                &&& r matches Some(full) && full@ == relays@[0]@ + "/p2p-circuit/p2p/"@ + local_peer_id@
            },
            relays@.len() == 0 ==> r is None && final(self).relay_addr == old(self).relay_addr,
    {
        self.reserved = true;
        if relays.len() > 0 {
            self.relay_addr = Some(relays[0].clone());
            let mut full = relays[0].clone();
            push_str(&mut full, "/p2p-circuit/p2p/");
            push_str(&mut full, local_peer_id);
            Some(full)
        } else {
            None
        }
    }
}

/// Default public relays used when bootstrap is enabled.
pub fn default_relay_servers() -> (r: Vec<String>)
    ensures
        r@.len() == 1,
        r@[0]@ == "/ip4/156.225.28.220/tcp/9001/p2p/12D3KooWCXsQB737PXEosCDxeBTd7Ze4NGsba8WJiUTddjqBkCGg"@,
{
    let mut v: Vec<String> = Vec::new();
    v.push(String::from_str("/ip4/156.225.28.220/tcp/9001/p2p/12D3KooWCXsQB737PXEosCDxeBTd7Ze4NGsba8WJiUTddjqBkCGg"));
    v
}

/// Configuration of the peer-to-peer protocol.
#[derive(Debug, Clone)]
pub struct P2pConfig {
    pub relay_servers: Vec<String>,
    pub port: u16,
    pub use_default_bootstrap: bool,
}

impl P2pConfig {
    pub fn new() -> (r: P2pConfig)
        ensures
            r.relay_servers@.len() == 0,
            r.port == 4002,
            r.use_default_bootstrap,
    {
        P2pConfig { relay_servers: Vec::new(), port: 4002, use_default_bootstrap: true }
    }

    /// The relays to dial: the configured ones, then the defaults when
    /// bootstrap is enabled.
    pub fn relay_list(&self) -> (r: Vec<String>)
        ensures
            r@.len() == self.relay_servers@.len() + if self.use_default_bootstrap { 1int } else { 0int },
            forall|i: int| 0 <= i < self.relay_servers@.len() ==> #[trigger] r@[i]@ == self.relay_servers@[i]@,
    {
        let mut out: Vec<String> = Vec::new();
        let mut i: usize = 0;
        while i < self.relay_servers.len()
            invariant
                i <= self.relay_servers@.len(),
                out@.len() == i,
                forall|k: int| 0 <= k < i ==> #[trigger] out@[k]@ == self.relay_servers@[k]@,
            decreases self.relay_servers.len() - i,
        {
            out.push(self.relay_servers[i].clone());
            i = i + 1;
        }
        if self.use_default_bootstrap {
            let defaults = default_relay_servers();
            out.push(defaults[0].clone());
        }
        out
    }
}

/// Metadata of the peer-to-peer protocol.
pub fn p2p_info() -> (r: ProtocolInfo)
    ensures
        r.id.0@ == P2P_PROTOCOL_ID@,
        r.name@ == "P2P Direct"@,
        r.version@ == "1.0.0"@,
        r.priority == 50,
        r.supported,
{
    proof {
        reveal_strlit("P2P Direct");
    }
    ProtocolBuilder::new(P2P_PROTOCOL_ID)
        .name("P2P Direct")
        .version("1.0.0")
        .description("Peer-to-peer transfer with NAT traversal")
        .priority(50)
        .build_info()
}

/// Factory of the peer-to-peer protocol.
pub struct P2pFactory;

impl P2pFactory {
    pub fn new() -> (r: P2pFactory) {
        P2pFactory
    }

    pub fn info(&self) -> (r: ProtocolInfo)
        ensures
            r.id.0@ == P2P_PROTOCOL_ID@,
            r.priority == 50,
            r.supported,
    {
        p2p_info()
    }
}

/// The request offering files with these names and sizes, each under a
/// fresh identifier.
pub fn build_file_request(transfer_id: String, names: &Vec<String>, sizes: &Vec<u64>) -> (r: FileRequest)
    requires
        names@.len() == sizes@.len(),
    ensures
        r.transfer_id == transfer_id,
        r.files@.len() == names@.len(),
        forall|i: int| #![trigger r.files@[i]] 0 <= i < names@.len() ==> {
            &&& r.files@[i].name == names@[i]
            &&& r.files@[i].size == sizes@[i]
            &&& r.files@[i].mime_type is None
        },
{
    let mut files: Vec<P2pFileInfo> = Vec::new();
    let mut i: usize = 0;
    while i < names.len()
        invariant
            names@.len() == sizes@.len(),
            i <= names@.len(),
            files@.len() == i,
            forall|k: int| #![trigger files@[k]] 0 <= k < i ==> {
                &&& files@[k].name == names@[k]
                &&& files@[k].size == sizes@[k]
                &&& files@[k].mime_type is None
            },
        decreases names.len() - i,
    {
        files.push(P2pFileInfo { id: new_uuid(), name: names[i].clone(), size: sizes[i], mime_type: None });
        i = i + 1;
    }
    FileRequest { transfer_id, files }
}

/// The request identifier of an inbound request and the files it offers,
/// as the protocol-independent file list.
pub fn file_infos_of(request: &FileRequest) -> (r: Vec<FileInfo>)
    ensures
        r@.len() == request.files@.len(),
        forall|i: int| #![trigger r@[i]] 0 <= i < r@.len() ==> {
            &&& r@[i].id == request.files@[i].id
            &&& r@[i].name == request.files@[i].name
            &&& r@[i].size == request.files@[i].size
            &&& (request.files@[i].mime_type matches Some(m) ==> r@[i].mime_type == m)
            &&& (request.files@[i].mime_type is None ==> r@[i].mime_type@ == "application/octet-stream"@)
        },
{
    let mut out: Vec<FileInfo> = Vec::new();
    let mut i: usize = 0;
    while i < request.files.len()
        invariant
            i <= request.files@.len(),
            out@.len() == i,
            forall|k: int| #![trigger out@[k]] 0 <= k < i ==> {
                &&& out@[k].id == request.files@[k].id
                &&& out@[k].name == request.files@[k].name
                &&& out@[k].size == request.files@[k].size
                &&& (request.files@[k].mime_type matches Some(m) ==> out@[k].mime_type == m)
                &&& (request.files@[k].mime_type is None ==> out@[k].mime_type@ == "application/octet-stream"@)
            },
        decreases request.files.len() - i,
    {
        let f = &request.files[i];
        let info = FileInfo::new(f.id.clone(), f.name.clone(), f.size);
        let info = match &f.mime_type {
            Some(m) => FileInfo { mime_type: m.clone(), ..info },
            None => info,
        };
        out.push(info);
        i = i + 1;
    }
    out
}

/// An inbound request from `peer_id`, taken in: the transfer request to
/// announce and the answer to send. Requests are accepted automatically,
/// with one exception: a request whose files' sizes add up to more than
/// 64 bits can hold is refused (`accepted == false`), since no transfer
/// request can state its total size.
pub fn on_file_request(peer_id: &str, request: &FileRequest) -> (r: (Option<TransferRequest>, FileResponse))
    ensures
        r.1.transfer_id == request.transfer_id,
        r.1.message is None,
        r.0 is Some <==> r.1.accepted,
        r.0 matches Some(t) ==> {
            &&& t.wf()
            &&& t.id == request.transfer_id
            &&& t.from.peer.id.fingerprint@ == peer_id@
            &&& t.from.peer.id.protocol.0@ == P2P_PROTOCOL_ID@
            &&& t.files@.len() == request.files@.len()
            &&& forall|i: int| #![trigger t.files@[i]] 0 <= i < t.files@.len() ==> t.files@[i].id == request.files@[i].id
                && t.files@[i].size == request.files@[i].size && t.files@[i].name == request.files@[i].name
        },
{
    let files = file_infos_of(request);
    let accepted = total_size_of(&files).is_some();
    let response = FileResponse { transfer_id: request.transfer_id.clone(), accepted, message: None };
    if accepted {
        let from = peer_device(peer_id, peer_id);
        let t = TransferRequest::new(request.transfer_id.clone(), from, files);
        (Some(t), response)
    } else {
        (None, response)
    }
}

/// Sum of a list of sizes.
pub open spec fn sum_u64(s: Seq<u64>) -> int
    decreases s.len(),
{
    if s.len() == 0 { 0 } else { sum_u64(s.drop_last()) + s.last() }
}

/// Sum of a list of sizes, or none when it does not fit in 64 bits.
pub fn checked_sum(sizes: &Vec<u64>) -> (r: Option<u64>)
    ensures
        r is Some <==> sum_u64(sizes@) <= u64::MAX,
        r matches Some(t) ==> t == sum_u64(sizes@),
{
    let mut total: u64 = 0;
    let mut i: usize = 0;
    while i < sizes.len()
        invariant
            i <= sizes@.len(),
            total == sum_u64(sizes@.take(i as int)),
        decreases sizes.len() - i,
    {
        proof {
            assert(sizes@.take(i + 1).drop_last() == sizes@.take(i as int));
        }
        if sizes[i] > u64::MAX - total {
            proof {
                lemma_sum_u64_prefix(sizes@, i + 1);
            }
            return None;
        }
        total = total + sizes[i];
        i = i + 1;
    }
    assert(sizes@.take(sizes@.len() as int) == sizes@);
    Some(total)
}

proof fn lemma_sum_u64_prefix(s: Seq<u64>, k: int)
    requires
        0 <= k <= s.len(),
    ensures
        sum_u64(s) >= sum_u64(s.take(k)),
    decreases s.len() - k,
{
    if k < s.len() {
        lemma_sum_u64_prefix(s, k + 1);
        assert(s.take(k + 1).drop_last() == s.take(k));
    } else {
        assert(s.take(k) == s);
    }
}

/// An outbound transfer to `peer_id`: the request to send under a fresh
/// transfer identifier, and the session that tracks it, named after the
/// first file and sized by all of them.
pub fn plan_outbound(peer_id: &str, names: &Vec<String>, sizes: &Vec<u64>) -> (r: Result<(FileRequest, crate::p2p_sessions::TransferSession), crate::error::Error>)
    requires
        names@.len() == sizes@.len(),
    ensures
        sum_u64(sizes@) > u64::MAX ==> (r matches Err(crate::error::Error::TransferFailed(m)) && m@ == "Total size too large"@),
        sum_u64(sizes@) <= u64::MAX ==> (r matches Ok((req, s)) && {
            &&& req.transfer_id == s.id
            &&& req.files@.len() == names@.len()
            &&& forall|i: int| 0 <= i < names@.len() ==> (#[trigger] req.files@[i]).name == names@[i] && req.files@[i].size == sizes@[i]
            &&& s.peer_id@ == peer_id@
            &&& s.file_name@ == (if names@.len() > 0 { names@[0]@ } else { Seq::<char>::empty() })
            &&& s.file_size == sum_u64(sizes@)
            &&& s.state == crate::p2p_sessions::SessionState::Pending
            &&& s.bytes_transferred == 0
        }),
{
    let total = match checked_sum(sizes) {
        Some(t) => t,
        None => {
            return Err(crate::error::Error::TransferFailed(String::from_str("Total size too large")));
        },
    };
    let transfer_id = new_uuid();
    let request = build_file_request(transfer_id.clone(), names, sizes);
    let first = if names.len() > 0 { names[0].clone() } else { String::new() };
    let session = crate::p2p_sessions::TransferSession::new(transfer_id, String::from_str(peer_id), first, total);
    Ok((request, session))
}

} // verus!
