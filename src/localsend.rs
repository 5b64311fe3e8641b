//! The LocalSend protocol's own decisions: its metadata, the description
//! it announces, and the ports it uses.

use vstd::prelude::*;
use crate::cert::{CertInfo, colon_hex, sha256_of};
use crate::models::{DeviceInfo, DEFAULT_PORT, PROTOCOL_ID, PROTOCOL_VERSION};
use crate::multicast::{MulticastDto, dto_for};
use crate::protocol::{ProtocolBuilder, ProtocolConfig, ProtocolInfo};

verus! {

/// Metadata of the LocalSend protocol.
pub fn localsend_info() -> (r: ProtocolInfo)
    ensures
        r.id.0@ == PROTOCOL_ID@,
        r.name@ == "LocalSend"@,
        r.version@ == PROTOCOL_VERSION@,
        r.priority == 100,
        r.supported,
{
    proof {
        reveal_strlit("LocalSend");
    }
    ProtocolBuilder::new(PROTOCOL_ID)
        .name("LocalSend")
        .version(PROTOCOL_VERSION)
        .description("Cross-platform file sharing compatible with LocalSend")
        .priority(100)
        .build_info()
}

/// Factory of the LocalSend protocol.
pub struct LocalSendFactory;

impl LocalSendFactory {
    pub fn new() -> (r: LocalSendFactory) {
        LocalSendFactory
    }

    pub fn info(&self) -> (r: ProtocolInfo)
        ensures
            r.id.0@ == PROTOCOL_ID@,
            r.priority == 100,
            r.supported,
    {
        localsend_info()
    }
}

/// The port a configuration asks for; 0 means the default.
pub fn effective_port(config: &ProtocolConfig) -> (r: u16)
    ensures
        config.port == 0 ==> r == DEFAULT_PORT,
        config.port != 0 ==> r == config.port,
{
    if config.port == 0 { DEFAULT_PORT } else { config.port }
}

/// The description a node announces: its configured name, the SHA-256
/// fingerprint of its certificate, and its port.
pub fn local_device_info(cert: &CertInfo, config: &ProtocolConfig) -> (r: DeviceInfo)
    requires
        cert.wf(),
    ensures
        r.alias == config.device_name,
        r.fingerprint@ == colon_hex(sha256_of(cert.cert_der@)),
        r.port == if config.port == 0 { DEFAULT_PORT } else { config.port },
        r.version@ == PROTOCOL_VERSION@,
        r.protocol@ == "https"@,
{
    DeviceInfo::new(config.device_name.clone(), cert.fingerprint.clone(), effective_port(config))
}

/// The multicast announcement of a node with this certificate and
/// configuration.
pub fn announcement_for(cert: &CertInfo, config: &ProtocolConfig) -> (r: MulticastDto)
    requires
        cert.wf(),
    ensures
        r.fingerprint@ == colon_hex(sha256_of(cert.cert_der@)),
        r.spec_is_announcement(),
        r.port == Some(if config.port == 0 { DEFAULT_PORT } else { config.port }),
{
    let info = local_device_info(cert, config);
    MulticastDto::announcement(&info)
}

/// The fingerprint that a node announces, by multicast or as its
/// description, is the SHA-256 fingerprint of the certificate it serves.
pub proof fn lemma_announced_fingerprint(cert: CertInfo, info: DeviceInfo, dto: MulticastDto, flag: bool)
    requires
        cert.wf(),
        info.fingerprint == cert.fingerprint,
        dto_for(info, flag, dto),
    ensures
        info.fingerprint@ == colon_hex(sha256_of(cert.cert_der@)),
        dto.fingerprint@ == colon_hex(sha256_of(cert.cert_der@)),
{
}

} // verus!
