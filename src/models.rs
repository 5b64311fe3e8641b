//! LocalSend wire values.

use vstd::prelude::*;
use vstd::string::StringExecFns;
use crate::table::KeyedTable;

verus! {

/// Identifier of the LocalSend protocol.
pub const PROTOCOL_ID: &'static str = "localsend";

/// LocalSend protocol version spoken by this node.
pub const PROTOCOL_VERSION: &'static str = "2.1";

/// Default HTTPS and multicast port.
pub const DEFAULT_PORT: u16 = 53317;

/// DNS-SD service type.
pub const SERVICE_TYPE: &'static str = "_localsend._tcp.local.";

/// Multicast group of discovery.
pub const MULTICAST_ADDR: &'static str = "224.0.0.167";

/// Description of a node.
#[derive(Debug, Clone)]
pub struct DeviceInfo {
    pub alias: String,
    pub version: String,
    pub fingerprint: String,
    pub port: u16,
    /// `"http"` or `"https"`.
    pub protocol: String,
    pub device_model: Option<String>,
    pub device_type: Option<String>,
    pub download: Option<bool>,
}

impl DeviceInfo {
    pub fn new(alias: String, fingerprint: String, port: u16) -> (r: DeviceInfo)
        ensures
            r.alias == alias,
            r.fingerprint == fingerprint,
            r.port == port,
            r.version@ == PROTOCOL_VERSION@,
            r.protocol@ == "https"@,
            r.device_model is None,
            r.device_type matches Some(t) && t@ == "desktop"@,
            r.download == Some(false),
    {
        DeviceInfo {
            alias,
            version: String::from_str(PROTOCOL_VERSION),
            fingerprint,
            port,
            protocol: String::from_str("https"),
            device_model: None,
            device_type: Some(String::from_str("desktop")),
            download: Some(false),
        }
    }

    pub fn duplicate(&self) -> (r: DeviceInfo)
        ensures
            r == *self,
    {
        DeviceInfo {
            alias: self.alias.clone(),
            version: self.version.clone(),
            fingerprint: self.fingerprint.clone(),
            port: self.port,
            protocol: self.protocol.clone(),
            device_model: match &self.device_model {
                Some(m) => Some(m.clone()),
                None => None,
            },
            device_type: match &self.device_type {
                Some(t) => Some(t.clone()),
                None => None,
            },
            download: self.download,
        }
    }
}

/// A file offered for upload.
#[derive(Debug, Clone)]
pub struct FileInfo {
    pub id: String,
    pub file_name: String,
    pub size: u64,
    pub file_type: String,
    pub sha256: Option<String>,
    pub preview: Option<String>,
}

/// Body of `prepare-upload`: the sender and its files by identifier.
pub struct PrepareUploadRequest {
    pub info: DeviceInfo,
    pub files: KeyedTable<FileInfo>,
}

/// Answer to `prepare-upload`: the session and one token per file.
pub struct PrepareUploadResponse {
    pub session_id: String,
    pub files: KeyedTable<String>,
}

/// Body of `cancel`.
#[derive(Debug, Clone)]
pub struct CancelRequest {
    pub session_id: String,
}

/// Multicast announcement of a node.
#[derive(Debug, Clone)]
pub struct MulticastAnnounce {
    pub alias: String,
    pub version: String,
    pub fingerprint: String,
    pub port: u16,
    pub protocol: String,
    pub device_model: Option<String>,
    pub device_type: Option<String>,
    pub announce: bool,
}

impl MulticastAnnounce {
    pub fn from_info(info: DeviceInfo) -> (r: MulticastAnnounce)
        ensures
            r.alias == info.alias,
            r.version == info.version,
            r.fingerprint == info.fingerprint,
            r.port == info.port,
            r.protocol == info.protocol,
            r.device_model == info.device_model,
            r.device_type == info.device_type,
            r.announce,
    {
        MulticastAnnounce {
            alias: info.alias,
            version: info.version,
            fingerprint: info.fingerprint,
            port: info.port,
            protocol: info.protocol,
            device_model: info.device_model,
            device_type: info.device_type,
            announce: true,
        }
    }
}

} // verus!
