//! Protocol identity, metadata and configuration.

use vstd::prelude::*;
use vstd::string::StringExecFns;

verus! {

/// Short opaque protocol identifier; equality is string equality.
#[derive(Debug, Clone, Hash, PartialEq, Eq)]
pub struct ProtocolId(pub String);

impl ProtocolId {
    pub fn new(id: &str) -> (r: ProtocolId)
        ensures
            r.0@ == id@,
    {
        ProtocolId(String::from_str(id))
    }

    pub fn as_str(&self) -> (r: &str)
        ensures
            r@ == self.0@,
    {
        self.0.as_str()
    }

    /// Character-wise equality of two identifiers.
    pub fn same_as(&self, other: &ProtocolId) -> (r: bool)
        ensures
            r == (self.0@ == other.0@),
    {
        self.0 == other.0
    }

    pub fn duplicate(&self) -> (r: ProtocolId)
        ensures
            r.0@ == self.0@,
    {
        ProtocolId(self.0.clone())
    }

    /// The printable form of the identifier.
    pub fn to_string(&self) -> (r: String)
        ensures
            r@ == self.0@,
    {
        self.0.clone()
    }
}

/// Immutable metadata of a protocol.
#[derive(Debug, Clone)]
pub struct ProtocolInfo {
    pub id: ProtocolId,
    pub name: String,
    pub version: String,
    pub description: String,
    /// Whether the protocol can run on this platform.
    pub supported: bool,
    /// Larger is preferred.
    pub priority: u32,
}

impl ProtocolInfo {
    pub fn duplicate(&self) -> (r: ProtocolInfo)
        ensures
            r.id.0@ == self.id.0@,
            r.name@ == self.name@,
            r.version@ == self.version@,
            r.description@ == self.description@,
            r.supported == self.supported,
            r.priority == self.priority,
    {
        ProtocolInfo {
            id: self.id.duplicate(),
            name: self.name.clone(),
            version: self.version.clone(),
            description: self.description.clone(),
            supported: self.supported,
            priority: self.priority,
        }
    }
}

/// Configuration handed to a protocol when it starts.
#[derive(Debug, Clone)]
pub struct ProtocolConfig {
    pub device_name: String,
    /// Listening port; 0 picks the protocol's default.
    pub port: u16,
    pub save_dir: String,
    pub encryption: bool,
    pub pin: Option<String>,
}

/// Convenient construction of a protocol's metadata.
pub struct ProtocolBuilder {
    pub id: String,
    pub name: String,
    pub version: String,
    pub description: String,
    pub priority: u32,
}

impl ProtocolBuilder {
    pub fn new(id: &str) -> (r: ProtocolBuilder)
        ensures
            r.id@ == id@,
            r.name@ == Seq::<char>::empty(),
            r.version@ == "1.0"@,
            r.description@ == Seq::<char>::empty(),
            r.priority == 0,
    {
        ProtocolBuilder {
            id: String::from_str(id),
            name: String::new(),
            version: String::from_str("1.0"),
            description: String::new(),
            priority: 0,
        }
    }

    pub fn name(self, name: &str) -> (r: ProtocolBuilder)
        ensures
            r.name@ == name@,
            r.id == self.id,
            r.version == self.version,
            r.description == self.description,
            r.priority == self.priority,
    {
        ProtocolBuilder { name: String::from_str(name), ..self }
    }

    pub fn version(self, version: &str) -> (r: ProtocolBuilder)
        ensures
            r.version@ == version@,
            r.id == self.id,
            r.name == self.name,
            r.description == self.description,
            r.priority == self.priority,
    {
        ProtocolBuilder { version: String::from_str(version), ..self }
    }

    pub fn description(self, desc: &str) -> (r: ProtocolBuilder)
        ensures
            r.description@ == desc@,
            r.id == self.id,
            r.name == self.name,
            r.version == self.version,
            r.priority == self.priority,
    {
        ProtocolBuilder { description: String::from_str(desc), ..self }
    }

    pub fn priority(self, priority: u32) -> (r: ProtocolBuilder)
        ensures
            r.priority == priority,
            r.id == self.id,
            r.name == self.name,
            r.version == self.version,
            r.description == self.description,
    {
        ProtocolBuilder { priority, ..self }
    }

    /// The metadata; an empty display name falls back to the identifier.
    pub fn build_info(self) -> (r: ProtocolInfo)
        ensures
            r.id.0@ == self.id@,
            r.name@ == (if self.name@.len() == 0 { self.id@ } else { self.name@ }),
            r.version@ == self.version@,
            r.description@ == self.description@,
            r.supported,
            r.priority == self.priority,
    {
        let id = ProtocolId::new(self.id.as_str());
        let name = if self.name.as_str().unicode_len() == 0 {
            self.id.clone()
        } else {
            self.name
        };
        ProtocolInfo {
            id,
            name,
            version: self.version,
            description: self.description,
            supported: true,
            priority: self.priority,
        }
    }
}

} // verus!
