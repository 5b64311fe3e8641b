//! Protocol plane of a LAN/WAN file-sharing system: device and transfer
//! models, the protocol registry and router, the engine's bookkeeping, the
//! LocalSend wire logic (certificate fingerprint, discovery, upload sessions,
//! QUIC framing) and the chunked peer-to-peer transfer logic.

// Shared helpers.
pub mod text;
pub mod table;
pub mod ids;

// Protocol-independent model.
pub mod error;
pub mod protocol;
pub mod device;
pub mod transfer;
pub mod event;

// Engine.
pub mod registry;
pub mod engine;

// LocalSend.
pub mod cert;
pub mod models;
pub mod multicast;
pub mod server;
pub mod client;
pub mod quic;
pub mod localsend;

// Peer-to-peer.
pub mod p2p;
pub mod p2p_node;
pub mod p2p_sessions;

// Drivers' views.
pub mod cli;
pub mod ffi;
