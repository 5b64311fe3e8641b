//! The unified event stream.

use vstd::prelude::*;
use vstd::string::StringExecFns;
use crate::device::{Device, DeviceId, unix_now_millis};
use crate::transfer::{TransferProgress, TransferRequest};

verus! {

/// What happened.
#[derive(Debug, Clone)]
pub enum EventKind {
    DeviceDiscovered(Device),
    DeviceLost(DeviceId),
    DeviceUpdated(Device),
    TransferRequested(TransferRequest),
    TransferProgress(TransferProgress),
    TransferCompleted { transfer_id: String },
    TransferFailed { transfer_id: String, error: String },
    ProtocolStarted { protocol: String },
    ProtocolStopped { protocol: String },
    Error { source: String, message: String },
}

/// An event with the time it was made and the protocol it came from.
#[derive(Debug, Clone)]
pub struct Event {
    pub kind: EventKind,
    /// Unix milliseconds.
    pub timestamp: u64,
    pub protocol: Option<String>,
}

impl Event {
    /// Progress events carry counts within their totals.
    pub open spec fn wf(&self) -> bool {
        self.kind matches EventKind::TransferProgress(p) ==> p.wf()
    }

    pub fn new(kind: EventKind) -> (r: Event)
        ensures
            r.kind == kind,
            r.protocol is None,
    {
        Event { kind, timestamp: unix_now_millis(), protocol: None }
    }

    pub fn with_protocol(self, protocol: String) -> (r: Event)
        ensures
            r.kind == self.kind,
            r.timestamp == self.timestamp,
            r.protocol == Some(protocol),
    {
        Event { protocol: Some(protocol), ..self }
    }

    pub fn device_discovered(device: Device) -> (r: Event)
        ensures
            r.kind == EventKind::DeviceDiscovered(device),
            r.protocol matches Some(p) && p@ == device.peer.protocol.0@,
    {
        let protocol = device.protocol().to_string();
        Event::new(EventKind::DeviceDiscovered(device)).with_protocol(protocol)
    }

    pub fn device_updated(device: Device) -> (r: Event)
        ensures
            r.kind == EventKind::DeviceUpdated(device),
            r.protocol matches Some(p) && p@ == device.peer.protocol.0@,
    {
        let protocol = device.protocol().to_string();
        Event::new(EventKind::DeviceUpdated(device)).with_protocol(protocol)
    }

    pub fn device_lost(id: DeviceId) -> (r: Event)
        ensures
            r.kind == EventKind::DeviceLost(id),
            r.protocol matches Some(p) && p@ == id.protocol.0@,
    {
        let protocol = id.protocol.to_string();
        Event::new(EventKind::DeviceLost(id)).with_protocol(protocol)
    }

    pub fn transfer_requested(request: TransferRequest) -> (r: Event)
        ensures
            r.kind == EventKind::TransferRequested(request),
            r.protocol matches Some(p) && p@ == request.from.peer.protocol.0@,
    {
        let protocol = request.from.protocol().to_string();
        Event::new(EventKind::TransferRequested(request)).with_protocol(protocol)
    }

    pub fn transfer_progress(progress: TransferProgress) -> (r: Event)
        requires
            progress.wf(),
        ensures
            r.wf(),
            r.kind == EventKind::TransferProgress(progress),
            r.protocol is None,
    {
        Event::new(EventKind::TransferProgress(progress))
    }

    pub fn transfer_completed(transfer_id: String) -> (r: Event)
        ensures
            r.kind == (EventKind::TransferCompleted { transfer_id }),
            r.protocol is None,
    {
        Event::new(EventKind::TransferCompleted { transfer_id })
    }

    pub fn transfer_failed(transfer_id: String, error: String) -> (r: Event)
        ensures
            r.kind == (EventKind::TransferFailed { transfer_id, error }),
            r.protocol is None,
    {
        Event::new(EventKind::TransferFailed { transfer_id, error })
    }

    pub fn error(source: String, message: String) -> (r: Event)
        ensures
            r.kind == (EventKind::Error { source, message }),
            r.protocol is None,
    {
        Event::new(EventKind::Error { source, message })
    }

    pub fn engine_started() -> (r: Event)
        ensures
            r.kind matches EventKind::ProtocolStarted { protocol } && protocol@ == "engine"@,
    {
        Event::new(EventKind::ProtocolStarted { protocol: String::from_str("engine") })
    }

    pub fn engine_stopped() -> (r: Event)
        ensures
            r.kind matches EventKind::ProtocolStopped { protocol } && protocol@ == "engine"@,
    {
        Event::new(EventKind::ProtocolStopped { protocol: String::from_str("engine") })
    }
}

} // verus!
