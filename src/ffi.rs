//! Flat values handed across a foreign-language boundary, and the mapping
//! of engine events onto them.

use vstd::prelude::*;
use vstd::string::StringExecFns;
use crate::device::{Device, ip_text};
use crate::event::{Event, EventKind};
use crate::transfer::{FileInfo, TransferProgress};

verus! {

/// A device as the boundary sees it.
#[derive(Debug, Clone)]
pub struct FfiDevice {
    pub id: String,
    pub name: String,
    pub device_type: String,
    pub address: String,
    pub protocol: String,
}

/// A file as the boundary sees it.
#[derive(Debug, Clone)]
pub struct FfiFileInfo {
    pub id: String,
    pub name: String,
    pub size: u64,
    pub mime_type: Option<String>,
}

/// An inbound request as the boundary sees it.
#[derive(Debug, Clone)]
pub struct FfiTransferRequest {
    pub request_id: String,
    pub from_device: FfiDevice,
    pub files: Vec<FfiFileInfo>,
    pub total_size: u64,
}

/// Progress as the boundary sees it; the fraction done is
/// `bytes_sent / total_bytes`, computed on the other side.
#[derive(Debug, Clone)]
pub struct FfiTransferProgress {
    pub transfer_id: String,
    pub file_name: String,
    pub bytes_sent: u64,
    pub total_bytes: u64,
}

/// Events that cross the boundary.
#[derive(Debug, Clone)]
pub enum FfiEvent {
    DeviceDiscovered { device: FfiDevice },
    DeviceLost { device_id: String },
    TransferRequested { request: FfiTransferRequest },
    TransferProgress { progress: FfiTransferProgress },
    TransferCompleted { transfer_id: String },
    TransferFailed { transfer_id: String, error: String },
    Error { message: String },
}

/// Local settings reported when the engine is set up.
#[derive(Debug, Clone)]
pub struct FfiLocalInfo {
    pub device_name: String,
    pub save_dir: String,
    pub protocols: Vec<String>,
}

/// The boundary's view of a device.
pub open spec fn ffi_device_of(d: Device, f: FfiDevice) -> bool {
    &&& f.id@ == d.peer.id.protocol.0@.push(':') + d.peer.id.fingerprint@
    &&& f.name@ == d.peer.name@
    &&& f.address@ == ip_text(d.ip).push(':') + crate::text::decimal_of(d.port as nat)
    &&& f.protocol@ == d.peer.protocol.0@
}

pub fn ffi_device(d: &Device) -> (r: FfiDevice)
    ensures
        ffi_device_of(*d, r),
{
    FfiDevice {
        id: d.peer.id.to_string(),
        name: d.peer.name.clone(),
        device_type: String::from_str(d.peer.device_type.name()),
        address: d.address(),
        protocol: d.peer.protocol.to_string(),
    }
}

pub fn ffi_files(files: &Vec<FileInfo>) -> (r: Vec<FfiFileInfo>)
    ensures
        r@.len() == files@.len(),
        forall|i: int| 0 <= i < r@.len() ==> {
            &&& (#[trigger] r@[i]).id == files@[i].id
            &&& r@[i].name == files@[i].name
            &&& r@[i].size == files@[i].size
            &&& r@[i].mime_type == Some(files@[i].mime_type)
        },
{
    let mut out: Vec<FfiFileInfo> = Vec::new();
    let mut i: usize = 0;
    while i < files.len()
        invariant
            i <= files@.len(),
            out@.len() == i,
            forall|k: int| 0 <= k < i ==> {
                &&& (#[trigger] out@[k]).id == files@[k].id
                &&& out@[k].name == files@[k].name
                &&& out@[k].size == files@[k].size
                &&& out@[k].mime_type == Some(files@[k].mime_type)
            },
        decreases files.len() - i,
    {
        let f = &files[i];
        out.push(FfiFileInfo { id: f.id.clone(), name: f.name.clone(), size: f.size, mime_type: Some(f.mime_type.clone()) });
        i = i + 1;
    }
    out
}

/// The boundary's view of an event; device updates and protocol
/// lifecycle events do not cross.
pub fn convert_event(event: Event) -> (r: Option<FfiEvent>)
    ensures
        event.kind matches EventKind::DeviceDiscovered(d) ==> (r matches Some(FfiEvent::DeviceDiscovered { device }) && ffi_device_of(d, device)),
        event.kind matches EventKind::DeviceLost(id) ==> (r matches Some(FfiEvent::DeviceLost { device_id })
            && device_id@ == id.protocol.0@.push(':') + id.fingerprint@),
        event.kind matches EventKind::TransferRequested(t) ==> (r matches Some(FfiEvent::TransferRequested { request })
            && request.request_id == t.id && ffi_device_of(t.from, request.from_device)
            && request.files@.len() == t.files@.len() && request.total_size == t.total_size),
        event.kind matches EventKind::TransferProgress(p) ==> (r matches Some(FfiEvent::TransferProgress { progress })
            && progress.transfer_id == p.transfer_id && progress.bytes_sent == p.bytes_transferred
            && progress.total_bytes == p.bytes_total
            && progress.file_name@ == (match p.current_file { Some(f) => f@, None => Seq::<char>::empty() })),
        event.kind matches EventKind::TransferCompleted { transfer_id } ==> r == Some(FfiEvent::TransferCompleted { transfer_id }),
        event.kind matches EventKind::TransferFailed { transfer_id, error } ==> r == Some(FfiEvent::TransferFailed { transfer_id, error }),
        event.kind matches EventKind::Error { message, .. } ==> r == Some(FfiEvent::Error { message }),
        (event.kind is DeviceUpdated || event.kind is ProtocolStarted || event.kind is ProtocolStopped) ==> r is None,
{
    match event.kind {
        EventKind::DeviceDiscovered(d) => Some(FfiEvent::DeviceDiscovered { device: ffi_device(&d) }),
        EventKind::DeviceLost(id) => Some(FfiEvent::DeviceLost { device_id: id.to_string() }),
        EventKind::TransferRequested(t) => Some(FfiEvent::TransferRequested {
            request: FfiTransferRequest {
                request_id: t.id,
                from_device: ffi_device(&t.from),
                files: ffi_files(&t.files),
                total_size: t.total_size,
            },
        }),
        EventKind::TransferProgress(p) => Some(FfiEvent::TransferProgress {
            progress: FfiTransferProgress {
                transfer_id: p.transfer_id,
                file_name: match p.current_file {
                    Some(f) => f,
                    None => String::new(),
                },
                bytes_sent: p.bytes_transferred,
                total_bytes: p.bytes_total,
            },
        }),
        EventKind::TransferCompleted { transfer_id } => Some(FfiEvent::TransferCompleted { transfer_id }),
        EventKind::TransferFailed { transfer_id, error } => Some(FfiEvent::TransferFailed { transfer_id, error }),
        EventKind::Error { message, .. } => Some(FfiEvent::Error { message }),
        _ => None,
    }
}

} // verus!
