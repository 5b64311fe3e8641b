use unidrop::device::{Device, DeviceId, DeviceType, IpAddress, Peer};
use unidrop::error::Error;
use unidrop::event::{Event, EventKind};
use unidrop::protocol::{ProtocolBuilder, ProtocolId};
use unidrop::transfer::{
    total_size_of, FileInfo, TransferIntent, TransferProgress, TransferRequest, TransferState,
};

fn sample_device(fp: &str) -> Device {
    let peer = Peer::new(ProtocolId::new("localsend"), fp.to_string(), "Alpha".to_string());
    Device::new(peer, IpAddress::V4(192, 168, 1, 2), 53317)
}

#[test]
fn device_type_words_in_any_case() {
    assert_eq!(DeviceType::from_str("Phone"), DeviceType::Mobile);
    assert_eq!(DeviceType::from_str("LAPTOP"), DeviceType::Desktop);
    assert_eq!(DeviceType::from_str("ipad"), DeviceType::Tablet);
    assert_eq!(DeviceType::from_str("Browser"), DeviceType::Web);
    assert_eq!(DeviceType::from_str("headless"), DeviceType::Server);
    assert_eq!(DeviceType::from_str("toaster"), DeviceType::Unknown);
    assert_eq!(DeviceType::from_str(""), DeviceType::Unknown);
}

#[test]
fn device_id_printable_form() {
    let id = DeviceId::new(ProtocolId::new("p2p"), "12D3Koo".to_string());
    assert_eq!(id.to_string(), "p2p:12D3Koo");
}

#[test]
fn peer_defaults_and_builders() {
    let p = Peer::new(ProtocolId::new("localsend"), "AB".to_string(), "Alpha".to_string());
    assert_eq!(p.device_type, DeviceType::Desktop);
    assert!(p.model.is_none());
    assert_eq!(p.protocol_version, "");
    let p = p.with_device_type(DeviceType::Mobile).with_model("Pixel").with_version("2.1");
    assert_eq!(p.device_type, DeviceType::Mobile);
    assert_eq!(p.model.as_deref(), Some("Pixel"));
    assert_eq!(p.protocol_version, "2.1");
    assert_eq!(p.id.fingerprint, "AB");
}

#[test]
fn error_categories() {
    assert!(Error::Timeout.is_retryable());
    assert!(Error::Network("x".to_string()).is_retryable());
    assert!(!Error::Rejected.is_retryable());
    assert!(Error::Rejected.is_cancelled());
    assert!(Error::Cancelled.is_cancelled());
    assert!(!Error::Timeout.is_cancelled());
    assert!(!Error::Internal("x".to_string()).is_cancelled());
}

#[test]
fn transfer_request_total_is_sum_of_sizes() {
    let files = vec![
        FileInfo::new("a".to_string(), "a.txt".to_string(), 5),
        FileInfo::new("b".to_string(), "b.bin".to_string(), 131072),
        FileInfo::new("c".to_string(), "c".to_string(), 0),
    ];
    let r = TransferRequest::new("req".to_string(), sample_device("F"), files);
    assert_eq!(r.total_size, 131077);
    assert_eq!(r.file_count(), 3);
}

#[test]
fn total_size_overflow_is_none() {
    let files = vec![
        FileInfo::new("a".to_string(), "a".to_string(), u64::MAX),
        FileInfo::new("b".to_string(), "b".to_string(), 1),
    ];
    assert_eq!(total_size_of(&files), None);
    assert_eq!(total_size_of(&vec![]), Some(0));
}

#[test]
fn file_info_defaults() {
    let f = FileInfo::new("id".to_string(), "x.png".to_string(), 3).with_mime("image/png");
    assert_eq!(f.mime_type, "image/png");
    let g = FileInfo::new("id".to_string(), "x".to_string(), 3);
    assert_eq!(g.mime_type, "application/octet-stream");
}

#[test]
fn intent_message() {
    let id = DeviceId::new(ProtocolId::new("p2p"), "peer".to_string());
    let i = TransferIntent::new(id, vec!["./a.bin".to_string()]).with_message("hi");
    assert_eq!(i.message.as_deref(), Some("hi"));
    assert_eq!(i.files.len(), 1);
}

#[test]
fn terminal_states_absorb() {
    for s in [TransferState::Completed, TransferState::Rejected, TransferState::Cancelled, TransferState::Failed] {
        assert!(s.is_terminal());
        for n in [TransferState::Pending, TransferState::Transferring, TransferState::Completed, TransferState::Rejected, TransferState::Cancelled, TransferState::Failed] {
            assert_eq!(s.transition(n), s);
        }
    }
    assert!(!TransferState::Pending.is_terminal());
    assert!(!TransferState::Transferring.is_terminal());
    assert_eq!(TransferState::Pending.transition(TransferState::Transferring), TransferState::Transferring);
}

#[test]
fn progress_stays_within_totals() {
    let mut p = TransferProgress::new("t".to_string(), 100, 2);
    p.record(150, 5);
    assert_eq!(p.bytes_transferred, 100);
    assert_eq!(p.files_completed, 2);
    assert_eq!(p.state, TransferState::Transferring);
    p.record(40, 1);
    assert_eq!(p.bytes_transferred, 40);
    p.fail("broken".to_string());
    assert_eq!(p.state, TransferState::Failed);
    p.complete();
    assert_eq!(p.state, TransferState::Failed);
    assert_eq!(p.bytes_transferred, 40);
    let mut q = TransferProgress::new("u".to_string(), 10, 1);
    q.complete();
    assert_eq!(q.bytes_transferred, 10);
    assert_eq!(q.files_completed, 1);
}

#[test]
fn events_carry_protocol() {
    let e = Event::device_discovered(sample_device("F"));
    assert_eq!(e.protocol.as_deref(), Some("localsend"));
    assert!(matches!(e.kind, EventKind::DeviceDiscovered(_)));
    let l = Event::device_lost(DeviceId::new(ProtocolId::new("p2p"), "x".to_string()));
    assert_eq!(l.protocol.as_deref(), Some("p2p"));
    let c = Event::transfer_completed("s1".to_string());
    assert!(matches!(c.kind, EventKind::TransferCompleted { ref transfer_id } if transfer_id == "s1"));
    assert!(c.protocol.is_none());
}

#[test]
fn builder_name_falls_back_to_id() {
    let info = ProtocolBuilder::new("demo").priority(7).build_info();
    assert_eq!(info.name, "demo");
    assert_eq!(info.version, "1.0");
    assert_eq!(info.priority, 7);
    assert!(info.supported);
    let named = ProtocolBuilder::new("demo").name("Demo").version("2").description("d").build_info();
    assert_eq!(named.name, "Demo");
    assert_eq!(named.version, "2");
    assert_eq!(named.description, "d");
    assert_eq!(ProtocolId::new("demo").as_str(), "demo");
}
