use unidrop::cli::{select_target, TargetChoice};
use unidrop::client::{prepare_outcome, token_for, upload_file_infos};
use unidrop::device::{Device, DeviceId, IpAddress, Peer};
use unidrop::error::Error;
use unidrop::event::{Event, EventKind};
use unidrop::ffi::{convert_event, FfiEvent};
use unidrop::models::{DeviceInfo, PrepareUploadRequest};
use unidrop::p2p::{split_into_chunks, step_after_ack, ReceiveBuffers, SendStep};
use unidrop::p2p_sessions::{SessionState, TransferManager, TransferSession};
use unidrop::protocol::ProtocolId;
use unidrop::server::{parse_upload_query, PrepareUploadQuery, ServerState, UploadQuery};
use unidrop::transfer::{FileInfo, TransferProgress, TransferRequest};

fn dev(fp: &str, name: &str) -> Device {
    let peer = Peer::new(ProtocolId::new("localsend"), fp.to_string(), name.to_string());
    Device::new(peer, IpAddress::V4(192, 168, 0, 7), 53317)
}

#[test]
fn https_transfer_of_hello_txt() {
    let alpha = DeviceInfo::new("Alpha".to_string(), "FA".to_string(), 53317);
    let mut beta = ServerState::new(DeviceInfo::new("Beta".to_string(), "FB".to_string(), 53317), "/save".to_string(), None);
    let files = upload_file_infos(&vec!["./hello.txt".to_string()], &vec!["hello.txt".to_string()], &vec![5]);
    let resp = beta.prepare_upload(&PrepareUploadQuery { pin: None }, PrepareUploadRequest { info: alpha, files }).ok().unwrap();
    let token = token_for(&resp, "file_0").ok().unwrap();
    let q = UploadQuery { session_id: resp.session_id.clone(), file_id: "file_0".to_string(), token };
    let target = beta.check_upload(&q).ok().unwrap();
    assert_eq!(target.file_name, "hello.txt");
    assert_eq!(target.save_dir, "/save");
    assert_eq!(resp.session_id.len(), 36);
}

#[test]
fn pin_reject_leaves_receiver_unchanged() {
    let alpha = DeviceInfo::new("Alpha".to_string(), "FA".to_string(), 53317);
    let mut beta = ServerState::new(DeviceInfo::new("Beta".to_string(), "FB".to_string(), 53317), "/save".to_string(), Some("1234".to_string()));
    let files = upload_file_infos(&vec!["./hello.txt".to_string()], &vec!["hello.txt".to_string()], &vec![5]);
    let status = beta.prepare_upload(&PrepareUploadQuery { pin: None }, PrepareUploadRequest { info: alpha, files }).err().unwrap();
    assert_eq!(status, 401);
    assert_eq!(beta.sessions.len(), 0);
    assert!(matches!(prepare_outcome(status), Err(Error::Rejected)));
    assert!(matches!(prepare_outcome(403), Err(Error::Rejected)));
}

#[test]
fn cancel_during_p2p_fails_sender() {
    let data = vec![3u8; 10 * 1024 * 1024];
    let chunks = split_into_chunks(&"t".to_string(), &"f".to_string(), &"big.bin".to_string(), &data);
    assert_eq!(chunks.len(), 160);
    let mut rx = ReceiveBuffers::new();
    let mut sessions = TransferManager::new();
    sessions.add_session(TransferSession::new("t".to_string(), "A".to_string(), "big.bin".to_string(), data.len() as u64));
    let mut index = 0usize;
    while index < 32 {
        let (ack, done) = rx.on_chunk(&chunks[index]);
        assert!(done.is_none());
        match step_after_ack(&chunks, index, Some(&ack)) {
            SendStep::Next(i) => index = i,
            other => panic!("unexpected {:?}", other),
        }
        sessions.update_progress("t", (index * 65536) as u64);
    }
    sessions.cancel("t");
    assert_eq!(step_after_ack(&chunks, index, None), SendStep::Fail);
    sessions.complete("t");
    assert_eq!(sessions.get_session("t").unwrap().state, SessionState::Cancelled);
}

#[test]
fn upload_query_text() {
    let q = parse_upload_query("sessionId=S1&fileId=file_0&token=T9").unwrap();
    assert_eq!(q.session_id, "S1");
    assert_eq!(q.file_id, "file_0");
    assert_eq!(q.token, "T9");
    let later = parse_upload_query("token=a&sessionId=S&fileId=F&token=b=c").unwrap();
    assert_eq!(later.token, "b=c");
    assert!(parse_upload_query("sessionId=S&fileId=F").is_none());
    let bare = parse_upload_query("sessionId&fileId=&token=x").unwrap();
    assert_eq!(bare.session_id, "");
    assert_eq!(bare.file_id, "");
    assert!(parse_upload_query("").is_none());
}

#[test]
fn target_choice() {
    let devices = vec![dev("ABCD1234", "Alpha Laptop"), dev("EF567890", "Beta Phone"), dev("AB99", "Gamma")];
    assert_eq!(select_target(&devices, Some("beta")), TargetChoice::Chosen(1));
    assert_eq!(select_target(&devices, Some("EF5")), TargetChoice::Chosen(1));
    assert_eq!(select_target(&devices, Some("zzz")), TargetChoice::NotFound);
    assert_eq!(select_target(&devices, Some("AB")), TargetChoice::Ambiguous(vec![0, 2]));
    assert_eq!(select_target(&devices, None), TargetChoice::NeedTarget);
    assert_eq!(select_target(&devices[..1].to_vec(), None), TargetChoice::Chosen(0));
    assert_eq!(select_target(&vec![], Some("x")), TargetChoice::NoDevices);
}

#[test]
fn addresses_and_ffi_events() {
    let d = dev("FA", "Alpha");
    assert_eq!(d.address(), "192.168.0.7:53317");
    let v6 = Device::new(Peer::new(ProtocolId::new("p2p"), "x".to_string(), "x".to_string()), IpAddress::V6(0xfe80, 0, 0, 0, 0, 0, 0, 1), 9);
    assert_eq!(v6.address(), "fe80:0:0:0:0:0:0:1:9");
    match convert_event(Event::device_discovered(d.clone())) {
        Some(FfiEvent::DeviceDiscovered { device }) => {
            assert_eq!(device.id, "localsend:FA");
            assert_eq!(device.device_type, "Desktop");
            assert_eq!(device.address, "192.168.0.7:53317");
        }
        _ => panic!("expected a device"),
    }
    let req = TransferRequest::new("r".to_string(), d, vec![FileInfo::new("1".to_string(), "a".to_string(), 9)]);
    match convert_event(Event::transfer_requested(req)) {
        Some(FfiEvent::TransferRequested { request }) => {
            assert_eq!(request.total_size, 9);
            assert_eq!(request.files[0].mime_type.as_deref(), Some("application/octet-stream"));
        }
        _ => panic!("expected a request"),
    }
    let mut p = TransferProgress::new("t".to_string(), 10, 1);
    p.record(4, 0);
    assert!(matches!(convert_event(Event::transfer_progress(p)), Some(FfiEvent::TransferProgress { ref progress }) if progress.bytes_sent == 4 && progress.total_bytes == 10));
    assert!(convert_event(Event::engine_started()).is_none());
    assert!(matches!(convert_event(Event::device_lost(DeviceId::new(ProtocolId::new("p2p"), "q".to_string()))), Some(FfiEvent::DeviceLost { ref device_id }) if device_id == "p2p:q"));
    let e = Event::new(EventKind::DeviceUpdated(dev("FB", "Beta")));
    assert!(convert_event(e).is_none());
}
