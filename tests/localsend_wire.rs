use unidrop::cert::{colon_hex_of, device_id_of_digest, generate_self_signed};
use unidrop::client::{file_id_for, guess_mime_type, prepare_outcome, upload_file_infos, upload_outcome, upload_url};
use unidrop::device::{DeviceType, IpAddress};
use unidrop::error::Error;
use unidrop::event::EventKind;
use unidrop::localsend::{announcement_for, local_device_info, LocalSendFactory};
use unidrop::models::{DeviceInfo, FileInfo, PrepareUploadRequest};
use unidrop::multicast::{mdns_registration, parse_service_info, LocalDevices, MulticastDto};
use unidrop::protocol::ProtocolConfig;
use unidrop::quic::{answer_request, frame, header_accepted, parse_frame, quic_port, tokens_from_response, FileMetadata, Message};
use unidrop::server::{PrepareUploadQuery, ServerState, UploadQuery};
use unidrop::table::KeyedTable;

#[test]
fn test_generate_cert() {
    let info = generate_self_signed("UniDrop").unwrap();
    assert!(!info.cert_der.is_empty());
    assert!(!info.key_der.is_empty());
    assert!(!info.fingerprint.is_empty());
    assert_eq!(info.device_id.len(), 32);
}

#[test]
fn fingerprint_format() {
    let d = vec![0x0a, 0xff, 0x10];
    assert_eq!(colon_hex_of(&d), "0A:FF:10");
    let digest: Vec<u8> = (0u8..32).collect();
    assert_eq!(device_id_of_digest(&digest), "000102030405060708090A0B0C0D0E0F");
    let cert = generate_self_signed("UniDrop").unwrap();
    assert_eq!(cert.fingerprint.len(), 32 * 3 - 1);
    assert_eq!(cert.fingerprint.replace(':', "")[..32], cert.device_id);
}

fn config(port: u16) -> ProtocolConfig {
    ProtocolConfig { device_name: "Alpha".to_string(), port, save_dir: "/tmp".to_string(), encryption: true, pin: None }
}

#[test]
fn announcement_carries_certificate_identity() {
    let cert = generate_self_signed("UniDrop").unwrap();
    let dto = announcement_for(&cert, &config(0));
    assert_eq!(dto.fingerprint, cert.fingerprint);
    assert_eq!(dto.fingerprint.len(), 95);
    assert_eq!(dto.port, Some(53317));
    assert!(dto.is_announcement());
    let info = local_device_info(&cert, &config(4000));
    assert_eq!(info.port, 4000);
    assert_eq!(info.version, "2.1");
    assert_eq!(LocalSendFactory::new().info().priority, 100);
}

fn info(alias: &str, fp: &str) -> DeviceInfo {
    DeviceInfo::new(alias.to_string(), fp.to_string(), 53317)
}

#[test]
fn announcement_and_response_flags() {
    let a = MulticastDto::announcement(&info("Alpha", "FA"));
    assert_eq!(a.announce, Some(true));
    assert_eq!(a.announcement, Some(true));
    let r = MulticastDto::response(&info("Alpha", "FA"));
    assert!(!r.is_announcement());
    let mut v1 = r.clone();
    v1.announcement = Some(true);
    assert!(v1.is_announcement());
}

#[test]
fn lan_discovery_between_two_nodes() {
    let alpha = info("Alpha", "FA");
    let beta = info("Beta", "FB");
    let mut on_b = LocalDevices::new("FB".to_string());
    let out = on_b.on_datagram(&MulticastDto::announcement(&alpha), IpAddress::V4(10, 0, 0, 1), &beta);
    match out.event.unwrap().kind {
        EventKind::DeviceDiscovered(d) => {
            assert_eq!(d.peer.name, "Alpha");
            assert_eq!(d.port, 53317);
            assert_eq!(d.ip, IpAddress::V4(10, 0, 0, 1));
        }
        _ => panic!("expected a discovery"),
    }
    let reply = out.reply.unwrap();
    assert_eq!(reply.fingerprint, "FB");
    assert!(!reply.is_announcement());
    let mut on_a = LocalDevices::new("FA".to_string());
    let back = on_a.on_datagram(&reply, IpAddress::V4(10, 0, 0, 2), &alpha);
    assert!(matches!(back.event.unwrap().kind, EventKind::DeviceDiscovered(ref d) if d.peer.name == "Beta"));
    assert!(back.reply.is_none());
    let again = on_b.on_datagram(&MulticastDto::announcement(&alpha), IpAddress::V4(10, 0, 0, 1), &beta);
    assert!(matches!(again.event.unwrap().kind, EventKind::DeviceUpdated(_)));
    assert_eq!(on_b.devices().len(), 1);
}

#[test]
fn own_datagram_is_dropped() {
    let me = info("Me", "F0");
    let mut devs = LocalDevices::new("F0".to_string());
    let out = devs.on_datagram(&MulticastDto::announcement(&me), IpAddress::V4(10, 0, 0, 9), &me);
    assert!(out.event.is_none());
    assert!(out.reply.is_none());
    assert!(devs.devices().is_empty());
}

#[test]
fn datagram_defaults() {
    let mut dto = MulticastDto::response(&info("Gamma", "FC"));
    dto.port = None;
    dto.version = None;
    dto.device_type = Some("Phone".to_string());
    let mut devs = LocalDevices::new("F0".to_string());
    devs.on_datagram(&dto, IpAddress::V4(1, 1, 1, 1), &info("Me", "F0"));
    let d = devs.device("FC").unwrap();
    assert_eq!(d.port, 53317);
    assert_eq!(d.peer.protocol_version, "2.0");
    assert_eq!(d.peer.device_type, DeviceType::Mobile);
}

#[test]
fn mdns_records() {
    let props = vec![
        ("alias".to_string(), "Delta".to_string()),
        ("fingerprint".to_string(), "FD".to_string()),
    ];
    let d = parse_service_info(&props, &vec![IpAddress::V4(10, 1, 1, 1)], 53320, "F0").unwrap();
    assert_eq!(d.peer.name, "Delta");
    assert_eq!(d.peer.protocol_version, "2.0");
    assert_eq!(d.port, 53320);
    assert!(parse_service_info(&props, &vec![], 1, "FD").is_none());
    assert!(parse_service_info(&vec![], &vec![], 1, "F0").is_none());
    let (name, host, txt) = mdns_registration(&DeviceInfo::new("My Box".to_string(), "0123456789AB".to_string(), 53317));
    assert_eq!(name, "My Box-01234567");
    assert_eq!(host, "My-Box-01234567.local.");
    assert_eq!(txt.len(), 5);
    assert_eq!(txt[4], ("deviceType".to_string(), "desktop".to_string()));
}

fn prepare_request(file_ids: &[&str]) -> PrepareUploadRequest {
    let mut files = KeyedTable::new();
    for id in file_ids {
        files.insert(
            id.to_string(),
            FileInfo { id: id.to_string(), file_name: format!("{}.txt", id), size: 5, file_type: "text/plain".to_string(), sha256: None, preview: None },
        );
    }
    PrepareUploadRequest { info: info("Alpha", "FA"), files }
}

#[test]
fn pin_required_but_missing_is_unauthorized() {
    let mut s = ServerState::new(info("Beta", "FB"), "/save".to_string(), Some("1234".to_string()));
    let r = s.prepare_upload(&PrepareUploadQuery { pin: None }, prepare_request(&["hello"]));
    assert_eq!(r.err(), Some(401));
    let r = s.prepare_upload(&PrepareUploadQuery { pin: Some("9999".to_string()) }, prepare_request(&["hello"]));
    assert_eq!(r.err(), Some(401));
    assert_eq!(s.sessions.len(), 0);
    let ok = s.prepare_upload(&PrepareUploadQuery { pin: Some("1234".to_string()) }, prepare_request(&["hello"]));
    assert!(ok.is_ok());
}

#[test]
fn upload_token_and_session_checks() {
    let mut s = ServerState::new(info("Beta", "FB"), "/save".to_string(), None);
    let resp = s.prepare_upload(&PrepareUploadQuery { pin: None }, prepare_request(&["hello", "other"])).ok().unwrap();
    let token = resp.files.get("hello").unwrap().clone();
    assert_ne!(&token, resp.files.get("other").unwrap());
    let second = s.prepare_upload(&PrepareUploadQuery { pin: None }, prepare_request(&["x"])).ok().unwrap();
    assert_ne!(second.session_id, resp.session_id);
    assert_eq!(s.sessions.len(), 2);
    let good = UploadQuery { session_id: resp.session_id.clone(), file_id: "hello".to_string(), token: token.clone() };
    let target = s.check_upload(&good).ok().unwrap();
    assert_eq!(target.file_name, "hello.txt");
    assert_eq!(target.save_dir, "/save");
    let bad_token = UploadQuery { token: "nope".to_string(), ..good.clone() };
    assert_eq!(s.check_upload(&bad_token).err(), Some(401));
    let unknown_session = UploadQuery { session_id: "missing".to_string(), ..good.clone() };
    assert_eq!(s.check_upload(&unknown_session).err(), Some(404));
    let unknown_file = UploadQuery { file_id: "zzz".to_string(), ..good.clone() };
    assert_eq!(s.check_upload(&unknown_file).err(), Some(404));
    assert_eq!(s.cancel(&resp.session_id), 200);
    assert_eq!(s.check_upload(&good).err(), Some(404));
}

#[test]
fn mime_guess_by_extension() {
    assert_eq!(guess_mime_type("./hello.txt"), "text/plain");
    assert_eq!(guess_mime_type("/x/PHOTO.JPEG"), "image/jpeg");
    assert_eq!(guess_mime_type("archive.tar.gz"), "application/gzip");
    assert_eq!(guess_mime_type("noext"), "application/octet-stream");
    assert_eq!(guess_mime_type("a.unknown"), "application/octet-stream");
}

#[test]
fn offered_files_and_outcomes() {
    assert_eq!(file_id_for(12), "file_12");
    let t = upload_file_infos(
        &vec!["./hello.txt".to_string(), "./b.png".to_string()],
        &vec!["hello.txt".to_string(), "b.png".to_string()],
        &vec![5, 0],
    );
    assert_eq!(t.len(), 2);
    assert_eq!(t.get("file_0").unwrap().file_type, "text/plain");
    assert_eq!(t.get("file_1").unwrap().size, 0);
    assert!(matches!(prepare_outcome(403), Err(Error::Rejected)));
    assert!(matches!(prepare_outcome(401), Err(Error::Rejected)));
    assert!(matches!(prepare_outcome(500), Err(Error::Network(ref m)) if m == "Prepare failed: 500"));
    assert!(prepare_outcome(200).is_ok());
    assert!(matches!(upload_outcome(404), Err(Error::TransferFailed(ref m)) if m == "Upload failed: 404"));
    assert_eq!(upload_url("https://h:1/api/localsend/v2", "S", "file_0", "T"), "https://h:1/api/localsend/v2/upload?sessionId=S&fileId=file_0&token=T");
}

#[test]
fn frames_round_trip() {
    let payload = b"{\"TransferComplete\":{}}".to_vec();
    let mut f = frame(&payload).unwrap();
    assert_eq!(&f[..4], &[0, 0, 0, payload.len() as u8]);
    f.extend_from_slice(&[9, 9]);
    let (p, used) = parse_frame(&f).unwrap();
    assert_eq!(p, payload);
    assert_eq!(used, payload.len() + 4);
    assert!(parse_frame(&vec![0, 0, 1]).is_none());
    assert!(parse_frame(&vec![0, 0, 0, 5, 1]).is_none());
    let empty = frame(&vec![]).unwrap();
    assert_eq!(empty, vec![0, 0, 0, 0]);
    assert_eq!(quic_port(53317), Some(53318));
    assert_eq!(quic_port(65535), None);
}

#[test]
fn quic_exchange_decisions() {
    let files = vec![FileMetadata { id: "file_0".to_string(), name: "hello.txt".to_string(), size: 5, mime_type: None }];
    let (resp, tokens) = answer_request(&Message::TransferRequest { session_id: "s".to_string(), files: files.clone() });
    let tokens = tokens.unwrap();
    assert_eq!(tokens.len(), 1);
    assert!(header_accepted(&files, &tokens, "file_0", &tokens[0]));
    assert!(!header_accepted(&files, &tokens, "file_0", "bad"));
    assert!(!header_accepted(&files, &tokens, "file_9", &tokens[0]));
    let got = tokens_from_response(resp, 1).ok().unwrap();
    assert_eq!(got, tokens);
    let (err, none) = answer_request(&Message::TransferComplete { session_id: "s".to_string() });
    assert!(none.is_none());
    assert!(matches!(err, Message::Error { ref message } if message == "Expected TransferRequest"));
    let rej = tokens_from_response(Message::TransferResponse { session_id: "s".to_string(), accepted: false, tokens: vec![] }, 1);
    assert!(matches!(rej, Err(Error::Protocol(ref m)) if m == "Transfer rejected"));
}

#[test]
fn quic_file_list_and_lookup_by_id() {
    let m = unidrop::quic::file_metadata_for(&vec!["a.txt".to_string(), "b".to_string()], &vec![1, 2]);
    assert_eq!(m[1].id, "file_1");
    assert_eq!(m[1].size, 2);
    let mut devs = LocalDevices::new("F0".to_string());
    devs.on_datagram(&MulticastDto::response(&info("Eps", "FE")), IpAddress::V4(1, 2, 3, 4), &info("Me", "F0"));
    let id = unidrop::device::DeviceId::new(unidrop::protocol::ProtocolId::new("localsend"), "FE".to_string());
    assert_eq!(devs.device_by_id(&id).unwrap().peer.name, "Eps");
    let other = unidrop::device::DeviceId::new(unidrop::protocol::ProtocolId::new("p2p"), "FE".to_string());
    assert!(devs.device_by_id(&other).is_none());
}

#[test]
fn departed_device_is_lost() {
    let mut devs = LocalDevices::new("F0".to_string());
    devs.on_datagram(&MulticastDto::response(&info("Zeta", "FZ")), IpAddress::V4(1, 2, 3, 5), &info("Me", "F0"));
    let e = devs.forget("FZ").unwrap();
    assert!(matches!(e.kind, EventKind::DeviceLost(ref id) if id.fingerprint == "FZ"));
    assert!(devs.devices().is_empty());
    assert!(devs.forget("FZ").is_none());
}
