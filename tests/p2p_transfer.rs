use unidrop::event::EventKind;
use unidrop::p2p::{
    split_into_chunks, step_after_ack, total_chunks, FileChunk, FileChunkAck, P2pFileInfo, FileRequest,
    ReceiveBuffers, SendStep, DEFAULT_CHUNK_SIZE,
};
use unidrop::p2p_node::{
    build_file_request, checked_sum, is_relay_agent, plan_outbound, on_file_request, P2pConfig, P2pFactory, PeerList, RelayState,
};
use unidrop::p2p_sessions::{SessionState, TransferManager, TransferSession};

fn chunks_of(len: usize) -> Vec<FileChunk> {
    let data: Vec<u8> = (0..len).map(|i| (i % 251) as u8).collect();
    split_into_chunks(&"t".to_string(), &"f".to_string(), &"a.bin".to_string(), &data)
}

#[test]
fn empty_file_has_no_chunks() {
    assert_eq!(total_chunks(0), 0);
    assert!(chunks_of(0).is_empty());
}

#[test]
fn exactly_one_chunk_at_64_kib() {
    assert_eq!(total_chunks(65536), 1);
    let c = chunks_of(65536);
    assert_eq!(c.len(), 1);
    assert_eq!(c[0].data.len(), 65536);
    assert_eq!(c[0].total_chunks, 1);
}

#[test]
fn one_byte_over_64_kib_makes_two_chunks() {
    assert_eq!(total_chunks(65537), 2);
    let c = chunks_of(65537);
    assert_eq!(c.len(), 2);
    assert_eq!(c[1].data.len(), 1);
    assert_eq!(c[1].chunk_index, 1);
    assert_eq!(c[1].total_chunks, 2);
}

#[test]
fn chunks_rejoin_to_the_file() {
    let data: Vec<u8> = (0..200_000usize).map(|i| (i % 253) as u8).collect();
    let c = split_into_chunks(&"t".to_string(), &"f".to_string(), &"x".to_string(), &data);
    assert_eq!(c.len(), 4);
    assert!(c.iter().all(|k| k.data.len() <= DEFAULT_CHUNK_SIZE));
    let joined: Vec<u8> = c.iter().flat_map(|k| k.data.clone()).collect();
    assert_eq!(joined, data);
}

#[test]
fn relay_of_128_kib_in_two_acked_chunks() {
    let data: Vec<u8> = (0..131072usize).map(|i| (i % 7) as u8).collect();
    let chunks = split_into_chunks(&"t1".to_string(), &"f1".to_string(), &"a.bin".to_string(), &data);
    assert_eq!(chunks.len(), 2);
    let mut rx = ReceiveBuffers::new();
    let mut written = None;
    let mut index = 0usize;
    loop {
        let (ack, done) = rx.on_chunk(&chunks[index]);
        assert!(ack.success);
        if let Some(d) = done {
            written = Some(d);
        }
        match step_after_ack(&chunks, index, Some(&ack)) {
            SendStep::Next(i) => index = i,
            SendStep::Done => break,
            SendStep::Fail => panic!("ack refused"),
        }
    }
    assert_eq!(written.unwrap(), data);
}

#[test]
fn missing_or_wrong_ack_fails() {
    let chunks = chunks_of(70000);
    assert_eq!(step_after_ack(&chunks, 0, None), SendStep::Fail);
    let bad = FileChunkAck { transfer_id: "t".to_string(), file_id: "f".to_string(), chunk_index: 1, success: true };
    assert_eq!(step_after_ack(&chunks, 0, Some(&bad)), SendStep::Fail);
    let refused = FileChunkAck { transfer_id: "t".to_string(), file_id: "f".to_string(), chunk_index: 0, success: false };
    assert_eq!(step_after_ack(&chunks, 0, Some(&refused)), SendStep::Fail);
    let good = FileChunkAck { transfer_id: "t".to_string(), file_id: "f".to_string(), chunk_index: 0, success: true };
    assert_eq!(step_after_ack(&chunks, 0, Some(&good)), SendStep::Next(1));
}

#[test]
fn interleaved_transfers_do_not_mix() {
    let a = split_into_chunks(&"ta".to_string(), &"f".to_string(), &"a".to_string(), &vec![1u8; 70000]);
    let b = split_into_chunks(&"tb".to_string(), &"f".to_string(), &"b".to_string(), &vec![2u8; 70000]);
    let mut rx = ReceiveBuffers::new();
    assert!(rx.on_chunk(&a[0]).1.is_none());
    assert!(rx.on_chunk(&b[0]).1.is_none());
    let da = rx.on_chunk(&a[1]).1.unwrap();
    let db = rx.on_chunk(&b[1]).1.unwrap();
    assert_eq!(da, vec![1u8; 70000]);
    assert_eq!(db, vec![2u8; 70000]);
}

#[test]
fn relays_and_self_are_not_devices() {
    assert!(is_relay_agent("rust-libp2p-server/0.12"));
    assert!(is_relay_agent("my-relayd"));
    assert!(!is_relay_agent("/unidrop/1.0.0"));
    let mut peers = PeerList::new("me".to_string());
    assert!(peers.on_identify("relay", "rust-libp2p-server/1").is_none());
    assert!(peers.on_identify("me", "/unidrop/1.0.0").is_none());
    let e = peers.on_identify("other", "/unidrop/1.0.0").unwrap();
    assert!(matches!(e.kind, EventKind::DeviceDiscovered(ref d) if d.peer.id.fingerprint == "other"));
    assert!(peers.on_identify("other", "/unidrop/1.0.0").is_none());
    assert_eq!(peers.devices.len(), 1);
    let lost = peers.on_connection_closed("other");
    assert!(matches!(lost.kind, EventKind::DeviceLost(ref id) if id.fingerprint == "other"));
    assert!(peers.devices.is_empty());
}

#[test]
fn reservation_through_first_relay() {
    let relays = vec!["/ip4/1.2.3.4/tcp/9001/p2p/R".to_string(), "/ip4/5.6.7.8/tcp/1/p2p/S".to_string()];
    let mut st = RelayState::new();
    assert_eq!(st.on_connection_established(false, &relays), None);
    assert_eq!(
        st.on_connection_established(true, &relays).as_deref(),
        Some("/ip4/1.2.3.4/tcp/9001/p2p/R/p2p-circuit")
    );
    let adv = st.on_reservation_accepted(&relays, "LOCAL").unwrap();
    assert_eq!(adv, "/ip4/1.2.3.4/tcp/9001/p2p/R/p2p-circuit/p2p/LOCAL");
    assert!(st.on_connection_established(true, &relays).is_none());
}

#[test]
fn relay_list_appends_defaults() {
    let mut c = P2pConfig::new();
    c.relay_servers.push("/ip4/1.1.1.1/tcp/1".to_string());
    assert_eq!(c.relay_list().len(), 2);
    c.use_default_bootstrap = false;
    assert_eq!(c.relay_list(), vec!["/ip4/1.1.1.1/tcp/1".to_string()]);
    assert_eq!(P2pFactory::new().info().priority, 50);
}

#[test]
fn inbound_request_is_accepted_with_total() {
    let req = FileRequest {
        transfer_id: "t9".to_string(),
        files: vec![
            P2pFileInfo { id: "1".to_string(), name: "a".to_string(), size: 10, mime_type: None },
            P2pFileInfo { id: "2".to_string(), name: "b".to_string(), size: 32, mime_type: Some("text/plain".to_string()) },
        ],
    };
    let (t, resp) = on_file_request("peerX", &req);
    assert!(resp.accepted);
    assert_eq!(resp.transfer_id, "t9");
    let t = t.unwrap();
    assert_eq!(t.total_size, 42);
    assert_eq!(t.files[0].mime_type, "application/octet-stream");
    assert_eq!(t.files[1].mime_type, "text/plain");
    assert_eq!(t.from.peer.id.fingerprint, "peerX");
}

#[test]
fn outbound_request_has_fresh_ids() {
    let r = build_file_request("tx".to_string(), &vec!["a.bin".to_string(), "b".to_string()], &vec![3, 4]);
    assert_eq!(r.files.len(), 2);
    assert_eq!(r.files[1].size, 4);
    assert_ne!(r.files[0].id, r.files[1].id);
    assert_eq!(r.files[0].id.len(), 36);
}

#[test]
fn cancelled_session_stays_cancelled() {
    let mut m = TransferManager::new();
    m.add_session(TransferSession::new("s".to_string(), "p".to_string(), "a.bin".to_string(), 100));
    m.update_progress("s", 20);
    assert_eq!(m.get_session("s").unwrap().state, SessionState::Transferring);
    m.cancel("s");
    m.update_progress("s", 50);
    m.complete("s");
    let s = m.get_session("s").unwrap();
    assert_eq!(s.state, SessionState::Cancelled);
    assert_eq!(s.bytes_transferred, 20);
    m.update_progress("unknown", 1);
    assert!(m.remove("s").is_some());
    assert!(m.get_session("s").is_none());
}

#[test]
fn outbound_plan_names_session_after_first_file() {
    let (req, s) = plan_outbound("peerB", &vec!["a.bin".to_string(), "b.bin".to_string()], &vec![131072, 5]).ok().unwrap();
    assert_eq!(req.transfer_id, s.id);
    assert_eq!(s.file_name, "a.bin");
    assert_eq!(s.file_size, 131077);
    assert_eq!(s.peer_id, "peerB");
    assert_eq!(s.state, SessionState::Pending);
    assert_eq!(checked_sum(&vec![u64::MAX, 1]), None);
    assert!(plan_outbound("p", &vec!["x".to_string(), "y".to_string()], &vec![u64::MAX, 1]).is_err());
    let (_, empty) = plan_outbound("p", &vec![], &vec![]).ok().unwrap();
    assert_eq!(empty.file_name, "");
    assert_eq!(empty.file_size, 0);
}

#[test]
fn session_progress_events_stay_within_totals() {
    let mut m = TransferManager::new();
    m.add_session(TransferSession::new("s".to_string(), "p".to_string(), "a.bin".to_string(), 100));
    m.update_progress("s", 500);
    let e = m.progress_event("s", 3, 2).unwrap();
    match e.kind {
        EventKind::TransferProgress(p) => {
            assert_eq!(p.bytes_transferred, 100);
            assert_eq!(p.bytes_total, 100);
            assert_eq!(p.files_completed, 2);
            assert_eq!(p.files_total, 2);
            assert_eq!(p.state, unidrop::transfer::TransferState::Transferring);
        }
        _ => panic!("expected progress"),
    }
    assert!(m.progress_event("none", 0, 1).is_none());
}
