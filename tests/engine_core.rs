use unidrop::device::{Device, DeviceId, IpAddress, Peer};
use unidrop::engine::{DeviceReport, EngineConfig, EngineCore};
use unidrop::error::Error;
use unidrop::event::{Event, EventKind};
use unidrop::protocol::{ProtocolBuilder, ProtocolId};
use unidrop::registry::{priority_order, ProtocolRegistry};

fn dev(protocol: &str, fp: &str, name: &str) -> Device {
    let peer = Peer::new(ProtocolId::new(protocol), fp.to_string(), name.to_string());
    Device::new(peer, IpAddress::V4(10, 0, 0, 1), 1)
}

fn engine_with(protocols: &[(&str, u32)]) -> EngineCore {
    let mut e = EngineCore::new();
    for (id, prio) in protocols {
        assert!(e.registry.register(ProtocolBuilder::new(id).priority(*prio).build_info()));
    }
    e
}

#[test]
fn priority_order_is_stable_descending() {
    assert_eq!(priority_order(&vec![50, 100, 50, 7, 100]), vec![1, 4, 0, 2, 3]);
    assert!(priority_order(&vec![]).is_empty());
}

#[test]
fn registry_sorts_and_refuses_unsupported() {
    let mut r = ProtocolRegistry::new();
    assert!(r.register(ProtocolBuilder::new("p2p").priority(50).build_info()));
    assert!(r.register(ProtocolBuilder::new("localsend").priority(100).build_info()));
    let mut off = ProtocolBuilder::new("airdrop").priority(500).build_info();
    off.supported = false;
    assert!(!r.register(off));
    assert!(!r.contains("airdrop"));
    let sorted = r.sorted_by_priority();
    let ids: Vec<&str> = sorted.iter().map(|i| i.id.as_str()).collect();
    assert_eq!(ids, vec!["localsend", "p2p"]);
    assert_eq!(r.list().len(), 2);
    assert_eq!(r.get_or_create("p2p"), Some(true));
    assert_eq!(r.get_or_create("p2p"), Some(false));
    assert_eq!(r.get_or_create("nope"), None);
    assert!(r.get("p2p"));
    assert!(r.unregister("p2p"));
    assert!(!r.get("p2p"));
    assert!(!r.unregister("p2p"));
}

#[test]
fn start_and_stop_are_idempotent() {
    let mut e = engine_with(&[("p2p", 50), ("localsend", 100)]);
    let plan = e.start_plan();
    assert_eq!(plan.len(), 2);
    assert_eq!(plan[0].id.as_str(), "localsend");
    e.protocol_started("localsend", true);
    e.protocol_started("p2p", false);
    assert!(e.mark_started().is_some());
    assert!(e.running);
    assert!(e.start_plan().is_empty());
    assert!(e.mark_started().is_none());
    assert!(e.registry.is_running("localsend"));
    assert!(!e.registry.is_running("p2p"));
    assert_eq!(e.stop_plan().len(), 2);
    assert!(e.mark_stopped().is_some());
    assert!(!e.registry.is_running("localsend"));
    assert!(e.mark_stopped().is_none());
    assert!(e.stop_plan().is_empty());
}

#[test]
fn devices_only_from_running_protocols_and_deduplicated() {
    let mut e = engine_with(&[("p2p", 50), ("localsend", 100)]);
    e.start_plan();
    e.protocol_started("localsend", true);
    e.mark_started();
    let reports = vec![
        DeviceReport { protocol: ProtocolId::new("localsend"), devices: vec![dev("localsend", "A", "old"), dev("localsend", "B", "b")] },
        DeviceReport { protocol: ProtocolId::new("p2p"), devices: vec![dev("p2p", "C", "c")] },
        DeviceReport { protocol: ProtocolId::new("localsend"), devices: vec![dev("localsend", "A", "new"), dev("p2p", "D", "spoof")] },
    ];
    let out = e.collect_devices(reports);
    let names: Vec<&str> = out.iter().map(|d| d.peer.name.as_str()).collect();
    assert_eq!(names, vec!["new", "b"]);
    let id = DeviceId::new(ProtocolId::new("localsend"), "B".to_string());
    assert_eq!(e.cached_device(&id).unwrap().peer.name, "b");
    e.mark_stopped();
    assert!(e.cached_device(&id).is_none());
}

#[test]
fn routing_by_target_protocol() {
    let mut e = engine_with(&[("p2p", 50), ("localsend", 100)]);
    let target = DeviceId::new(ProtocolId::new("p2p"), "X".to_string());
    assert!(matches!(e.route(&target), Err(Error::ProtocolNotFound(ref m)) if m == "p2p"));
    e.start_plan();
    assert!(matches!(e.route(&target), Err(Error::Protocol(ref m)) if m == "Protocol p2p is not running"));
    e.protocol_started("p2p", true);
    assert!(e.route(&target).is_ok());
    assert!(e.owner(&ProtocolId::new("localsend")).is_ok());
    assert!(matches!(e.owner(&ProtocolId::new("bt")), Err(Error::ProtocolNotFound(_))));
}

#[test]
fn engine_config_to_protocol_config() {
    let c = EngineConfig { device_name: "Box".to_string(), save_dir: "/d".to_string(), encryption: true, pin: Some("1".to_string()) };
    let p = c.to_protocol_config();
    assert_eq!(p.port, 0);
    assert_eq!(p.device_name, "Box");
    assert_eq!(p.pin.as_deref(), Some("1"));
}

#[test]
fn forwarded_events_update_cache() {
    let mut e = engine_with(&[("p2p", 50)]);
    e.start_plan();
    e.protocol_started("p2p", true);
    e.mark_started();
    e.on_event(&Event::device_discovered(dev("p2p", "P1", "peer")));
    e.on_event(&Event::device_discovered(dev("localsend", "L1", "not running")));
    let id = DeviceId::new(ProtocolId::new("p2p"), "P1".to_string());
    assert!(e.cached_device(&id).is_some());
    assert!(e.cached_device(&DeviceId::new(ProtocolId::new("localsend"), "L1".to_string())).is_none());
    e.on_event(&Event::new(EventKind::DeviceUpdated(dev("p2p", "P1", "renamed"))));
    assert_eq!(e.cached_device(&id).unwrap().peer.name, "renamed");
    e.on_event(&Event::device_lost(id.clone()));
    assert!(e.cached_device(&id).is_none());
}
