use netfusion::config::{BondConfig, BondMode, ConfigSections};
use netfusion::ipc::{
    decode_frame, encode_frame, frame_acceptable, frame_header, frame_size, process_request, epoch_millis, InterfaceEntry, Reply,
    Request, WireMessage, IPC_PROTOCOL_VERSION, MAX_FRAME_SIZE,
};

fn interfaces() -> Vec<InterfaceEntry> {
    vec![
        InterfaceEntry { name: "eth0".into(), has_health: true },
        InterfaceEntry { name: "wlan0".into(), has_health: false },
        InterfaceEntry { name: "wwan0".into(), has_health: true },
    ]
}

fn error_of(r: Reply) -> (String, bool) {
    match r {
        Reply::Error { message, recoverable } => (message, recoverable),
        other => panic!("expected an error, got {:?}", other),
    }
}

#[test]
fn frame_header_is_big_endian() {
    assert_eq!(frame_header(0x0102_0304), [1, 2, 3, 4]);
    assert_eq!(frame_size([0, 0, 1, 0]), 256);
    assert_eq!(frame_size(frame_header(4_000_000_000)), 4_000_000_000);
    assert_eq!(frame_header(5), 5u32.to_be_bytes());
}

#[test]
fn frames_round_trip() {
    let payload = b"hello daemon".to_vec();
    let mut bytes = encode_frame(&payload);
    assert_eq!(&bytes[..4], &[0, 0, 0, 12]);
    bytes.extend_from_slice(b"next");
    let (p, used) = decode_frame(&bytes).unwrap();
    assert_eq!(p, payload);
    assert_eq!(used, 16);
    assert_eq!(&bytes[used..], b"next");
}

#[test]
fn short_frames_are_incomplete() {
    assert!(decode_frame(&vec![0, 0, 0]).is_none());
    assert!(decode_frame(&vec![0, 0, 0, 5, 1, 2]).is_none());
    let (p, used) = decode_frame(&vec![0, 0, 0, 0]).unwrap();
    assert!(p.is_empty());
    assert_eq!(used, 4);
}

#[test]
fn oversized_frames_are_refused() {
    assert!(frame_acceptable(MAX_FRAME_SIZE));
    assert!(!frame_acceptable(MAX_FRAME_SIZE + 1));
    assert_eq!(MAX_FRAME_SIZE, 10 * 1024 * 1024);
}

#[test]
fn status_counts_interfaces() {
    assert!(matches!(process_request(Request::GetStatus, &interfaces()), Reply::Status { total_interfaces: 3 }));
}

#[test]
fn interface_lookup() {
    assert!(matches!(
        process_request(Request::GetInterface { name: "wlan0".into() }, &interfaces()),
        Reply::Interface { index: 1 }
    ));
    let (m, rec) = error_of(process_request(Request::GetInterface { name: "eth9".into() }, &interfaces()));
    assert_eq!(m, "Interface 'eth9' not found");
    assert!(!rec);
}

#[test]
fn health_lookup() {
    assert!(matches!(
        process_request(Request::GetHealth { interface: "wwan0".into() }, &interfaces()),
        Reply::Health { index: 2 }
    ));
    let (m, rec) = error_of(process_request(Request::GetHealth { interface: "wlan0".into() }, &interfaces()));
    assert_eq!(m, "No health data available");
    assert!(!rec);
    match process_request(Request::GetAllHealth, &interfaces()) {
        Reply::AllHealth { indices } => assert_eq!(indices, vec![0, 2]),
        other => panic!("unexpected {:?}", other),
    }
}

#[test]
fn configuration_requests() {
    let good = || ConfigSections { bonds: vec![], policies: vec![], tunnels: vec![], profile_weights: vec![] };
    assert!(matches!(process_request(Request::ApplyConfig { sections: good() }, &interfaces()), Reply::StoreConfig));
    let bad_bond = BondConfig {
        name: "".into(),
        mode: BondMode::ActiveBackup,
        members: vec![],
        weights: vec![],
        min_active_members: 1,
        health_targets: vec![],
        policy: None,
    };
    let bad = ConfigSections { bonds: vec![bad_bond], ..good() };
    let (m, rec) = error_of(process_request(Request::DryRunConfig { sections: bad }, &interfaces()));
    assert_eq!(m, "Invalid config: bonds[0].name: length; bonds[0].members: length");
    assert!(rec);
    assert!(matches!(process_request(Request::DryRunConfig { sections: good() }, &interfaces()), Reply::Empty));
}

#[test]
fn profile_and_bond_requests() {
    match process_request(Request::ActivateProfile { name: "gaming".into() }, &interfaces()) {
        Reply::Profile(Some(p)) => assert_eq!(p, "gaming"),
        other => panic!("unexpected {:?}", other),
    }
    assert!(matches!(process_request(Request::GetActiveProfile, &interfaces()), Reply::Profile(None)));
    let (m, rec) = error_of(process_request(Request::CreateBond, &interfaces()));
    assert_eq!(m, "Bond creation not yet implemented");
    assert!(rec);
    assert!(matches!(process_request(Request::GetBond { name: "b".into() }, &interfaces()), Reply::NoData));
    assert!(matches!(process_request(Request::Shutdown, &interfaces()), Reply::Empty));
}

#[test]
fn wire_messages_carry_the_protocol_version() {
    let a = WireMessage::new(7u8).unwrap();
    let b = WireMessage::new(8u8).unwrap();
    assert_eq!(a.version, IPC_PROTOCOL_VERSION);
    assert!(a.version_matches());
    assert_eq!(a.payload, 7);
    assert_eq!((a.id >> 76) & 0xf, 4);
    assert_ne!(a.id, b.id);
    assert!(a.timestamp_ms > 1_600_000_000_000);
    assert_eq!((a.id >> 62) & 0x3, 2);
}

#[test]
fn wire_message_needs_an_id_and_a_time() {
    let m = WireMessage::assemble("x", Some(42), Some(1_000)).unwrap();
    assert_eq!((m.version, m.id, m.timestamp_ms, m.payload), (IPC_PROTOCOL_VERSION, 42, 1_000, "x"));
    assert!(WireMessage::assemble("x", None, Some(1_000)).is_none());
    assert!(WireMessage::assemble("x", Some(42), None).is_none());
    assert_eq!(epoch_millis(Some(1_700_000_000_123)), Some(1_700_000_000_123));
    assert_eq!(epoch_millis(Some(u128::MAX)), None);
    assert_eq!(epoch_millis(None), None);
}
