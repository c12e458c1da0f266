use netfusion::events::EventSummary;

#[test]
fn event_descriptions() {
    let up = EventSummary::InterfaceUp { interface: "eth0".to_string() };
    assert_eq!(up.description(), "Interface eth0 is up");
    let spike = EventSummary::PacketLossSpike { interface: "wlan0".to_string(), loss_percent: "12.5".to_string() };
    assert_eq!(spike.description(), "Packet loss spike on wlan0: 12.5%");
    let cong = EventSummary::CongestionDetected { interface: "eth1".to_string(), queue_depth: 42 };
    assert_eq!(cong.description(), "Congestion on eth1 (queue depth: 42)");
    let fo = EventSummary::FailoverTriggered {
        bond: "wan".to_string(),
        new_active: vec!["eth1".to_string(), "wlan0".to_string()],
    };
    assert_eq!(fo.description(), "Failover on wan -> eth1, wlan0");
    let rc = EventSummary::RouteChanged { rule_count: 0 };
    assert_eq!(rc.description(), "Routes changed (0 rules)");
    let p = EventSummary::ProfileActivated { profile: "gaming".to_string() };
    assert_eq!(p.description(), "Profile 'gaming' activated");
    let err = EventSummary::SubsystemError { subsystem: "qos".to_string(), message: "tc failed".to_string() };
    assert_eq!(err.description(), "Error in qos: tc failed");
}
