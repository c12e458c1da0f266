use netfusion::config::{QdiscConfig, QdiscType};
use netfusion::error::CoreError;
use netfusion::qos::dscp::{
    apply_dscp_failure, default_classification_rules, dscp_script_path, enable_ecn_args, generate_nftables_rules,
    remove_dscp_args, removal_failure_is_benign, DscpClass, TrafficRule,
};
use netfusion::qos::qdisc::{QdiscManager, TcOutcome};

#[test]
fn test_dscp_values() {
    assert_eq!(DscpClass::Realtime.value(), 46);
    assert_eq!(DscpClass::Interactive.value(), 34);
    assert_eq!(DscpClass::Streaming.value(), 26);
    assert_eq!(DscpClass::Bulk.value(), 18);
    assert_eq!(DscpClass::BestEffort.value(), 0);
    assert_eq!(DscpClass::Background.value(), 8);
}

#[test]
fn test_default_rules_not_empty() {
    let rules = default_classification_rules();
    assert!(!rules.is_empty());
    assert!(rules.iter().any(|r| r.class == DscpClass::Realtime));
    assert!(rules.iter().any(|r| r.class == DscpClass::BestEffort));
}

#[test]
fn test_nftables_script_generation() {
    let rules = default_classification_rules();
    let script = generate_nftables_rules("eth0", &rules);
    assert!(script.contains("table inet netfusion"));
    assert!(script.contains("chain dscp_tagger"));
    assert!(script.contains("dscp set 46"));
    assert!(script.contains("SIP signaling"));
}

#[test]
fn test_qdisc_config_defaults() {
    let config = QdiscConfig { qdisc: None, target_ms: None, interval_ms: None, limit: None };
    assert!(config.qdisc.is_none());
    assert!(config.target_ms.is_none());
}

#[test]
fn dscp_names_match_classes() {
    assert_eq!(DscpClass::Realtime.name(), "EF");
    assert_eq!(DscpClass::BestEffort.name(), "CS0");
}

#[test]
fn nftables_script_renders_ports_and_ranges() {
    let rules = vec![
        TrafficRule { protocol: "udp", dport: Some(53), dport_range: None, class: DscpClass::Interactive, description: "DNS" },
        TrafficRule {
            protocol: "udp",
            dport: None,
            dport_range: Some((10000, 20000)),
            class: DscpClass::Realtime,
            description: "RTP media",
        },
    ];
    let script = generate_nftables_rules("eth0", &rules);
    assert!(script.contains("\n    udp dport 53 ip dscp set 34 # DNS\n"));
    assert!(script.contains("\n    udp dport 10000-20000 ip dscp set 46 # RTP media\n"));
    assert!(!script.contains("tcp"));
    assert!(script.ends_with("  }\n}\n"));
}

#[test]
fn fq_codel_is_the_default_qdisc() {
    let m = QdiscManager::new();
    let config = QdiscConfig { qdisc: None, target_ms: None, interval_ms: None, limit: None };
    assert_eq!(m.effective_type(&config), QdiscType::FqCodel);
    let args = m.apply_args("eth0", &config);
    assert_eq!(
        args,
        vec!["qdisc", "add", "dev", "eth0", "root", "fq_codel", "limit", "10240", "target", "5ms", "interval", "100ms", "ecn"]
    );
}

#[test]
fn cake_takes_the_configured_limit() {
    let m = QdiscManager::new();
    let config = QdiscConfig { qdisc: Some(QdiscType::Cake), target_ms: None, interval_ms: None, limit: Some(500) };
    let args = m.apply_args("wan0", &config);
    assert_eq!(args, vec!["qdisc", "add", "dev", "wan0", "root", "cake", "autorate-ingress", "diffserv4", "nat", "limit", "500"]);
}

#[test]
fn prio_band_map_has_sixteen_zeros() {
    let m = QdiscManager::new();
    let config = QdiscConfig { qdisc: Some(QdiscType::Prio), target_ms: None, interval_ms: None, limit: None };
    let args = m.apply_args("eth1", &config);
    assert_eq!(args.len(), 5 + 6 + 16);
    assert!(args[11..].iter().all(|a| a == "0"));
}

#[test]
fn qdisc_removal_and_failures() {
    let m = QdiscManager::new();
    assert_eq!(m.remove_args("eth0"), vec!["qdisc", "del", "dev", "eth0", "root"]);
    assert!(m.removal_failure_is_benign("RTNETLINK answers: No such file or directory"));
    assert!(!m.removal_failure_is_benign("Operation not permitted"));
    match m.apply_failure(QdiscType::Htb, "eth0", "boom") {
        CoreError::Internal(msg) => assert_eq!(msg, "Failed to apply HTB root on eth0: boom"),
        other => panic!("unexpected error {:?}", other),
    }
}

#[test]
fn dscp_commands_and_errors() {
    assert_eq!(dscp_script_path("eth0"), "/tmp/netfusion_dscp_eth0.nft");
    assert_eq!(remove_dscp_args(), vec!["delete", "table", "inet", "netfusion"]);
    assert_eq!(enable_ecn_args(), vec!["-w", "net.ipv4.tcp_ecn=2"]);
    assert!(removal_failure_is_benign("Error: No such file or directory"));
    match apply_dscp_failure("eth0", "syntax error") {
        CoreError::Internal(msg) => assert_eq!(msg, "Failed to apply DSCP rules on eth0: syntax error"),
        other => panic!("unexpected error {:?}", other),
    }
}

#[test]
fn sip_line_marks_udp_only() {
    let script = generate_nftables_rules("eth0", &default_classification_rules());
    let line = script.lines().find(|l| l.contains("SIP signaling")).unwrap();
    assert_eq!(line, "    udp dport 5060 ip dscp set 46 # SIP signaling");
    assert!(script.contains("\n    tcp dport 1935-1935 ip dscp set 26 # RTMP streaming\n"));
}

#[test]
fn qdisc_apply_outcomes() {
    let m = QdiscManager::new();
    assert!(matches!(m.removal_outcome(&TcOutcome::Succeeded), Ok(false)));
    assert!(matches!(m.removal_outcome(&TcOutcome::Failed("Error: No such file or directory".into())), Ok(false)));
    assert!(matches!(m.removal_outcome(&TcOutcome::Failed("Operation not permitted".into())), Ok(true)));
    match m.removal_outcome(&TcOutcome::NotRun("tc missing".into())) {
        Err(CoreError::Internal(msg)) => assert_eq!(msg, "tc missing"),
        other => panic!("unexpected {:?}", other),
    }
    let config = QdiscConfig { qdisc: Some(QdiscType::Cake), target_ms: None, interval_ms: None, limit: None };
    assert!(m.install_outcome("eth1", &config, &TcOutcome::Succeeded).is_ok());
    match m.install_outcome("eth1", &config, &TcOutcome::Failed("bad".into())) {
        Err(CoreError::Internal(msg)) => assert_eq!(msg, "Failed to apply CAKE on eth1: bad"),
        other => panic!("unexpected {:?}", other),
    }
}
