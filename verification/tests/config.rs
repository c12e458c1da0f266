use netfusion::config::{
    describe_issues, lookup_option, BondConfig, BondMode, ConfigField, ConfigSections, DaemonConfig, FieldError, HealthWeights, PolicyAction,
    PolicyConfig, TunnelConfig, TunnelType, ValidationRule,
};

fn bond(name: &str, members: &[&str]) -> BondConfig {
    BondConfig {
        name: name.to_string(),
        mode: BondMode::ActiveBackup,
        members: members.iter().map(|m| m.to_string()).collect(),
        weights: Vec::new(),
        min_active_members: 1,
        health_targets: Vec::new(),
        policy: None,
    }
}

fn tunnel(name: &str) -> TunnelConfig {
    TunnelConfig {
        name: name.to_string(),
        tunnel_type: TunnelType::WireGuard,
        remote: "1.2.3.4:51820".to_string(),
        local_bind: None,
        auth_ref: None,
        options: vec![("mtu".to_string(), "1420".to_string()), ("mtu".to_string(), "9000".to_string())],
        auto_connect: false,
        auto_reconnect: true,
        reconnect_interval_secs: 10,
    }
}

#[test]
fn daemon_config_defaults() {
    let c = DaemonConfig::default();
    assert_eq!(c.socket_path, "/run/netfusion/netfusion.sock");
    assert_eq!(c.state_path, "/var/lib/netfusion/state.db");
    assert_eq!(c.health_interval_ms, 1000);
    assert_eq!(c.rollback_timeout_secs, 30);
    assert!(!c.dry_run);
}

#[test]
fn weight_presets() {
    let g = HealthWeights::gaming();
    assert_eq!((g.rtt, g.jitter, g.loss, g.throughput, g.stability), (40, 30, 15, 5, 10));
    let b = HealthWeights::balanced();
    assert_eq!(b, HealthWeights::default());
    assert_eq!((b.rtt, b.jitter, b.loss, b.throughput, b.stability), (30, 20, 25, 15, 10));
    let v = HealthWeights::voip();
    assert_eq!((v.rtt, v.jitter, v.loss, v.throughput, v.stability), (20, 30, 30, 5, 15));
    let s = HealthWeights::streaming();
    assert_eq!((s.rtt, s.jitter, s.loss, s.throughput, s.stability), (15, 20, 25, 30, 10));
    let t = HealthWeights::bulk_transfer();
    assert_eq!((t.rtt, t.jitter, t.loss, t.throughput, t.stability), (10, 10, 15, 45, 20));
}

#[test]
fn normalize_zero_weights_gives_defaults_and_is_idempotent() {
    let mut w = HealthWeights { rtt: 0, jitter: 0, loss: 0, throughput: 0, stability: 0 };
    w.normalize();
    assert_eq!(w, HealthWeights::default());
    w.normalize();
    assert_eq!(w, HealthWeights::default());
    let mut odd = HealthWeights { rtt: 1, jitter: 0, loss: 0, throughput: 0, stability: 0 };
    odd.normalize();
    assert_eq!(odd, HealthWeights { rtt: 100, jitter: 0, loss: 0, throughput: 0, stability: 0 });
}

#[test]
fn normalize_scales_to_one_hundred() {
    let mut w = HealthWeights { rtt: 10, jitter: 10, loss: 10, throughput: 10, stability: 10 };
    w.normalize();
    assert_eq!(w, HealthWeights { rtt: 20, jitter: 20, loss: 20, throughput: 20, stability: 20 });

    // Thirds round cumulatively and still sum to 100.
    let mut t = HealthWeights { rtt: 1, jitter: 1, loss: 1, throughput: 0, stability: 0 };
    t.normalize();
    assert_eq!(t, HealthWeights { rtt: 33, jitter: 33, loss: 34, throughput: 0, stability: 0 });

    // Weights already summing to 100 are kept.
    let mut g = HealthWeights::gaming();
    g.normalize();
    assert_eq!(g, HealthWeights::gaming());
}

#[test]
fn weights_validation_reports_out_of_range_fields() {
    assert!(HealthWeights::gaming().validate().is_ok());
    let w = HealthWeights { rtt: 101, jitter: 20, loss: 200, throughput: 100, stability: 0 };
    let errs = w.validate().unwrap_err();
    assert_eq!(
        errs,
        vec![
            FieldError { field: ConfigField::Rtt, rule: ValidationRule::Range },
            FieldError { field: ConfigField::Loss, rule: ValidationRule::Range },
        ]
    );
}

#[test]
fn bond_validation() {
    assert!(bond("wan", &["eth0"]).validate().is_ok());
    let errs = bond("", &[]).validate().unwrap_err();
    assert_eq!(
        errs,
        vec![
            FieldError { field: ConfigField::Name, rule: ValidationRule::Length },
            FieldError { field: ConfigField::Members, rule: ValidationRule::Length },
        ]
    );
    let long = "x".repeat(65);
    assert_eq!(bond(&long, &["eth0"]).validate().unwrap_err().len(), 1);
    assert!(bond(&"x".repeat(64), &["eth0"]).validate().is_ok());
}

#[test]
fn policy_and_tunnel_validation() {
    let p = PolicyConfig { name: "gaming".to_string(), rules: Vec::new(), action: PolicyAction::Accept, priority: 100 };
    assert!(p.validate().is_ok());
    let bad = PolicyConfig { name: String::new(), rules: Vec::new(), action: PolicyAction::Drop, priority: 1 };
    assert_eq!(bad.validate().unwrap_err(), vec![FieldError { field: ConfigField::Name, rule: ValidationRule::Length }]);
    assert!(tunnel("wg0").validate().is_ok());
    assert!(tunnel("").validate().is_err());
}

#[test]
fn option_lookup_takes_first_match() {
    let t = tunnel("wg0");
    assert_eq!(lookup_option(&t.options, "mtu").map(|s| s.as_str()), Some("1420"));
    assert_eq!(lookup_option(&t.options, "keepalive"), None);
}

#[test]
fn whole_configuration_is_validated() {
    let heavy = HealthWeights { rtt: 150, jitter: 20, loss: 25, throughput: 15, stability: 10 };
    let sections = ConfigSections {
        bonds: vec![bond("wan", &["eth0"]), bond("", &["eth1"])],
        policies: vec![PolicyConfig { name: String::new(), rules: Vec::new(), action: PolicyAction::Drop, priority: 1 }],
        tunnels: vec![tunnel("wg0"), tunnel("")],
        profile_weights: vec![("gaming".to_string(), heavy), ("streaming".to_string(), HealthWeights::default())],
    };
    let issues = sections.validate().unwrap_err();
    let paths: Vec<&str> = issues.iter().map(|i| i.path.as_str()).collect();
    assert_eq!(paths, vec!["bonds[1]", "policies[0]", "tunnels[1]", "profiles[gaming].health_weights"]);
    assert_eq!(
        describe_issues(&issues),
        "bonds[1].name: length; policies[0].name: length; tunnels[1].name: length; profiles[gaming].health_weights.rtt: range"
    );
    let clean = ConfigSections { bonds: vec![bond("wan", &["eth0"])], policies: vec![], tunnels: vec![tunnel("wg0")], profile_weights: vec![] };
    assert!(clean.validate().is_ok());
}
