use netfusion::bonding::failover::{FailoverConfig, FailoverEngine};
use netfusion::bonding::{
    bond_interface_name, create_bond_args, delete_bond_args, enslave_args, kernel_mode, release_args, BondManager,
    BondState,
};
use netfusion::config::{BondConfig, BondMode};
use netfusion::error::BondingError;

fn bond(name: &str, active: &[&str], standby: &[&str], failover: bool) -> BondState {
    BondState {
        name: name.into(),
        mode: BondMode::ActiveBackup,
        active_members: active.iter().map(|s| s.to_string()).collect(),
        standby_members: standby.iter().map(|s| s.to_string()).collect(),
        failed_members: vec![],
        failover_active: failover,
        last_failover_ms: None,
        bond_interface: Some("netfusion0".into()),
    }
}

#[test]
fn bond_names_and_commands() {
    assert_eq!(bond_interface_name("bond0"), "netfusion0");
    assert_eq!(bond_interface_name("uplink"), "netfusionuplink");
    assert_eq!(kernel_mode(BondMode::Lacp), "4");
    assert_eq!(create_bond_args("netfusion0", BondMode::ActiveBackup), vec!["link", "add", "netfusion0", "type", "bond", "mode", "1"]);
    assert_eq!(enslave_args("eth0", "netfusion0"), vec!["link", "set", "eth0", "master", "netfusion0"]);
    assert_eq!(release_args("eth0"), vec!["link", "set", "eth0", "nomaster"]);
    assert_eq!(delete_bond_args("netfusion0"), vec!["link", "del", "netfusion0"]);
}

#[test]
fn membership_moves_to_the_healthiest() {
    let mut b = bond("bond0", &["eth0"], &["wlan0"], false);
    let health = vec![("eth0".to_string(), 20_000i64), ("wlan0".to_string(), 80_000)];
    assert_eq!(b.update_membership(&health, 5_000), Some("wlan0".to_string()));
    assert_eq!(b.active_members, vec!["wlan0"]);
    assert_eq!(b.standby_members, vec!["eth0"]);
    assert!(b.failover_active);
    assert_eq!(b.last_failover_ms, Some(5_000));
    // Already on the best member: nothing changes.
    assert_eq!(b.update_membership(&health, 6_000), None);
    assert_eq!(b.last_failover_ms, Some(5_000));
}

#[test]
fn bond_manager_registers_and_deletes() {
    let mut m = BondManager::new();
    let config = BondConfig {
        name: "bond0".into(),
        mode: BondMode::ActiveBackup,
        members: vec!["eth0".into(), "wlan0".into()],
        weights: vec![],
        min_active_members: 1,
        health_targets: vec![],
        policy: None,
    };
    m.register_bond(&config, "netfusion0".into());
    assert_eq!(m.bonds().len(), 1);
    assert_eq!(m.bonds()[0].standby_members, vec!["eth0", "wlan0"]);
    let changed = m.update_membership("bond0", &vec![("wlan0".to_string(), 90_000)], 1_000).unwrap();
    assert_eq!(changed, Some("wlan0".to_string()));
    match m.delete_bond("nope") {
        Err(BondingError::NotFound { name }) => assert_eq!(name, "nope"),
        other => panic!("unexpected {:?}", other.map(|b| b.name)),
    }
    assert!(m.delete_bond("bond0").is_ok());
    assert!(m.bonds().is_empty());
}

#[test]
fn failover_config_defaults() {
    let c = FailoverConfig::default();
    assert_eq!(c.evaluation_interval_ms, 3_000);
    assert_eq!(c.min_viable_score, 20_000);
    assert_eq!(c.failover_cooldown_secs, 30);
    assert_eq!(c.bad_reading_threshold, 3);
}

#[test]
fn bad_readings_count_until_a_good_one() {
    let mut e = FailoverEngine::new(FailoverConfig::default());
    assert!(!e.record_reading("eth0", 10_000));
    assert!(!e.record_reading("eth0", 10_000));
    assert!(e.record_reading("eth0", 10_000));
    assert_eq!(e.bad_reading_count("eth0"), 3);
    assert!(!e.record_reading("eth0", 90_000));
    assert_eq!(e.bad_reading_count("eth0"), 0);
}

#[test]
fn failovers_are_announced_once_per_cooldown() {
    let mut e = FailoverEngine::new(FailoverConfig::default());
    let bonds = vec![bond("bond0", &["wlan0"], &["eth0"], true), bond("bond1", &["eth2"], &[], false)];
    let notices = e.evaluate_failover(&bonds, 100_000);
    assert_eq!(notices.len(), 1);
    assert_eq!(notices[0].bond, "bond0");
    assert_eq!(notices[0].previous_active, vec!["eth0"]);
    assert_eq!(notices[0].new_active, vec!["wlan0"]);
    assert_eq!(notices[0].reason, "health degradation");
    // 29.9 s later: still cooling down.
    assert!(e.evaluate_failover(&bonds, 129_900).is_empty());
    // 30 s later: announced again.
    assert_eq!(e.evaluate_failover(&bonds, 130_000).len(), 1);
    let n = e.process_health_update("eth0", 5_000, &bonds, 131_000);
    assert!(n.is_empty());
    assert_eq!(e.bad_reading_count("eth0"), 1);
}

#[test]
fn failovers_never_duplicate_members() {
    let mut b = bond("bond0", &["eth0"], &["wlan0", "usb0"], false);
    let rounds = vec![
        vec![("eth0".to_string(), 10_000i64), ("wlan0".to_string(), 60_000), ("usb0".to_string(), 30_000)],
        vec![("eth0".to_string(), 90_000i64), ("wlan0".to_string(), 60_000), ("usb0".to_string(), 30_000)],
        vec![("usb0".to_string(), 95_000i64)],
    ];
    for health in &rounds {
        b.update_membership(health, 1_000);
        let mut all: Vec<String> = b.active_members.iter().chain(b.standby_members.iter()).cloned().collect();
        assert!(b.active_members.len() <= 1);
        all.sort();
        let n = all.len();
        all.dedup();
        assert_eq!(all.len(), n);
        assert_eq!(n, 3);
    }
    assert_eq!(b.active_members, vec!["usb0"]);
    assert_eq!(b.mode, BondMode::ActiveBackup);
    assert_eq!(b.bond_interface, Some("netfusion0".to_string()));
}
