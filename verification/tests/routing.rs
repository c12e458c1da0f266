use netfusion::error::{RoutingError, SysErrorKind};
use netfusion::routing::balancer::{EcmpRoute, EcmpRouter, NftablesManager, WeightedBalancer};
use netfusion::routing::engine::{
    add_rule_args, del_default_route_args, del_rule_args, routes_to_restore, routes_to_roll_back, ManagedRoute,
    RouteLedger,
};
use netfusion::routing::safe_apply::{
    ping_args, ApplyAction, ApplyEvent, ApplyPhase, ApplyResult, SafeApply, SafeApplyConfig,
};

fn route(gw: &str, iface: &str, metric: u32) -> ManagedRoute {
    ManagedRoute { destination: Some("0.0.0.0/0".into()), gateway: gw.into(), interface: iface.into(), metric, table: None }
}

fn run(config: SafeApplyConfig, events: Vec<ApplyEvent>) -> (Vec<String>, SafeApply) {
    let mut flow = SafeApply::new(config);
    let mut actions = Vec::new();
    for e in events {
        actions.push(format!("{:?}", flow.next_action()));
        flow.on_event(e);
    }
    actions.push(format!("{:?}", flow.next_action()));
    (actions, flow)
}

#[test]
fn safe_apply_success_path() {
    let (actions, flow) = run(
        SafeApplyConfig::default(),
        vec![ApplyEvent::ConnectivityOk, ApplyEvent::ChangesApplied, ApplyEvent::ConnectivityOk, ApplyEvent::Committed],
    );
    assert!(actions[0].starts_with("CheckConnectivity(\"8.8.8.8\")"));
    assert_eq!(actions[1], "ApplyChanges");
    assert!(actions[2].starts_with("VerifyConnectivity"));
    assert_eq!(actions[3], "Commit");
    assert_eq!(actions[4], "Finished");
    assert!(matches!(flow.outcome(), Some(ApplyResult::Success)));
}

#[test]
fn safe_apply_dry_run_changes_nothing() {
    let config = SafeApplyConfig { dry_run: true, ..SafeApplyConfig::default() };
    let flow = SafeApply::new(config);
    assert!(matches!(flow.next_action(), ApplyAction::Finished));
    assert!(matches!(flow.outcome(), Some(ApplyResult::Success)));
}

#[test]
fn safe_apply_validation_failure() {
    let (actions, flow) = run(SafeApplyConfig::default(), vec![ApplyEvent::ConnectivityFailed("ping failed".into())]);
    assert_eq!(actions.len(), 2);
    match flow.outcome() {
        Some(ApplyResult::ValidationFailed(m)) => assert_eq!(m, "initial connectivity check failed: ping failed"),
        other => panic!("unexpected {:?}", other),
    }
}

#[test]
fn safe_apply_rolls_back_failed_changes() {
    let (actions, flow) = run(
        SafeApplyConfig::default(),
        vec![ApplyEvent::ConnectivityOk, ApplyEvent::ChangesFailed("netlink error".into()), ApplyEvent::RolledBack(false)],
    );
    assert_eq!(actions[2], "RollBack");
    match flow.outcome() {
        Some(ApplyResult::ApplyFailed { error, rollback_success }) => {
            assert_eq!(error, "netlink error");
            assert!(!rollback_success);
        },
        other => panic!("unexpected {:?}", other),
    }
}

#[test]
fn safe_apply_rolls_back_on_lost_connectivity() {
    let (_, flow) = run(
        SafeApplyConfig::default(),
        vec![ApplyEvent::ConnectivityOk, ApplyEvent::ChangesApplied, ApplyEvent::TimedOut, ApplyEvent::RolledBack(true)],
    );
    match flow.outcome() {
        Some(ApplyResult::VerificationFailed(m)) => {
            assert_eq!(m, "connectivity check failed: connectivity verification timed out, rollback: success")
        },
        other => panic!("unexpected {:?}", other),
    }
}

#[test]
fn safe_apply_ignores_stray_events() {
    let mut flow = SafeApply::new(SafeApplyConfig::default());
    flow.on_event(ApplyEvent::Committed);
    assert!(matches!(flow.phase(), ApplyPhase::Validating));
    assert_eq!(ping_args(&"1.1.1.1".to_string()), vec!["-c", "1", "-W", "3", "1.1.1.1"]);
}

#[test]
fn rollback_removes_only_added_routes() {
    let previous = vec![route("10.0.0.1", "eth0", 100)];
    let current = vec![route("10.0.0.1", "eth0", 100), route("192.168.1.1", "wlan0", 200)];
    let r = routes_to_roll_back(&current, &previous);
    assert_eq!(r.len(), 1);
    assert_eq!(r[0].gateway, "192.168.1.1");
    assert!(routes_to_roll_back(&previous, &previous).is_empty());
}

#[test]
fn ledger_records_and_forgets() {
    let mut ledger = RouteLedger::new();
    ledger.record_default_route("10.0.0.1", "eth0", 100);
    ledger.record_default_route("10.0.0.2", "eth1", 200);
    ledger.forget_default_route("10.0.0.1", "eth0", 100);
    assert_eq!(ledger.managed_routes().len(), 1);
    assert_eq!(ledger.managed_routes()[0].interface, "eth1");
    ledger.clear_managed_routes();
    assert!(ledger.managed_routes().is_empty());
}

#[test]
fn route_and_rule_arguments() {
    assert_eq!(
        del_default_route_args("10.0.0.1", "eth0", 100),
        vec!["route", "del", "default", "via", "10.0.0.1", "dev", "eth0", "metric", "100"]
    );
    assert_eq!(add_rule_args(100, Some(2), 200), vec!["rule", "add", "fwmark", "2", "prio", "100", "table", "200"]);
    assert_eq!(add_rule_args(100, None, 200), vec!["rule", "add", "prio", "100", "table", "200"]);
    assert_eq!(del_rule_args(100, 200), vec!["rule", "del", "prio", "100", "table", "200"]);
}

#[test]
fn ecmp_arguments() {
    let r = EcmpRouter::new();
    match r.setup_args(&vec![]) {
        Err(RoutingError::RouteModify(e)) => {
            assert_eq!(e.kind(), SysErrorKind::InvalidInput);
            assert_eq!(e.message, "no routes provided for ECMP");
        },
        other => panic!("unexpected {:?}", other),
    }
    let single = vec![EcmpRoute { gateway: "10.0.0.1".into(), interface: "eth0".into(), metric: 50, weight: 1 }];
    assert_eq!(r.setup_args(&single).unwrap(), vec!["route", "replace", "default", "via", "10.0.0.1", "dev", "eth0", "metric", "50"]);
    let multi = vec![
        EcmpRoute { gateway: "10.0.0.1".into(), interface: "eth0".into(), metric: 100, weight: 3 },
        EcmpRoute { gateway: "10.0.1.1".into(), interface: "eth1".into(), metric: 100, weight: 1 },
    ];
    assert_eq!(
        r.setup_args(&multi).unwrap(),
        vec![
            "route", "replace", "default", "nexthop", "via", "10.0.0.1", "dev", "eth0", "weight", "3", "nexthop", "via",
            "10.0.1.1", "dev", "eth1"
        ]
    );
    assert_eq!(r.teardown_args(&multi[1]), vec!["route", "del", "default", "via", "10.0.1.1", "dev", "eth1"]);
}

#[test]
fn weights_follow_health() {
    let mut b = WeightedBalancer::new(30_000);
    let health = vec![("eth0".to_string(), 90_000i64), ("eth1".to_string(), 10_000), ("wlan0".to_string(), 60_000)];
    let w = b.compute_weights(&health);
    // 90/150 * 255 = 153, 60/150 * 255 = 102
    assert_eq!(w, vec![("eth0".to_string(), 153u8), ("wlan0".to_string(), 102u8)]);
    assert_eq!(b.weights(), &w);

    let gateways = vec![("wlan0".to_string(), "192.168.1.1".to_string())];
    let routes = b.generate_routes(&gateways);
    assert_eq!(routes.len(), 1);
    assert_eq!(routes[0].interface, "wlan0");
    assert_eq!(routes[0].gateway, "192.168.1.1");
    assert_eq!(routes[0].metric, 100);
    assert_eq!(routes[0].weight, 102);

    // Nothing viable: no weights.
    assert!(b.compute_weights(&vec![("eth0".to_string(), 1_000)]).is_empty());
    assert!(b.weights().is_empty());
}

#[test]
fn tiny_shares_still_get_weight_one() {
    let mut b = WeightedBalancer::new(0);
    let w = b.compute_weights(&vec![("a".to_string(), 1_000_000), ("b".to_string(), 1)]);
    assert_eq!(w, vec![("a".to_string(), 255u8), ("b".to_string(), 1u8)]);
}

#[test]
fn flow_plan_needs_two_marked_interfaces() {
    let n = NftablesManager::new();
    let gw = vec![("eth0".to_string(), "10.0.0.1".to_string()), ("eth1".to_string(), "10.0.1.1".to_string())];
    let w = vec![("eth0".to_string(), 100u8), ("eth1".to_string(), 155u8)];
    let plan = n.plan(&gw, &w).unwrap();
    assert_eq!(plan.marks, vec![("eth0".to_string(), 1u32), ("eth1".to_string(), 2u32)]);
    assert!(plan.ruleset.contains("ip protocol mod 2 offset 1"));
    assert!(plan.ruleset.starts_with("# NetFusion flow-based balancing\ntable inet netfusion {\n"));
    assert!(n.plan(&gw[..1].to_vec(), &w).is_none());
    assert!(n.plan(&gw, &w[..1].to_vec()).is_none());
    assert_eq!(n.mark_rule_args(true, 2), vec!["rule", "add", "fwmark", "2", "table", "2"]);
    assert_eq!(n.teardown_table_args(), vec!["delete", "table", "inet", "netfusion"]);
}

#[test]
fn flow_marks_skip_interfaces_without_gateway() {
    let n = NftablesManager::new();
    let gw = vec![("eth0".to_string(), "10.0.0.1".to_string()), ("eth1".to_string(), "10.0.1.1".to_string())];
    let w = vec![("eth0".to_string(), 100u8), ("wlan0".to_string(), 50u8), ("eth1".to_string(), 105u8)];
    let plan = n.plan(&gw, &w).unwrap();
    assert_eq!(plan.marks, vec![("eth0".to_string(), 1u32), ("eth1".to_string(), 2u32)]);
    assert!(plan.ruleset.contains("ip protocol mod 2 offset 1"));
}

#[test]
fn rollback_returns_ledger_to_snapshot() {
    let mut ledger = RouteLedger::new();
    ledger.record_default_route("10.0.0.1", "eth0", 100);
    ledger.record_default_route("10.0.0.2", "eth1", 200);
    let previous = ledger.managed_routes().clone();
    // The changes delete one route and add another.
    ledger.forget_default_route("10.0.0.1", "eth0", 100);
    ledger.record_default_route("192.168.1.1", "wlan0", 300);
    let remove = routes_to_roll_back(ledger.managed_routes(), &previous);
    let restore = routes_to_restore(ledger.managed_routes(), &previous);
    assert_eq!(remove.len(), 1);
    assert_eq!(remove[0].gateway, "192.168.1.1");
    assert_eq!(restore.len(), 1);
    assert_eq!(restore[0].gateway, "10.0.0.1");
    for r in &remove {
        ledger.forget_default_route(&r.gateway, &r.interface, r.metric);
    }
    for r in &restore {
        ledger.record_default_route(&r.gateway, &r.interface, r.metric);
    }
    let mut now: Vec<(String, String, u32)> =
        ledger.managed_routes().iter().map(|r| (r.gateway.clone(), r.interface.clone(), r.metric)).collect();
    let mut before: Vec<(String, String, u32)> =
        previous.iter().map(|r| (r.gateway.clone(), r.interface.clone(), r.metric)).collect();
    now.sort();
    before.sort();
    assert_eq!(now, before);
}

#[test]
fn ecmp_command_failure_is_other() {
    match EcmpRouter::new().setup_failure("RTNETLINK answers: Network is unreachable") {
        RoutingError::RouteModify(e) => {
            assert_eq!(e.kind(), SysErrorKind::Other);
            assert_eq!(e.message, "ip route failed: RTNETLINK answers: Network is unreachable");
        },
        other => panic!("unexpected {:?}", other),
    }
}
