use netfusion::routing::path_steering::{PathSteerer, SteeringConfig, SteeringReason};

// Scores are fixed-point: 1000 units per health point.
fn pts(p: i64) -> i64 {
    p * 1000
}

#[test]
fn test_initial_assignment() {
    let config = SteeringConfig::default();
    let mut steerer = PathSteerer::new(config);

    let decision = steerer.on_health_update("eth0", pts(85), 1_000);

    assert!(decision.is_some());
    let d = decision.unwrap();
    assert_eq!(d.active_interface, "eth0");
    assert_eq!(d.reason, SteeringReason::Initial);
}

#[test]
fn test_failover_on_degradation() {
    let mut config = SteeringConfig::default();
    config.steering_cooldown_ms = 0;
    let mut steerer = PathSteerer::new(config);

    steerer.on_health_update("eth0", pts(85), 1_000);
    steerer.on_health_update("eth1", pts(70), 1_001);

    // One degraded reading is not enough.
    let decision = steerer.on_health_update("eth0", pts(10), 1_002);
    assert!(decision.is_none());

    steerer.on_health_update("eth0", pts(10), 1_003);

    // The third consecutive degraded reading fails over.
    let decision = steerer.on_health_update("eth0", pts(10), 1_004);
    assert!(decision.is_some());
    let d = decision.unwrap();
    assert_eq!(d.active_interface, "eth1");
    assert!(d.is_failover);
    assert_eq!(d.reason, SteeringReason::HealthDegraded);
}

#[test]
fn test_hysteresis_prevents_flapping() {
    let mut config = SteeringConfig::default();
    config.steering_cooldown_ms = 0;
    let mut steerer = PathSteerer::new(config);

    steerer.on_health_update("eth0", pts(70), 1_000);
    let decision = steerer.on_health_update("eth1", pts(75), 1_001);

    // A 5 point advantage is below the 15 point hysteresis.
    if let Some(d) = decision {
        assert_eq!(d.active_interface, "eth0");
    }
}

#[test]
fn test_no_viable_interfaces() {
    let mut config = SteeringConfig::default();
    config.steering_cooldown_ms = 0;
    let mut steerer = PathSteerer::new(config);

    steerer.on_health_update("eth0", pts(20), 1_000);
    steerer.on_health_update("eth1", pts(15), 1_001);

    assert!(!steerer.is_assigned());
}

#[test]
fn test_cooldown_protection() {
    let config = SteeringConfig { steering_cooldown_ms: 3_600_000, ..Default::default() };
    let mut steerer = PathSteerer::new(config);

    steerer.on_health_update("eth0", pts(85), 1_000);

    steerer.on_health_update("eth0", pts(5), 1_001);
    steerer.on_health_update("eth0", pts(5), 1_002);
    let decision = steerer.on_health_update("eth0", pts(5), 1_003);

    assert!(decision.is_none());
}

#[test]
fn better_path_switches_past_hysteresis() {
    let mut config = SteeringConfig::default();
    config.steering_cooldown_ms = 0;
    let mut steerer = PathSteerer::new(config);

    steerer.on_health_update("eth0", pts(50), 1_000);
    let d = steerer.on_health_update("eth1", pts(90), 1_001).unwrap();
    assert_eq!(d.active_interface, "eth1");
    assert_eq!(d.reason, SteeringReason::BetterPath);
    assert!(!d.is_failover);
    assert_eq!(steerer.get_decision("default").unwrap().active_interface, "eth1");
    assert!(steerer.get_decision("gaming").is_none());
}

#[test]
fn reset_forgets_the_assignment() {
    let mut steerer = PathSteerer::new(SteeringConfig::default());
    steerer.on_health_update("eth0", pts(85), 1_000);
    assert!(steerer.is_assigned());
    assert_eq!(steerer.all_decisions().len(), 1);
    steerer.reset();
    assert!(!steerer.is_assigned());
    assert!(steerer.all_decisions().is_empty());
}

#[test]
fn active_score_follows_latest_reading() {
    let mut config = SteeringConfig::default();
    config.steering_cooldown_ms = 0;
    let mut steerer = PathSteerer::new(config);

    steerer.on_health_update("eth0", pts(85), 1_000);
    assert!(steerer.on_health_update("eth1", pts(70), 1_001).is_none());
    // eth0 drops to 40, still viable: eth1 now leads by 30 points.
    let d = steerer.on_health_update("eth0", pts(40), 1_002).unwrap();
    assert_eq!(d.active_interface, "eth1");
    assert_eq!(d.reason, SteeringReason::BetterPath);
    assert_eq!(d.active_score, pts(70));
}
