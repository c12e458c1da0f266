use std::time::{Duration, Instant};

use netfusion::config::{TunnelConfig, TunnelType};
use netfusion::error::CoreError;
use netfusion::tunnels::manager::{
    classify_tunnel, health_score, ReconnectInfo, TunnelHealth, TunnelManager, MAX_RECONNECT_DELAY_SECS,
};
use netfusion::tunnels::wireguard::{parse_latest_handshake, parse_transfer, WireGuardConfig, WireGuardTunnel};

fn wg_config() -> WireGuardConfig {
    WireGuardConfig {
        interface: "wg0".into(),
        private_key: "test".into(),
        listen_port: None,
        endpoint: "example.com:51820".into(),
        public_key: "test".into(),
        preshared_key: None,
        allowed_ips: vec!["0.0.0.0/0".into()],
        persistent_keepalive: None,
        tunnel_address: "10.0.0.1/24".into(),
        dns_servers: vec![],
    }
}

fn tunnel_config(name: &str, options: Vec<(&str, &str)>) -> TunnelConfig {
    TunnelConfig {
        name: name.into(),
        tunnel_type: TunnelType::WireGuard,
        remote: "example.com:51820".into(),
        local_bind: None,
        auth_ref: None,
        options: options.into_iter().map(|(k, v)| (k.to_string(), v.to_string())).collect(),
        auto_connect: false,
        auto_reconnect: true,
        reconnect_interval_secs: 30,
    }
}

#[test]
fn test_reconnect_backoff() {
    let mut info = ReconnectInfo::new();

    // The first attempt is always allowed.
    assert!(info.should_reconnect());

    info.next_delay();
    info.last_attempt = Some(Instant::now());
    assert!(!info.should_reconnect());

    // Once the delay has passed...
    info.last_attempt = Some(Instant::now() - Duration::from_secs(info.current_delay_secs) - Duration::from_secs(1));
    assert!(info.should_reconnect());

    info.next_delay();
    let prev_delay = info.current_delay_secs;
    info.next_delay();
    assert!(info.current_delay_secs > prev_delay);
}

#[test]
fn test_reconnect_max_delay() {
    let mut info = ReconnectInfo::new();
    for _ in 0..20 {
        info.next_delay();
    }
    assert!(info.current_delay_secs <= MAX_RECONNECT_DELAY_SECS);
}

#[test]
fn test_reconnect_reset() {
    let mut info = ReconnectInfo::new();
    info.next_delay();
    info.next_delay();
    assert!(info.attempts > 0);

    info.reset();
    assert_eq!(info.attempts, 0);
    assert_eq!(info.current_delay_secs, 1);
}

#[test]
fn test_wireguard_config_defaults() {
    let config = wg_config();
    assert_eq!(config.interface, "wg0");
    assert!(config.listen_port.is_none());
    assert!(config.preshared_key.is_none());
    assert!(config.persistent_keepalive.is_none());
    assert!(config.dns_servers.is_empty());
}

#[test]
fn test_tunnel_not_up_initially() {
    let tunnel = WireGuardTunnel::new(wg_config());
    assert!(!tunnel.up());
    assert!(!tunnel.is_operational_given(None));
}

#[test]
fn test_tunnel_manager_empty() {
    let manager = TunnelManager::new();
    assert!(manager.get_states().is_empty());
    assert!(manager.all_health_scores().is_empty());
}

#[test]
fn test_tunnel_config_added() {
    let mut manager = TunnelManager::new();
    manager.add_config(tunnel_config("test_tunnel", vec![]));
    assert_eq!(manager.config_count(), 1);
}

#[test]
fn backoff_doubles_then_caps() {
    let mut info = ReconnectInfo::new();
    let delays: Vec<u64> = (0..10).map(|_| info.next_delay()).collect();
    assert_eq!(delays, vec![2, 4, 8, 16, 32, 64, 128, 256, 300, 300]);
    assert_eq!(info.attempts, 10);
}

#[test]
fn reconnect_due_after_elapsed_delay() {
    let mut info = ReconnectInfo::new();
    info.next_delay();
    assert!(info.reconnect_due_after(None));
    assert!(!info.reconnect_due_after(Some(1999)));
    assert!(info.reconnect_due_after(Some(2000)));
}

#[test]
fn tunnel_health_classification() {
    assert_eq!(classify_tunnel(true, Ok(Some(1700000000))), TunnelHealth::Healthy);
    assert_eq!(classify_tunnel(true, Ok(None)), TunnelHealth::Unhealthy);
    assert_eq!(classify_tunnel(true, Err(())), TunnelHealth::Unhealthy);
    assert_eq!(classify_tunnel(false, Ok(Some(1))), TunnelHealth::Unhealthy);
    assert_eq!(health_score(TunnelHealth::Healthy), 100);
    assert_eq!(health_score(TunnelHealth::Unhealthy), 0);
}

#[test]
fn wireguard_settings_from_options() {
    let c = tunnel_config(
        "wg1",
        vec![
            ("private_key", "priv"),
            ("public_key", "pub"),
            ("tunnel_address", "10.1.0.2/24"),
            ("allowed_ips", "10.0.0.0/8, 192.168.0.0/16"),
            ("listen_port", "51820"),
            ("persistent_keepalive", "not-a-number"),
        ],
    );
    let w = WireGuardConfig::from_tunnel_config(&c).unwrap();
    assert_eq!(w.interface, "wg1");
    assert_eq!(w.allowed_ips, vec!["10.0.0.0/8", "192.168.0.0/16"]);
    assert_eq!(w.listen_port, Some(51820));
    assert_eq!(w.persistent_keepalive, None);
    assert!(w.dns_servers.is_empty());
}

#[test]
fn wireguard_settings_need_keys() {
    let c = tunnel_config("wg2", vec![("private_key", "priv")]);
    match WireGuardConfig::from_tunnel_config(&c) {
        Err(CoreError::Qos(m)) => assert_eq!(m, "Missing public_key for tunnel wg2"),
        other => panic!("unexpected {:?}", other.map(|w| w.interface)),
    }
}

#[test]
fn reconnect_plan_rejects_other_types() {
    let mut c = tunnel_config("relay1", vec![]);
    c.tunnel_type = TunnelType::Relay;
    match TunnelManager::reconnect_plan(&c) {
        Err(CoreError::Qos(m)) => assert_eq!(m, "Tunnel type Relay not supported for reconnect"),
        other => panic!("unexpected {:?}", other.map(|w| w.interface)),
    }
    assert!(matches!(TunnelManager::start_plan(&c), Ok(None)));
}

#[test]
fn manager_tracks_health_and_reconnects() {
    let mut m = TunnelManager::new();
    let mut c = tunnel_config("wg0", vec![("private_key", "a"), ("public_key", "b"), ("tunnel_address", "10.0.0.1/24")]);
    c.auto_connect = true;
    m.add_config(c);
    assert_eq!(m.auto_connect_names(), vec!["wg0"]);
    let plan = TunnelManager::start_plan(m.config_of("wg0").unwrap()).unwrap().unwrap();
    m.register_tunnel("wg0", WireGuardTunnel::new(plan), true);

    assert!(m.record_health("wg0", false, Ok(None)));
    assert_eq!(m.get_health("wg0"), Some(0));
    assert!(!m.record_health("wg0", true, Ok(Some(5))));
    assert_eq!(m.get_health("wg0"), Some(100));

    // First reconnect is due at once and counts one attempt.
    assert!(m.begin_reconnect("wg0"));
    let rows = m.get_states();
    assert_eq!(rows.len(), 1);
    assert_eq!(rows[0].reconnect_count, 1);
    assert!(rows[0].has_tunnel);
    // The next one waits for the delay.
    assert!(!m.begin_reconnect("wg0"));
    m.finish_reconnect("wg0", true);
    assert_eq!(m.get_states()[0].reconnect_count, 0);

    let t = m.take_tunnel("wg0");
    assert!(t.is_some());
    m.forget_tunnel("wg0");
    assert_eq!(m.config_count(), 0);
    assert_eq!(m.get_health("wg0"), None);
}

#[test]
fn wg_show_output_parsing() {
    assert_eq!(parse_transfer("peerkey\t1024\t2048\n"), (1024, 2048));
    assert_eq!(parse_latest_handshake("peerkey\t1700000000\n"), Some(1700000000));
    assert_eq!(parse_latest_handshake("peerkey\t0\n"), None);
}

#[test]
fn reconnect_waits_for_the_backoff_delay() {
    let mut m = TunnelManager::new();
    let mut c = tunnel_config("wg0", vec![("private_key", "a"), ("public_key", "b"), ("tunnel_address", "10.0.0.1/24")]);
    c.auto_reconnect = true;
    m.add_config(c);
    assert!(m.begin_reconnect_after("wg0", None));
    assert_eq!(m.get_states()[0].reconnect_count, 1);
    // The delay doubled to two seconds.
    assert!(!m.begin_reconnect_after("wg0", Some(1_999)));
    assert_eq!(m.get_states()[0].reconnect_count, 1);
    assert!(m.begin_reconnect_after("wg0", Some(2_000)));
    assert_eq!(m.get_states()[0].reconnect_count, 2);
    // A tunnel without reconnects never goes.
    let mut other = tunnel_config("wg1", vec![]);
    other.auto_reconnect = false;
    m.add_config(other);
    assert!(!m.begin_reconnect_after("wg1", None));
}
