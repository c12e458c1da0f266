use netfusion::monitoring::{ping_args, ping_lines, probe_target, ThroughputTracker, TrafficDelta};

/// Reads the figures the way the monitor does: a figure replaces the
/// previous one when it reads as a number.
fn summarize(output: &str) -> Result<(f64, f64, f64), String> {
    let mut loss_percent = 0.0;
    let mut avg_rtt = 0.0;
    let mut mdev = 0.0;
    for line in ping_lines(output) {
        if let Some(v) = line.loss.and_then(|t| t.parse::<f64>().ok()) {
            loss_percent = v;
        }
        if let Some(v) = line.rtt_avg.and_then(|t| t.parse::<f64>().ok()) {
            avg_rtt = v;
        }
        if let Some(v) = line.rtt_mdev.and_then(|t| t.parse::<f64>().ok()) {
            mdev = v;
        }
    }
    if avg_rtt == 0.0 && loss_percent < 100.0 {
        return Err("could not parse RTT from ping output".into());
    }
    Ok((avg_rtt, mdev, loss_percent))
}

#[test]
fn test_parse_ping_output() {
    let output = r#"
PING 8.8.8.8 (8.8.8.8) 56(84) bytes of data.
64 bytes from 8.8.8.8: icmp_seq=1 ttl=118 time=12.3 ms
64 bytes from 8.8.8.8: icmp_seq=2 ttl=118 time=11.8 ms
64 bytes from 8.8.8.8: icmp_seq=3 ttl=118 time=12.1 ms
64 bytes from 8.8.8.8: icmp_seq=4 ttl=118 time=12.5 ms

--- 8.8.8.8 ping statistics ---
4 packets transmitted, 4 received, 0% packet loss, time 3005ms
rtt min/avg/max/mdev = 11.800/12.175/12.500/0.250 ms
"#;
    let (rtt, jitter, loss) = summarize(output).unwrap();
    assert!((rtt - 12.175).abs() < 0.01);
    assert!((jitter - 0.250).abs() < 0.01);
    assert!((loss - 0.0).abs() < 0.01);
}

#[test]
fn test_parse_ping_output_with_loss() {
    let output = r#"
PING 8.8.8.8 (8.8.8.8) 56(84) bytes of data.
64 bytes from 8.8.8.8: icmp_seq=1 ttl=118 time=15.2 ms
64 bytes from 8.8.8.8: icmp_seq=3 ttl=118 time=14.8 ms

--- 8.8.8.8 ping statistics ---
4 packets transmitted, 2 received, 50% packet loss, time 3001ms
rtt min/avg/max/mdev = 14.800/15.000/15.200/0.200 ms
"#;
    let (rtt, _jitter, loss) = summarize(output).unwrap();
    assert!((rtt - 15.0).abs() < 0.01);
    assert!((loss - 50.0).abs() < 0.01);
}

#[test]
fn ping_line_texts() {
    let lines = ping_lines("4 packets transmitted, 3 received, 25% packet loss, time 3005ms\nround-trip min/avg/max = 1.0/2.5/3.0/0.4 ms");
    assert_eq!(lines.len(), 2);
    assert_eq!(lines[0].loss.as_deref(), Some("25"));
    assert!(lines[0].rtt_avg.is_none());
    assert_eq!(lines[1].rtt_avg.as_deref(), Some("2.5"));
    assert_eq!(lines[1].rtt_mdev.as_deref(), Some("0.4"));
    assert!(lines[1].loss.is_none());
}

#[test]
fn total_loss_parses_without_rtt() {
    let out = "3 packets transmitted, 0 received, 100% packet loss, time 2000ms\n";
    assert_eq!(summarize(out).unwrap(), (0.0, 0.0, 100.0));
    assert!(summarize("no summary here\n").is_err());
}

#[test]
fn probe_target_prefers_gateway() {
    let targets = vec!["8.8.8.8".to_string(), "1.1.1.1".to_string()];
    assert_eq!(probe_target(&Some("192.168.1.1".into()), &targets), Some("192.168.1.1".to_string()));
    assert_eq!(probe_target(&None, &targets), Some("8.8.8.8".to_string()));
    assert_eq!(probe_target(&None, &vec![]), None);
    assert_eq!(ping_args(&"1.1.1.1".to_string()), vec!["-c", "4", "-W", "2", "-i", "0.2", "1.1.1.1"]);
}

#[test]
fn throughput_deltas_between_probes() {
    let mut t = ThroughputTracker::new();
    assert_eq!(t.estimate("eth0", 1_000, 500, 10), None);
    assert_eq!(
        t.estimate("eth0", 3_000, 400, 1_000_000_010),
        Some(TrafficDelta { rx_bytes: 2_000, tx_bytes: 0, elapsed_ns: 1_000_000_000 })
    );
    // A new interface has no previous counters.
    assert_eq!(t.estimate("eth1", 10, 10, 2_000_000_000), None);
    // No time passed: no estimate.
    assert_eq!(t.estimate("eth0", 4_000, 500, 2_000_000_000), None);
}
