use netfusion::config::InterfaceType;
use netfusion::discovery::metadata::{
    iw_info_args, link_mode, parse_iw_info, parse_legacy_wireless, sysfs_path, EthtoolDuplex, LinkModeAttr,
};
use netfusion::discovery::{
    default_gateway_for, detect_interface_type, detect_network_stack, format_mac, is_nm_managed,
    is_skipped_interface, is_virtual_interface, is_wireless_interface, link_state_from, link_mtu_or_default, link_name_or_default, parse_net_dev,
    plan_interfaces, AddressEntry, LinkEntry, NetworkStack, OperState, RouteEntry,
};
use netfusion::types::{Duplex, LinkState};

fn link(index: u32, name: &str, mac: bool, kind: Option<&str>) -> LinkEntry {
    LinkEntry {
        index,
        name: name.into(),
        mac: if mac { Some("aa:bb:cc:dd:ee:ff".into()) } else { None },
        mtu: 1500,
        state: LinkState::Up,
        link_type: kind.map(|k| k.to_string()),
    }
}

#[test]
fn interface_types() {
    assert_eq!(detect_interface_type(&link(1, "bond0", true, Some("bond"))), InterfaceType::Bond);
    assert_eq!(detect_interface_type(&link(1, "x", true, Some("Bond"))), InterfaceType::Unknown);
    assert_eq!(detect_interface_type(&link(1, "wg0", false, None)), InterfaceType::WireGuard);
    assert_eq!(detect_interface_type(&link(1, "usb0-tether", true, None)), InterfaceType::UsbTether);
    assert_eq!(detect_interface_type(&link(1, "wwan0", false, None)), InterfaceType::Cellular);
    assert_eq!(detect_interface_type(&link(1, "wlp3s0", true, None)), InterfaceType::Wireless);
    assert_eq!(detect_interface_type(&link(1, "enp0s3", true, None)), InterfaceType::Ethernet);
    assert_eq!(detect_interface_type(&link(1, "lo", true, None)), InterfaceType::Unknown);
}

#[test]
fn name_predicates() {
    assert!(is_virtual_interface("docker0"));
    assert!(is_virtual_interface("veth1234"));
    assert!(!is_virtual_interface("eth0"));
    assert!(is_skipped_interface("lo"));
    assert!(is_wireless_interface("wlan0"));
    assert!(is_wireless_interface("ath9k"));
    assert!(!is_wireless_interface("eth0"));
    let status = "eth0:connected\nwlan0:unmanaged\nlo:unmanaged\n";
    assert!(is_nm_managed("eth0", status));
    assert!(!is_nm_managed("wlan0", status));
    assert!(!is_nm_managed("eth1", status));
    assert!(!is_nm_managed("eth0", ""));
}

#[test]
fn link_states() {
    assert_eq!(link_state_from(true, None), LinkState::Up);
    assert_eq!(link_state_from(false, None), LinkState::Down);
    assert_eq!(link_state_from(true, Some(OperState::Down)), LinkState::Down);
    assert_eq!(link_state_from(false, Some(OperState::Dormant)), LinkState::Up);
    assert_eq!(link_state_from(false, Some(OperState::Unknown)), LinkState::Down);
}

#[test]
fn network_stacks() {
    assert_eq!(detect_network_stack(false, true, true, false), NetworkStack::SystemdNetworkd);
    assert_eq!(detect_network_stack(false, false, false, false).as_str(), "unknown");
    assert_eq!(NetworkStack::NetworkManager.as_str(), "NetworkManager");
}

#[test]
fn mac_and_gateway() {
    assert_eq!(format_mac(&vec![0x00, 0x1a, 0xff, 0x0b]), "00:1a:ff:0b");
    let routes = vec![
        RouteEntry { gateway: Some("10.0.0.1".into()), dst_prefix_len: 0, if_index: Some(2) },
        RouteEntry { gateway: Some("10.9.9.9".into()), dst_prefix_len: 24, if_index: Some(2) },
        RouteEntry { gateway: None, dst_prefix_len: 0, if_index: Some(3) },
    ];
    assert_eq!(default_gateway_for(&routes, 2), Some("10.0.0.1".to_string()));
    assert_eq!(default_gateway_for(&routes, 3), Some(String::new()));
    assert_eq!(default_gateway_for(&routes, 4), None);
}

#[test]
fn proc_net_dev() {
    let content = "Inter-|   Receive                                                |  Transmit\n face |bytes    packets errs drop fifo frame compressed multicast|bytes    packets errs drop fifo colls carrier compressed\n    lo: 100 2 0 0 0 0 0 0 100 2 0 0 0 0 0 0\n  eth0: 5000 40 1 2 0 0 0 0 7000 50 3 4 0 0 0 0\n";
    let entries = parse_net_dev(content);
    assert_eq!(entries.len(), 2);
    assert_eq!(entries[1].0, "eth0");
    assert_eq!(entries[1].1.rx_bytes, 5000);
    assert_eq!(entries[1].1.rx_dropped, 2);
    assert_eq!(entries[1].1.tx_bytes, 7000);
    assert_eq!(entries[1].1.tx_errors, 3);
}

#[test]
fn scan_plan_skips_loopback_and_virtual() {
    let links = vec![link(1, "lo", false, None), link(2, "eth0", true, None), link(3, "docker0", true, Some("bridge"))];
    let addrs = vec![
        AddressEntry { index: 2, address: "192.168.1.10".into(), prefix_len: 24 },
        AddressEntry { index: 1, address: "127.0.0.1".into(), prefix_len: 8 },
        AddressEntry { index: 2, address: "fe80::1".into(), prefix_len: 64 },
    ];
    let routes = vec![RouteEntry { gateway: Some("192.168.1.1".into()), dst_prefix_len: 0, if_index: Some(2) }];
    let drafts = plan_interfaces(&links, &addrs, &routes);
    assert_eq!(drafts.len(), 1);
    assert_eq!(drafts[0].link, 1);
    assert_eq!(drafts[0].if_type, InterfaceType::Ethernet);
    let cidrs: Vec<&str> = drafts[0].addresses.iter().map(|a| a.cidr.as_str()).collect();
    assert_eq!(cidrs, vec!["192.168.1.10/24", "fe80::1/64"]);
    assert!(drafts[0].addresses.iter().all(|a| !a.dhcp));
    assert_eq!(drafts[0].gateway.as_deref(), Some("192.168.1.1"));
}

#[test]
fn ethtool_link_modes() {
    let attrs = vec![
        LinkModeAttr::Speed(0),
        LinkModeAttr::Duplex(EthtoolDuplex::Half),
        LinkModeAttr::Speed(1000),
        LinkModeAttr::Other,
        LinkModeAttr::Duplex(EthtoolDuplex::Full),
    ];
    assert_eq!(link_mode(&attrs), (Some(1000), Some(Duplex::Full)));
    assert_eq!(link_mode(&vec![LinkModeAttr::Duplex(EthtoolDuplex::Other)]), (None, None));
}

#[test]
fn wireless_readings() {
    assert_eq!(sysfs_path("wlan0", "phy80211"), "/sys/class/net/wlan0/phy80211");
    assert_eq!(iw_info_args(&"wlan0".to_string()), vec!["dev", "wlan0", "info"]);
    assert_eq!(parse_legacy_wireless("Signal.level -67\nNoise.level -95\nSignal.level bogus\n"), (Some(-67), Some(-95)));
    assert_eq!(parse_legacy_wireless("Signal.level -129\n"), (None, None));
    let info = parse_iw_info(
        "Interface wlan0\n\tifindex 3\n\tssid  HomeNet \n\tchannel 36 (5180 MHz), width: 80 MHz\n\tsignal: -52 dBm\n",
    );
    assert_eq!(info.ssid.as_deref(), Some("HomeNet"));
    assert_eq!(info.frequency_mhz, Some(36));
    assert_eq!(info.signal_dbm, Some(-52));
}

#[test]
fn link_defaults_when_attributes_are_missing() {
    assert_eq!(link_name_or_default(Some("eth0".to_string()), 2), "eth0");
    assert_eq!(link_name_or_default(None, 17), "unknown-17");
    assert_eq!(link_mtu_or_default(Some(9000)), 9000);
    assert_eq!(link_mtu_or_default(None), 1500);
}
