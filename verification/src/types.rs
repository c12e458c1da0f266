//! Runtime data shared between the daemon and its clients.

use vstd::prelude::*;

verus! {

/// IP address information.
#[derive(Debug, Clone)]
pub struct IpInfo {
    /// IP address with CIDR prefix.
    pub cidr: String,
    /// Whether this address was assigned via DHCP.
    pub dhcp: bool,
}

/// Duplex mode of an interface.
#[derive(Debug, Clone, Copy, PartialEq, Eq, Structural)]
pub enum Duplex {
    Full,
    Half,
    Unknown,
}

/// Current link state of an interface.
#[derive(Debug, Clone, Copy, PartialEq, Eq, Structural)]
pub enum LinkState {
    Up,
    Down,
    Unknown,
}

/// Cellular modem metrics.
#[derive(Debug, Clone)]
pub struct CellularInfo {
    /// Signal strength in dBm.
    pub signal_dbm: Option<i16>,
    /// Cell ID.
    pub cell_id: Option<String>,
    /// Network type (LTE, 5G-NR, ...).
    pub network_type: Option<String>,
    /// Reference Signal Received Power.
    pub rsrp: Option<i16>,
    /// Reference Signal Received Quality.
    pub rsrq: Option<i16>,
    /// Signal to Interference plus Noise Ratio.
    pub sinr: Option<i16>,
}

/// Kernel interface statistics.
#[derive(Debug, Clone, Copy, PartialEq, Eq, Structural)]
pub struct InterfaceStats {
    pub rx_bytes: u64,
    pub tx_bytes: u64,
    pub rx_packets: u64,
    pub tx_packets: u64,
    pub rx_errors: u64,
    pub tx_errors: u64,
    pub rx_dropped: u64,
    pub tx_dropped: u64,
}

impl Default for InterfaceStats {
    fn default() -> (r: Self)
        ensures
            r == (InterfaceStats {
                rx_bytes: 0,
                tx_bytes: 0,
                rx_packets: 0,
                tx_packets: 0,
                rx_errors: 0,
                tx_errors: 0,
                rx_dropped: 0,
                tx_dropped: 0,
            }),
    {
        InterfaceStats {
            rx_bytes: 0,
            tx_bytes: 0,
            rx_packets: 0,
            tx_packets: 0,
            rx_errors: 0,
            tx_errors: 0,
            rx_dropped: 0,
            tx_dropped: 0,
        }
    }
}

/// A single route change.
#[derive(Debug, Clone)]
pub struct RouteChange {
    /// "add", "del" or "change".
    pub action: String,
    pub destination: Option<String>,
    pub gateway: Option<String>,
    pub interface: String,
}

} // verus!
