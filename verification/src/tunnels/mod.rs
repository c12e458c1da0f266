//! Tunnel management: WireGuard orchestration and reconnect supervision.

pub mod manager;
pub mod wireguard;
