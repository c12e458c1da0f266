//! Verified core of NetFusion, a multi-interface network aggregation daemon.

pub mod argv;
pub mod assoc;
pub mod bonding;
pub mod config;
pub mod discovery;
pub mod error;
pub mod events;
pub mod health;
pub mod intelligence;
pub mod ipc;
pub mod monitoring;
pub mod qos;
pub mod relay;
pub mod rolling;
pub mod routing;
pub mod text;
pub mod tui;
pub mod tunnels;
pub mod types;
