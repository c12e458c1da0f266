[package]
name = "netfusion"
version = "0.1.0"
edition = "2021"
publish = false

[dependencies]
anyhow = "=1.0.104"
bincode = "=1.3.3"
chrono = { version = "=0.4.45", features = ["serde"] }
crossterm = "=0.28.1"
ethtool = "=0.2.9"
futures = "=0.3.34"
getrandom = "=0.4.3"
netlink-packet-route = "=0.19.0"
notify = "=6.1.1"
quinn = "=0.11.12"
ratatui = "=0.29.0"
rcgen = "=0.14.10"
rtnetlink = "=0.14.1"
rusqlite = { version = "=0.31.0", features = ["bundled"] }
rustls = { version = "=0.23.46", default-features = false, features = ["ring", "std", "logging", "tls12"] }
rustls-pemfile = "=2.2.0"
serde = { version = "=1.0.229", features = ["derive"] }
thiserror = "=1.0.69"
tokio = { version = "=1.54.1", features = ["full"] }
toml = "=0.8.23"
tracing = "=0.1.44"
tracing-subscriber = { version = "=0.3.23", features = ["env-filter"] }
uuid = { version = "=1.29.0", features = ["v4", "serde"] }
validator = { version = "=0.21.0", features = ["derive"] }
