# NetFusion

NetFusion aggregates several network interfaces (Ethernet, Wi-Fi, cellular,
tunnels) into bond groups, scores their health, steers traffic to the best
path, and applies routing changes with automatic rollback. A daemon serves
a Unix-socket IPC endpoint, a terminal interface shows its state, and an
optional QUIC relay echoes client streams.

## Layout

- `src/` — the verified library (Verus): the programs' decisions on
  integer and text data, each with its contract: interface discovery
  planning, bond membership and failover, path steering with hysteresis and
  cooldown, the safe-apply state machine and rollback to the route snapshot,
  configuration validation, ECMP / weighted / nftables balancing plans,
  queueing-discipline and DSCP command plans and how their outcomes are
  read, WireGuard tunnel plans and
  reconnect backoff, the IPC framing and request answers, the terminal
  interface's state and key bindings, event descriptions, relay admission
  and TLS material. Health scores are fixed-point integers (1000 units per
  point); timestamps are milliseconds.
- `tests/` — tests of the library on concrete values.
- `app/` — the executable (`netfusion daemon|tui|relay`): netlink, ethtool,
  sysfs and command execution, sockets, QUIC, SQLite persistence, the
  terminal rendering, configuration files, and the fractional statistics
  (health normalization, smoothing, regression, percentiles) that feed the
  library's decisions.
