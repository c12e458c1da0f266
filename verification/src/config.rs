//! Configuration schema: daemon settings, interface selection, bond groups,
//! routing policies, tunnels, health weights, QoS, logging and relay.
//!
//! Maps keyed by name are held as lists of `(key, value)` pairs; the first
//! pair with a given key is the one that counts.

use vstd::prelude::*;
use vstd::arithmetic::div_mod::{lemma_div_by_multiple, lemma_div_is_ordered, lemma_fundamental_div_mod};

use crate::text::dec;

verus! {

/// Schema version for migration support.
pub const SCHEMA_VERSION: u32 = 1;

/// Global daemon settings.
#[derive(Debug, Clone)]
pub struct DaemonConfig {
    /// Unix socket path for IPC.
    pub socket_path: String,
    /// State database path (SQLite).
    pub state_path: String,
    /// Polling interval for interface health checks (milliseconds).
    pub health_interval_ms: u64,
    /// Rollback timeout on failed apply (seconds).
    pub rollback_timeout_secs: u64,
    /// Dry-run mode: validate without applying.
    pub dry_run: bool,
}

/// Default IPC socket path.
pub fn default_socket_path() -> (s: String)
    ensures
        s@ == "/run/netfusion/netfusion.sock"@,
{
    String::from_str("/run/netfusion/netfusion.sock")
}

/// Default state database path.
pub fn default_state_path() -> (s: String)
    ensures
        s@ == "/var/lib/netfusion/state.db"@,
{
    String::from_str("/var/lib/netfusion/state.db")
}

/// Default health probe interval, in milliseconds.
pub fn default_health_interval() -> (v: u64)
    ensures
        v == 1000,
{
    1000
}

/// Default rollback timeout, in seconds.
pub fn default_rollback_timeout() -> (v: u64)
    ensures
        v == 30,
{
    30
}

impl Default for DaemonConfig {
    fn default() -> (r: Self)
        ensures
            r.socket_path@ == "/run/netfusion/netfusion.sock"@,
            r.state_path@ == "/var/lib/netfusion/state.db"@,
            r.health_interval_ms == 1000,
            r.rollback_timeout_secs == 30,
            !r.dry_run,
    {
        DaemonConfig {
            socket_path: default_socket_path(),
            state_path: default_state_path(),
            health_interval_ms: default_health_interval(),
            rollback_timeout_secs: default_rollback_timeout(),
            dry_run: false,
        }
    }
}

/// Linux-supported interface types.
#[derive(Debug, Clone, Copy, PartialEq, Eq, Structural, Hash)]
pub enum InterfaceType {
    Ethernet,
    Wireless,
    Vlan,
    Bridge,
    Bond,
    Tunnel,
    WireGuard,
    Tailscale,
    Ppp,
    UsbTether,
    Cellular,
    Loopback,
    Virtual,
    Unknown,
}

/// Rule for selecting interfaces during discovery.
#[derive(Debug, Clone)]
pub struct InterfaceSelector {
    /// Human-readable name for this selector.
    pub name: String,
    /// Match by interface name pattern (glob).
    pub name_pattern: Option<String>,
    /// Match by interface type.
    pub if_type: Option<InterfaceType>,
    /// Match by driver name.
    pub driver: Option<String>,
    /// Minimum link speed (Mbps); 0 means no minimum.
    pub min_speed_mbps: u64,
    /// Priority weight for this selector (higher is preferred).
    pub weight: u8,
}

/// Default selector weight.
pub fn default_selector_weight() -> (v: u8)
    ensures
        v == 50,
{
    50
}

/// Interface discovery and selection configuration.
#[derive(Debug, Clone)]
pub struct InterfaceConfig {
    /// Interface selectors for auto-discovery.
    pub selectors: Vec<InterfaceSelector>,
    /// Explicitly managed interfaces (overrides discovery).
    pub managed: Vec<String>,
    /// Interfaces to always ignore.
    pub exclude: Vec<String>,
}

impl Default for InterfaceConfig {
    fn default() -> (r: Self)
        ensures
            r.selectors@.len() == 0,
            r.managed@.len() == 0,
            r.exclude@.len() == 0,
    {
        InterfaceConfig { selectors: Vec::new(), managed: Vec::new(), exclude: Vec::new() }
    }
}

/// Bonding and aggregation modes.
#[derive(Debug, Clone, Copy, PartialEq, Eq, Structural)]
pub enum BondMode {
    /// One interface active, the others standby.
    ActiveBackup,
    /// Balanced round-robin.
    BalanceRr,
    /// XOR-based balancing.
    BalanceXor,
    /// Broadcast on all interfaces.
    Broadcast,
    /// 802.3ad LACP (requires switch support).
    Lacp,
    /// Adaptive transmit load balancing.
    AdaptiveTlb,
    /// Adaptive load balancing (includes receive).
    AdaptiveAlb,
    /// MPTCP-based aggregation (requires a remote endpoint).
    Mptcp,
    /// Per-flow balancing via policy routing.
    Ecmp,
    /// Balancing weighted by health scores.
    Weighted,
    /// User-space tunnel aggregation.
    Tunnel,
}

/// Bond group definition.
#[derive(Debug, Clone)]
pub struct BondConfig {
    /// Unique name for this bond group (1 to 64 characters).
    pub name: String,
    /// Bonding mode.
    pub mode: BondMode,
    /// Interface or selector names to include (at least one).
    pub members: Vec<String>,
    /// Per-member weights (same length as members, or empty for equal).
    pub weights: Vec<u8>,
    /// Minimum number of members required active.
    pub min_active_members: usize,
    /// Health check targets for this bond.
    pub health_targets: Vec<String>,
    /// Associated routing policy name.
    pub policy: Option<String>,
}

/// Default minimum number of active bond members.
pub fn default_min_members() -> (v: usize)
    ensures
        v == 1,
{
    1
}

/// Routing policy definition.
#[derive(Debug, Clone)]
pub struct PolicyConfig {
    /// Unique name for this policy (1 to 64 characters).
    pub name: String,
    /// Traffic matching rules.
    pub rules: Vec<RuleConfig>,
    /// Action to take for matched traffic.
    pub action: PolicyAction,
    /// Priority (lower number is higher priority).
    pub priority: u32,
}

/// Default policy priority.
pub fn default_policy_priority() -> (v: u32)
    ensures
        v == 100,
{
    100
}

/// Traffic matching rule.
#[derive(Debug, Clone)]
pub struct RuleConfig {
    /// Source CIDR match.
    pub src: Option<String>,
    /// Destination CIDR match.
    pub dst: Option<String>,
    /// Protocol match (tcp, udp, icmp, or numeric).
    pub proto: Option<String>,
    /// Destination port match.
    pub dport: Option<u16>,
    /// Source port match.
    pub sport: Option<u16>,
    /// DSCP mark match.
    pub dscp: Option<u8>,
    /// Firewall mark match.
    pub fwmark: Option<u32>,
    /// Application match (via cgroup or process name).
    pub app: Option<String>,
}

/// Action for matched traffic.
#[derive(Debug, Clone)]
pub enum PolicyAction {
    /// Route through a specific bond or interface.
    Route { bond: String },
    /// Route through the interface with the lowest RTT.
    LowestLatency,
    /// Route through the interface with the highest throughput.
    HighestThroughput,
    /// Load balance across bond members.
    LoadBalance { bond: String },
    /// Drop matching traffic.
    Drop,
    /// Accept and use default routing.
    Accept,
}

/// Supported tunnel types.
#[derive(Debug, Clone, Copy, PartialEq, Eq, Structural)]
pub enum TunnelType {
    WireGuard,
    OpenVpn,
    Quic,
    Relay,
    Tailscale,
}

/// Tunnel definition for VPN or relay aggregation.
#[derive(Debug, Clone)]
pub struct TunnelConfig {
    /// Unique tunnel name (1 to 64 characters).
    pub name: String,
    /// Tunnel type.
    pub tunnel_type: TunnelType,
    /// Remote endpoint address.
    pub remote: String,
    /// Local bind address.
    pub local_bind: Option<String>,
    /// Authentication or pre-shared key reference.
    pub auth_ref: Option<String>,
    /// Tunnel-specific options, as `(key, value)` pairs.
    pub options: Vec<(String, String)>,
    /// Auto-connect on daemon start.
    pub auto_connect: bool,
    /// Reconnect on failure.
    pub auto_reconnect: bool,
    /// Reconnect interval (seconds).
    pub reconnect_interval_secs: u64,
}

/// Default for `auto_reconnect`.
pub fn default_auto_reconnect() -> (v: bool)
    ensures
        v,
{
    true
}

/// Default reconnect interval, in seconds.
pub fn default_reconnect_interval() -> (v: u64)
    ensures
        v == 10,
{
    10
}

/// Operational mode presets.
#[derive(Debug, Clone, Copy, PartialEq, Eq, Structural)]
pub enum ProfileMode {
    /// Lowest stable latency.
    LowLatency,
    /// Upload stability and jitter reduction.
    Streaming,
    /// Aggregate throughput.
    BulkTransfer,
    /// Packet ordering and low loss.
    Voip,
    /// Balanced default.
    Balanced,
    /// Explicit weights.
    Custom,
}

/// Default failover threshold (percent drop in health score).
pub fn default_failover_threshold() -> (v: u8)
    ensures
        v == 15,
{
    15
}

/// Health scoring weights, each from 0 to 100.
#[derive(Debug, Clone, Copy, PartialEq, Eq, Structural)]
pub struct HealthWeights {
    pub rtt: u8,
    pub jitter: u8,
    pub loss: u8,
    pub throughput: u8,
    pub stability: u8,
}

/// The sum of the five weights.
pub open spec fn weights_total(w: HealthWeights) -> int {
    w.rtt + w.jitter + w.loss + w.throughput + w.stability
}

/// The weights `(rtt, jitter, loss, throughput, stability)`.
pub open spec fn weights_are(w: HealthWeights, r: u8, j: u8, l: u8, t: u8, s: u8) -> bool {
    w.rtt == r && w.jitter == j && w.loss == l && w.throughput == t && w.stability == s
}

impl Default for HealthWeights {
    fn default() -> (r: Self)
        ensures
            weights_are(r, 30, 20, 25, 15, 10),
    {
        HealthWeights { rtt: 30, jitter: 20, loss: 25, throughput: 15, stability: 10 }
    }
}

impl HealthWeights {
    /// Balanced default weights.
    pub fn balanced() -> (r: Self)
        ensures
            weights_are(r, 30, 20, 25, 15, 10),
    {
        Self::default()
    }

    /// Gaming: prioritize RTT and jitter.
    pub fn gaming() -> (r: Self)
        ensures
            weights_are(r, 40, 30, 15, 5, 10),
    {
        HealthWeights { rtt: 40, jitter: 30, loss: 15, throughput: 5, stability: 10 }
    }

    /// Streaming: prioritize throughput and loss.
    pub fn streaming() -> (r: Self)
        ensures
            weights_are(r, 15, 20, 25, 30, 10),
    {
        HealthWeights { rtt: 15, jitter: 20, loss: 25, throughput: 30, stability: 10 }
    }

    /// VoIP: prioritize loss and jitter.
    pub fn voip() -> (r: Self)
        ensures
            weights_are(r, 20, 30, 30, 5, 15),
    {
        HealthWeights { rtt: 20, jitter: 30, loss: 30, throughput: 5, stability: 15 }
    }

    /// Bulk transfer: prioritize throughput.
    pub fn bulk_transfer() -> (r: Self)
        ensures
            weights_are(r, 10, 10, 15, 45, 20),
    {
        HealthWeights { rtt: 10, jitter: 10, loss: 15, throughput: 45, stability: 20 }
    }

    /// Normalizes the weights so they sum to 100, keeping their
    /// proportions: each weight becomes its share of 100, rounded so that
    /// the shares add up exactly (cumulative rounding in field order). All-
    /// zero weights become the balanced defaults.
    pub fn normalize(&mut self)
        ensures
            *final(self) == normalized(*old(self)),
    {
        let total: u32 = self.rtt as u32 + self.jitter as u32 + self.loss as u32 + self.throughput as u32
            + self.stability as u32;
        if total == 0 {
            *self = Self::default();
            return;
        }
        let s1: u32 = self.rtt as u32;
        let s2: u32 = s1 + self.jitter as u32;
        let s3: u32 = s2 + self.loss as u32;
        let s4: u32 = s3 + self.throughput as u32;
        proof {
            lemma_share_step(0, s1 as int, total as int);
            lemma_share_step(s1 as int, s2 as int, total as int);
            lemma_share_step(s2 as int, s3 as int, total as int);
            lemma_share_step(s3 as int, s4 as int, total as int);
            lemma_share_step(s4 as int, total as int, total as int);
        }
        let c1: u32 = s1 * 100 / total;
        let c2: u32 = s2 * 100 / total;
        let c3: u32 = s3 * 100 / total;
        let c4: u32 = s4 * 100 / total;
        *self = HealthWeights {
            rtt: c1 as u8,
            jitter: (c2 - c1) as u8,
            loss: (c3 - c2) as u8,
            throughput: (c4 - c3) as u8,
            stability: (100 - c4) as u8,
        };
    }

    /// Checks that every weight lies in 0..=100; returns the fields that do
    /// not, in declaration order.
    pub fn validate(&self) -> (r: Result<(), Vec<FieldError>>)
        ensures
            r matches Ok(_) <==> health_weights_errors(*self).len() == 0,
            r matches Err(v) ==> v@ == health_weights_errors(*self),
    {
        let mut errs: Vec<FieldError> = Vec::new();
        if self.rtt > 100 {
            errs.push(FieldError { field: ConfigField::Rtt, rule: ValidationRule::Range });
        }
        if self.jitter > 100 {
            errs.push(FieldError { field: ConfigField::Jitter, rule: ValidationRule::Range });
        }
        if self.loss > 100 {
            errs.push(FieldError { field: ConfigField::Loss, rule: ValidationRule::Range });
        }
        if self.throughput > 100 {
            errs.push(FieldError { field: ConfigField::Throughput, rule: ValidationRule::Range });
        }
        if self.stability > 100 {
            errs.push(FieldError { field: ConfigField::Stability, rule: ValidationRule::Range });
        }
        assert(errs@ =~= health_weights_errors(*self));
        if errs.len() == 0 {
            Ok(())
        } else {
            Err(errs)
        }
    }
}

/// The share of 100 that the prefix sum `s` of weights totalling `t`
/// reaches, rounded down.
pub open spec fn share_upto(s: int, t: int) -> int {
    s * 100 / t
}

/// What `normalize` makes of a weight set: the balanced defaults for
/// all-zero weights; otherwise each weight's share of 100, by cumulative
/// rounding over the fields in order (so the shares sum to exactly 100).
pub open spec fn normalized(w: HealthWeights) -> HealthWeights {
    let t = weights_total(w);
    if t == 0 {
        HealthWeights { rtt: 30, jitter: 20, loss: 25, throughput: 15, stability: 10 }
    } else {
        let s1 = w.rtt as int;
        let s2 = s1 + w.jitter;
        let s3 = s2 + w.loss;
        let s4 = s3 + w.throughput;
        let c1 = share_upto(s1, t);
        let c2 = share_upto(s2, t);
        let c3 = share_upto(s3, t);
        let c4 = share_upto(s4, t);
        HealthWeights {
            rtt: c1 as u8,
            jitter: (c2 - c1) as u8,
            loss: (c3 - c2) as u8,
            throughput: (c4 - c3) as u8,
            stability: (100 - c4) as u8,
        }
    }
}

/// One step of cumulative rounding: going from prefix sum `a` to `b` (of a
/// total `t`) adds `b * 100 / t - a * 100 / t` points, which is zero for a
/// zero weight and less than one point away from the exact share.
proof fn lemma_share_step(a: int, b: int, t: int)
    requires
        0 <= a <= b <= t,
        t > 0,
    ensures
        0 <= share_upto(a, t) <= share_upto(b, t) <= 100,
        a == b ==> share_upto(b, t) - share_upto(a, t) == 0,
        b == t ==> share_upto(b, t) == 100,
        a == 0 ==> share_upto(a, t) == 0,
        -t < (share_upto(b, t) - share_upto(a, t)) * t - (b - a) * 100 < t,
{
    lemma_fundamental_div_mod(a * 100, t);
    lemma_fundamental_div_mod(b * 100, t);
    lemma_div_is_ordered(a * 100, b * 100, t);
    lemma_div_is_ordered(b * 100, t * 100, t);
    lemma_div_is_ordered(0, a * 100, t);
    lemma_div_by_multiple(100, t);
    assert(t * 100 == 100 * t) by (nonlinear_arith);
    let qa = a * 100 / t;
    let qb = b * 100 / t;
    let ra = (a * 100) % t;
    let rb = (b * 100) % t;
    assert(0 <= ra < t && 0 <= rb < t);
    assert(-t < (qb - qa) * t - (b - a) * 100 < t) by (nonlinear_arith)
        requires
            a * 100 == t * qa + ra,
            b * 100 == t * qb + rb,
            0 <= ra < t,
            0 <= rb < t,
    ;
    if a == 0 {
        assert(0int * 100 / t == 0);
    }
}

/// Normalized weights sum to 100; a zero weight stays zero; each weight is
/// less than one point away from its exact share of 100; and normalizing
/// twice is normalizing once.
pub proof fn lemma_normalize_idempotent(w: HealthWeights)
    ensures
        weights_total(normalized(w)) == 100,
        weights_total(w) != 0 ==> {
            let t = weights_total(w);
            let n = normalized(w);
            &&& (w.rtt == 0 ==> n.rtt == 0)
            &&& (w.jitter == 0 ==> n.jitter == 0)
            &&& (w.loss == 0 ==> n.loss == 0)
            &&& (w.throughput == 0 ==> n.throughput == 0)
            &&& (w.stability == 0 ==> n.stability == 0)
            &&& -t < n.rtt * t - w.rtt * 100 < t
            &&& -t < n.jitter * t - w.jitter * 100 < t
            &&& -t < n.loss * t - w.loss * 100 < t
            &&& -t < n.throughput * t - w.throughput * 100 < t
            &&& -t < n.stability * t - w.stability * 100 < t
        },
        normalized(normalized(w)) == normalized(w),
{
    lemma_normalized_shares(w);
    let n = normalized(w);
    lemma_normalized_shares(n);
    lemma_fixed_at_100(n);
}

/// The shares of a non-zero weight set are the cumulative-rounding steps.
proof fn lemma_normalized_shares(w: HealthWeights)
    ensures
        weights_total(normalized(w)) == 100,
        weights_total(w) != 0 ==> {
            let t = weights_total(w);
            let n = normalized(w);
            &&& (w.rtt == 0 ==> n.rtt == 0)
            &&& (w.jitter == 0 ==> n.jitter == 0)
            &&& (w.loss == 0 ==> n.loss == 0)
            &&& (w.throughput == 0 ==> n.throughput == 0)
            &&& (w.stability == 0 ==> n.stability == 0)
            &&& -t < n.rtt * t - w.rtt * 100 < t
            &&& -t < n.jitter * t - w.jitter * 100 < t
            &&& -t < n.loss * t - w.loss * 100 < t
            &&& -t < n.throughput * t - w.throughput * 100 < t
            &&& -t < n.stability * t - w.stability * 100 < t
        },
{
    let t = weights_total(w);
    if t != 0 {
        let s1 = w.rtt as int;
        let s2 = s1 + w.jitter;
        let s3 = s2 + w.loss;
        let s4 = s3 + w.throughput;
        lemma_share_step(0, s1, t);
        lemma_share_step(s1, s2, t);
        lemma_share_step(s2, s3, t);
        lemma_share_step(s3, s4, t);
        lemma_share_step(s4, t, t);
    }
}

/// Weights that already sum to 100 are their own shares.
proof fn lemma_fixed_at_100(w: HealthWeights)
    requires
        weights_total(w) == 100,
    ensures
        normalized(w) == w,
{
    let s1 = w.rtt as int;
    let s2 = s1 + w.jitter;
    let s3 = s2 + w.loss;
    let s4 = s3 + w.throughput;
    lemma_div_by_multiple(s1, 100);
    lemma_div_by_multiple(s2, 100);
    lemma_div_by_multiple(s3, 100);
    lemma_div_by_multiple(s4, 100);
}

/// Schedule for automatic profile activation.
#[derive(Debug, Clone)]
pub struct ScheduleConfig {
    /// Cron-like expression (minute hour day month weekday).
    pub cron: String,
    /// Duration to keep the profile active (minutes); 0 means until the next schedule.
    pub duration_mins: Option<u32>,
}

/// Queueing discipline types.
#[derive(Debug, Clone, Copy, PartialEq, Eq, Structural)]
pub enum QdiscType {
    FqCodel,
    Cake,
    Htb,
    Prio,
    PfifoFast,
}

impl Default for QdiscType {
    fn default() -> (r: Self)
        ensures
            r == QdiscType::FqCodel,
    {
        QdiscType::FqCodel
    }
}

/// Per-interface queueing configuration.
#[derive(Debug, Clone, Copy, PartialEq, Eq, Structural)]
pub struct QdiscConfig {
    /// Override qdisc type for this interface.
    pub qdisc: Option<QdiscType>,
    /// Target latency (ms) for fq_codel.
    pub target_ms: Option<u32>,
    /// Interval (ms) for fq_codel.
    pub interval_ms: Option<u32>,
    /// Limit (packets) for the queue.
    pub limit: Option<u32>,
}

/// Quality of Service configuration.
#[derive(Debug, Clone)]
pub struct QosConfig {
    /// Enable QoS shaping.
    pub enabled: bool,
    /// Queueing discipline to use.
    pub qdisc: QdiscType,
    /// Enable Explicit Congestion Notification.
    pub ecn: bool,
    /// Enable DSCP tagging.
    pub dscp_tagging: bool,
    /// Per-interface overrides, as `(interface, config)` pairs.
    pub interface_overrides: Vec<(String, QdiscConfig)>,
}

/// Logging configuration.
#[derive(Debug, Clone)]
pub struct LoggingConfig {
    /// Log level filter.
    pub level: String,
    /// Log to file.
    pub file: Option<String>,
    /// Log to journald.
    pub journald: bool,
    /// Max log file size (MB).
    pub max_size_mb: u64,
    /// Number of rotated log files to keep.
    pub max_files: usize,
}

/// Default log level.
pub fn default_log_level() -> (s: String)
    ensures
        s@ == "info"@,
{
    String::from_str("info")
}

/// Default maximum log file size, in MB.
pub fn default_max_log_size() -> (v: u64)
    ensures
        v == 10,
{
    10
}

/// Default number of rotated log files.
pub fn default_max_log_files() -> (v: usize)
    ensures
        v == 5,
{
    5
}

/// Remote relay server configuration.
#[derive(Debug, Clone)]
pub struct RelayConfig {
    /// Remote relay server address (host:port).
    pub server: String,
    /// QUIC port.
    pub port: u16,
    /// Authentication token reference.
    pub auth_ref: Option<String>,
    /// Server hostname for TLS verification.
    pub server_name: Option<String>,
    /// Enable relay connection.
    pub enabled: bool,
}

/// Default relay port.
pub fn default_relay_port() -> (v: u16)
    ensures
        v == 4433,
{
    4433
}

// ---------------------------------------------------------------------------
// Validation
// ---------------------------------------------------------------------------

/// A configuration field that a validation rule applies to.
#[derive(Debug, Clone, Copy, PartialEq, Eq, Structural)]
pub enum ConfigField {
    Name,
    Members,
    Rtt,
    Jitter,
    Loss,
    Throughput,
    Stability,
}

/// The kind of rule a field broke.
#[derive(Debug, Clone, Copy, PartialEq, Eq, Structural)]
pub enum ValidationRule {
    /// A length outside the allowed bounds.
    Length,
    /// A number outside the allowed range.
    Range,
}

/// One broken validation rule.
#[derive(Debug, Clone, Copy, PartialEq, Eq, Structural)]
pub struct FieldError {
    pub field: ConfigField,
    pub rule: ValidationRule,
}

/// Length error on `field`.
pub open spec fn length_error(field: ConfigField) -> FieldError {
    FieldError { field, rule: ValidationRule::Length }
}

/// Range error on `field`.
pub open spec fn range_error(field: ConfigField) -> FieldError {
    FieldError { field, rule: ValidationRule::Range }
}

/// The list of `e` if `bad`, else nothing.
pub open spec fn error_if(bad: bool, e: FieldError) -> Seq<FieldError> {
    if bad { seq![e] } else { Seq::empty() }
}

/// A name counts 1 to 64 characters.
pub open spec fn name_ok(name: Seq<char>) -> bool {
    1 <= name.len() <= 64
}

/// The broken rules of a set of health weights.
pub open spec fn health_weights_errors(w: HealthWeights) -> Seq<FieldError> {
    error_if(w.rtt > 100, range_error(ConfigField::Rtt)) + error_if(
        w.jitter > 100,
        range_error(ConfigField::Jitter),
    ) + error_if(w.loss > 100, range_error(ConfigField::Loss)) + error_if(
        w.throughput > 100,
        range_error(ConfigField::Throughput),
    ) + error_if(w.stability > 100, range_error(ConfigField::Stability))
}

/// The broken rules of a bond group definition.
pub open spec fn bond_config_errors(c: BondConfig) -> Seq<FieldError> {
    error_if(!name_ok(c.name@), length_error(ConfigField::Name)) + error_if(
        c.members@.len() < 1,
        length_error(ConfigField::Members),
    )
}

/// Whether the name counts 1 to 64 characters.
fn check_name(name: &String) -> (b: bool)
    ensures
        b == name_ok(name@),
{
    let n = name.as_str().unicode_len();
    1 <= n && n <= 64
}

impl BondConfig {
    /// Checks the name length (1 to 64) and that there is at least one
    /// member; returns the broken rules in declaration order.
    pub fn validate(&self) -> (r: Result<(), Vec<FieldError>>)
        ensures
            r matches Ok(_) <==> bond_config_errors(*self).len() == 0,
            r matches Err(v) ==> v@ == bond_config_errors(*self),
    {
        let mut errs: Vec<FieldError> = Vec::new();
        if !check_name(&self.name) {
            errs.push(FieldError { field: ConfigField::Name, rule: ValidationRule::Length });
        }
        if self.members.len() < 1 {
            errs.push(FieldError { field: ConfigField::Members, rule: ValidationRule::Length });
        }
        assert(errs@ =~= bond_config_errors(*self));
        if errs.len() == 0 {
            Ok(())
        } else {
            Err(errs)
        }
    }
}

impl PolicyConfig {
    /// Checks the name length (1 to 64).
    pub fn validate(&self) -> (r: Result<(), Vec<FieldError>>)
        ensures
            r matches Ok(_) <==> name_ok(self.name@),
            r matches Err(v) ==> v@ == seq![length_error(ConfigField::Name)],
    {
        if check_name(&self.name) {
            Ok(())
        } else {
            let mut errs: Vec<FieldError> = Vec::new();
            errs.push(FieldError { field: ConfigField::Name, rule: ValidationRule::Length });
            assert(errs@ =~= seq![length_error(ConfigField::Name)]);
            Err(errs)
        }
    }
}

impl TunnelConfig {
    /// Checks the name length (1 to 64).
    pub fn validate(&self) -> (r: Result<(), Vec<FieldError>>)
        ensures
            r matches Ok(_) <==> name_ok(self.name@),
            r matches Err(v) ==> v@ == seq![length_error(ConfigField::Name)],
    {
        if check_name(&self.name) {
            Ok(())
        } else {
            let mut errs: Vec<FieldError> = Vec::new();
            errs.push(FieldError { field: ConfigField::Name, rule: ValidationRule::Length });
            assert(errs@ =~= seq![length_error(ConfigField::Name)]);
            Err(errs)
        }
    }
}

// ---------------------------------------------------------------------------
// Whole-configuration validation
// ---------------------------------------------------------------------------

/// The parts of a configuration that carry validation rules: bond groups,
/// routing policies, tunnels, and each profile's health weights override
/// (by profile name, in the order of the names).
#[derive(Debug, Clone)]
pub struct ConfigSections {
    pub bonds: Vec<BondConfig>,
    pub policies: Vec<PolicyConfig>,
    pub tunnels: Vec<TunnelConfig>,
    pub profile_weights: Vec<(String, HealthWeights)>,
}

/// One broken rule of a configuration, with the path of the entry that
/// broke it (such as `bonds[0]` or `profiles[gaming].health_weights`).
#[derive(Debug, Clone)]
pub struct ConfigIssue {
    pub path: String,
    pub error: FieldError,
}

/// A list of issues as paths and broken rules.
pub open spec fn issues_view(v: Seq<ConfigIssue>) -> Seq<(Seq<char>, FieldError)> {
    v.map_values(|i: ConfigIssue| (i.path@, i.error))
}

/// The broken rules of a policy or tunnel name.
pub open spec fn name_errors(name: Seq<char>) -> Seq<FieldError> {
    error_if(!name_ok(name), length_error(ConfigField::Name))
}

/// Each of `errs` at `path`.
pub open spec fn entry_issues(path: Seq<char>, errs: Seq<FieldError>) -> Seq<(Seq<char>, FieldError)> {
    errs.map_values(|e: FieldError| (path, e))
}

/// The path of entry `i` of a list section.
pub open spec fn list_path(section: Seq<char>, i: int) -> Seq<char> {
    section + "["@ + dec(i as nat) + "]"@
}

/// The path of a profile's health weights.
pub open spec fn profile_path(name: Seq<char>) -> Seq<char> {
    "profiles["@ + name + "].health_weights"@
}

/// The issues of a list section whose entries broke the rules `errs`, in
/// order.
pub open spec fn list_issues(section: Seq<char>, errs: Seq<Seq<FieldError>>) -> Seq<(Seq<char>, FieldError)>
    decreases errs.len(),
{
    if errs.len() == 0 {
        Seq::empty()
    } else {
        list_issues(section, errs.drop_last()) + entry_issues(list_path(section, errs.len() - 1), errs.last())
    }
}

/// The issues of the profiles' health weights, in order.
pub open spec fn profile_issues(ws: Seq<(String, HealthWeights)>) -> Seq<(Seq<char>, FieldError)>
    decreases ws.len(),
{
    if ws.len() == 0 {
        Seq::empty()
    } else {
        profile_issues(ws.drop_last()) + entry_issues(profile_path(ws.last().0@), health_weights_errors(ws.last().1))
    }
}

/// Every broken rule of a configuration: bonds, then policies, then
/// tunnels, then profiles, each in order.
pub open spec fn config_issues(c: ConfigSections) -> Seq<(Seq<char>, FieldError)> {
    list_issues("bonds"@, c.bonds@.map_values(|b: BondConfig| bond_config_errors(b))) + list_issues(
        "policies"@,
        c.policies@.map_values(|p: PolicyConfig| name_errors(p.name@)),
    ) + list_issues("tunnels"@, c.tunnels@.map_values(|t: TunnelConfig| name_errors(t.name@))) + profile_issues(
        c.profile_weights@,
    )
}

/// The name of a field, as it is written in the configuration.
pub open spec fn field_label(f: ConfigField) -> Seq<char> {
    match f {
        ConfigField::Name => "name"@,
        ConfigField::Members => "members"@,
        ConfigField::Rtt => "rtt"@,
        ConfigField::Jitter => "jitter"@,
        ConfigField::Loss => "loss"@,
        ConfigField::Throughput => "throughput"@,
        ConfigField::Stability => "stability"@,
    }
}

/// The name of a rule.
pub open spec fn rule_label(r: ValidationRule) -> Seq<char> {
    match r {
        ValidationRule::Length => "length"@,
        ValidationRule::Range => "range"@,
    }
}

/// One issue as text: `<path>.<field>: <rule>`.
pub open spec fn issue_text(i: (Seq<char>, FieldError)) -> Seq<char> {
    i.0 + "."@ + field_label(i.1.field) + ": "@ + rule_label(i.1.rule)
}

/// Issues as text, separated by `; `.
pub open spec fn issues_text(v: Seq<(Seq<char>, FieldError)>) -> Seq<char>
    decreases v.len(),
{
    if v.len() == 0 {
        Seq::empty()
    } else if v.len() == 1 {
        issue_text(v[0])
    } else {
        issues_text(v.drop_last()) + "; "@ + issue_text(v.last())
    }
}

fn push_entry_issues(out: &mut Vec<ConfigIssue>, path: &String, errs: &Vec<FieldError>)
    ensures
        issues_view(final(out)@) == issues_view(old(out)@) + entry_issues(path@, errs@),
{
    let ghost start = issues_view(out@);
    let mut k: usize = 0;
    while k < errs.len()
        invariant
            k <= errs@.len(),
            issues_view(out@) == start + entry_issues(path@, errs@.take(k as int)),
        decreases errs.len() - k,
    {
        let ghost before = out@;
        let pc = path.clone();
        assert(pc@ == path@);
        let issue = ConfigIssue { path: pc, error: errs[k] };
        out.push(issue);
        assert(out@ == before.push(issue));
        assert(issues_view(out@) =~= issues_view(before).push((path@, errs@[k as int])));
        assert(entry_issues(path@, errs@.take(k + 1)) =~= entry_issues(path@, errs@.take(k as int)).push(
            (path@, errs@[k as int]),
        ));
        assert(issues_view(out@) =~= start + entry_issues(path@, errs@.take(k + 1)));
        k = k + 1;
    }
    assert(errs@.take(errs@.len() as int) =~= errs@);
}

fn list_path_string(section: &str, i: usize) -> (p: String)
    ensures
        p@ == list_path(section@, i as int),
{
    let mut p = String::from_str(section);
    crate::text::push_str(&mut p, "[");
    crate::text::push_dec(&mut p, i as u64);
    crate::text::push_str(&mut p, "]");
    p
}

fn errors_of(r: Result<(), Vec<FieldError>>) -> (v: Vec<FieldError>)
    ensures
        r matches Ok(_) ==> v@.len() == 0,
        r matches Err(e) ==> v@ == e@,
{
    match r {
        Ok(_) => Vec::new(),
        Err(e) => e,
    }
}

impl ConfigSections {
    /// Checks every bond, policy, tunnel and profile weights override;
    /// returns every broken rule, in the order of `config_issues`.
    pub fn validate(&self) -> (r: Result<(), Vec<ConfigIssue>>)
        ensures
            r matches Ok(_) <==> config_issues(*self).len() == 0,
            r matches Err(v) ==> issues_view(v@) == config_issues(*self),
    {
        let mut out: Vec<ConfigIssue> = Vec::new();
        let ghost be = self.bonds@.map_values(|b: BondConfig| bond_config_errors(b));
        let mut i: usize = 0;
        while i < self.bonds.len()
            invariant
                i <= self.bonds@.len(),
                be == self.bonds@.map_values(|b: BondConfig| bond_config_errors(b)),
                issues_view(out@) == list_issues("bonds"@, be.take(i as int)),
            decreases self.bonds.len() - i,
        {
            let errs = errors_of(self.bonds[i].validate());
            let path = list_path_string("bonds", i);
            push_entry_issues(&mut out, &path, &errs);
            assert(be.take(i + 1).drop_last() =~= be.take(i as int));
            i = i + 1;
        }
        assert(be.take(be.len() as int) =~= be);
        let ghost after_bonds = issues_view(out@);
        let ghost pe = self.policies@.map_values(|p: PolicyConfig| name_errors(p.name@));
        let mut i: usize = 0;
        while i < self.policies.len()
            invariant
                i <= self.policies@.len(),
                pe == self.policies@.map_values(|p: PolicyConfig| name_errors(p.name@)),
                issues_view(out@) == after_bonds + list_issues("policies"@, pe.take(i as int)),
            decreases self.policies.len() - i,
        {
            let errs = errors_of(self.policies[i].validate());
            assert(errs@ =~= name_errors(self.policies@[i as int].name@));
            let path = list_path_string("policies", i);
            push_entry_issues(&mut out, &path, &errs);
            assert(pe.take(i + 1).drop_last() =~= pe.take(i as int));
            i = i + 1;
        }
        assert(pe.take(pe.len() as int) =~= pe);
        let ghost after_policies = issues_view(out@);
        let ghost te = self.tunnels@.map_values(|t: TunnelConfig| name_errors(t.name@));
        let mut i: usize = 0;
        while i < self.tunnels.len()
            invariant
                i <= self.tunnels@.len(),
                te == self.tunnels@.map_values(|t: TunnelConfig| name_errors(t.name@)),
                issues_view(out@) == after_policies + list_issues("tunnels"@, te.take(i as int)),
            decreases self.tunnels.len() - i,
        {
            let errs = errors_of(self.tunnels[i].validate());
            assert(errs@ =~= name_errors(self.tunnels@[i as int].name@));
            let path = list_path_string("tunnels", i);
            push_entry_issues(&mut out, &path, &errs);
            assert(te.take(i + 1).drop_last() =~= te.take(i as int));
            i = i + 1;
        }
        assert(te.take(te.len() as int) =~= te);
        let ghost after_tunnels = issues_view(out@);
        let mut i: usize = 0;
        while i < self.profile_weights.len()
            invariant
                i <= self.profile_weights@.len(),
                issues_view(out@) == after_tunnels + profile_issues(self.profile_weights@.take(i as int)),
            decreases self.profile_weights.len() - i,
        {
            let errs = errors_of(self.profile_weights[i].1.validate());
            let mut path = String::from_str("profiles[");
            crate::text::push_str(&mut path, self.profile_weights[i].0.as_str());
            crate::text::push_str(&mut path, "].health_weights");
            push_entry_issues(&mut out, &path, &errs);
            assert(self.profile_weights@.take(i + 1).drop_last() =~= self.profile_weights@.take(i as int));
            i = i + 1;
        }
        assert(self.profile_weights@.take(self.profile_weights@.len() as int) =~= self.profile_weights@);
        assert(issues_view(out@) =~= config_issues(*self));
        if out.len() == 0 {
            Ok(())
        } else {
            Err(out)
        }
    }
}

/// The issues as text: `<path>.<field>: <rule>` for each, separated by
/// `; `.
pub fn describe_issues(v: &Vec<ConfigIssue>) -> (s: String)
    ensures
        s@ == issues_text(issues_view(v@)),
{
    let mut s = String::new();
    let mut k: usize = 0;
    while k < v.len()
        invariant
            k <= v@.len(),
            s@ == issues_text(issues_view(v@).take(k as int)),
        decreases v.len() - k,
    {
        let ghost prev = issues_view(v@).take(k as int);
        let ghost next = issues_view(v@).take(k + 1);
        assert(next.drop_last() =~= prev);
        if k > 0 {
            crate::text::push_str(&mut s, "; ");
        }
        crate::text::push_str(&mut s, v[k].path.as_str());
        crate::text::push_str(&mut s, ".");
        let field = match v[k].error.field {
            ConfigField::Name => "name",
            ConfigField::Members => "members",
            ConfigField::Rtt => "rtt",
            ConfigField::Jitter => "jitter",
            ConfigField::Loss => "loss",
            ConfigField::Throughput => "throughput",
            ConfigField::Stability => "stability",
        };
        crate::text::push_str(&mut s, field);
        crate::text::push_str(&mut s, ": ");
        let rule = match v[k].error.rule {
            ValidationRule::Length => "length",
            ValidationRule::Range => "range",
        };
        crate::text::push_str(&mut s, rule);
        if k == 0 {
            assert(s@ =~= issues_text(next));
        } else {
            assert(s@ =~= issues_text(next));
        }
        k = k + 1;
    }
    assert(issues_view(v@).take(v@.len() as int) =~= issues_view(v@));
    s
}

// ---------------------------------------------------------------------------
// Option lists
// ---------------------------------------------------------------------------

/// The value of the first pair with key `k`, if any.
pub open spec fn lookup(pairs: Seq<(String, String)>, k: Seq<char>) -> Option<Seq<char>>
    decreases pairs.len(),
{
    if pairs.len() == 0 {
        None
    } else if pairs[0].0@ == k {
        Some(pairs[0].1@)
    } else {
        lookup(pairs.drop_first(), k)
    }
}

/// Looks up the first option with key `k`.
pub fn lookup_option<'a>(pairs: &'a Vec<(String, String)>, k: &str) -> (r: Option<&'a String>)
    ensures
        match r {
            Some(v) => lookup(pairs@, k@) == Some(v@),
            None => lookup(pairs@, k@) is None,
        },
{
    let mut i: usize = 0;
    assert(pairs@.subrange(0, pairs@.len() as int) =~= pairs@);
    while i < pairs.len()
        invariant
            i <= pairs.len(),
            lookup(pairs@, k@) == lookup(pairs@.subrange(i as int, pairs@.len() as int), k@),
        decreases pairs.len() - i,
    {
        let ghost rest = pairs@.subrange(i as int, pairs@.len() as int);
        assert(rest.drop_first() =~= pairs@.subrange(i + 1, pairs@.len() as int));
        if crate::text::str_eq(pairs[i].0.as_str(), k) {
            return Some(&pairs[i].1);
        }
        i = i + 1;
    }
    None
}

} // verus!
