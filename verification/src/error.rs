//! Error types of the core operations.
//!
//! Operating-system errors are carried as their message text.

use vstd::prelude::*;

verus! {

/// Errors during interface discovery.
#[derive(Debug, Clone)]
pub enum DiscoveryError {
    /// Failed to connect to netlink.
    NetlinkConnect(String),
    /// Failed to enumerate interfaces.
    Enumerate(String),
    /// ethtool failed for an interface.
    Ethtool { iface: String, source: String },
    /// Wireless information unavailable for an interface.
    WirelessUnavailable { iface: String },
}

/// Errors during health monitoring.
#[derive(Debug, Clone)]
pub enum MonitoringError {
    /// A ping probe failed.
    PingFailed { iface: String, reason: String },
    /// No target available for a probe.
    NoTarget { iface: String },
    /// A probe timed out.
    Timeout { iface: String },
    /// The interface is down.
    InterfaceDown { iface: String },
    /// The monitor channel closed.
    ChannelClosed { iface: String },
}

/// The kind of a failed system operation.
#[derive(Debug, Clone, Copy, PartialEq, Eq, Structural)]
pub enum SysErrorKind {
    /// An argument was not acceptable.
    InvalidInput,
    /// Something named was not found.
    NotFound,
    /// Any other failure.
    Other,
}

/// A failed system operation: what kind of failure, and its message.
#[derive(Debug, Clone)]
pub struct SysError {
    pub kind: SysErrorKind,
    pub message: String,
}

impl SysError {
    /// A failure of the given kind with the given message.
    pub fn new(kind: SysErrorKind, message: String) -> (e: Self)
        ensures
            e.kind == kind,
            e.message == message,
    {
        SysError { kind, message }
    }

    /// The kind of failure.
    pub fn kind(&self) -> (k: SysErrorKind)
        ensures
            k == self.kind,
    {
        self.kind
    }
}

/// Errors during routing operations.
#[derive(Debug, Clone)]
pub enum RoutingError {
    /// Failed to modify a route.
    RouteModify(SysError),
    /// Failed to read the routing table.
    TableRead(SysError),
    /// Conflicting policies.
    PolicyConflict(String),
    /// Rollback failed.
    RollbackFailed(String),
}

/// Errors during bonding operations.
#[derive(Debug, Clone)]
pub enum BondingError {
    /// Failed to create a bond.
    CreateFailed { name: String, source: String },
    /// Failed to enslave an interface to a bond.
    EnslaveFailed { bond: String, iface: String },
    /// A bond has fewer members than it requires.
    InsufficientMembers { name: String, min: usize, actual: usize },
    /// No bond of that name.
    NotFound { name: String },
}

/// Errors during state persistence operations.
#[derive(Debug, Clone)]
pub enum StateError {
    /// Failed to open the state database.
    DbOpen(String),
    /// Failed to execute a query.
    QueryFailed(String),
    /// A state migration failed.
    MigrationFailed(String),
    /// The state file is corrupted.
    Corrupted(String),
}

/// Top-level error for core operations.
#[derive(Debug, Clone)]
pub enum CoreError {
    Discovery(DiscoveryError),
    Monitoring(MonitoringError),
    Routing(RoutingError),
    Bonding(BondingError),
    State(StateError),
    /// Configuration error.
    Config(String),
    /// A system command or operation failed.
    Internal(String),
    /// Quality-of-service or tunnel setup error.
    Qos(String),
}

} // verus!
