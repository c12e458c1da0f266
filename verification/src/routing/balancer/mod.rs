//! Multipath balancing: equal-cost multipath routes, weights derived from
//! health scores, and hash-based flow distribution with nftables.

pub mod ecmp;
pub mod nftables;
pub mod weighted;

pub use ecmp::{EcmpRoute, EcmpRouter};
pub use nftables::NftablesManager;
pub use weighted::WeightedBalancer;
