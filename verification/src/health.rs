//! Health scoring weights.
//!
//! The composite health score weighs five normalized metrics (RTT, jitter,
//! loss, throughput, stability); the weights need not sum to 100, the score
//! divides by their total.

use vstd::prelude::*;

use crate::config::HealthWeights;

verus! {

/// Weights of the five health components.
#[derive(Debug, Clone, Copy, PartialEq, Eq, Structural)]
pub struct HealthWeightsConfig {
    pub rtt: u8,
    pub jitter: u8,
    pub loss: u8,
    pub throughput: u8,
    pub stability: u8,
}

/// The weights `(rtt, jitter, loss, throughput, stability)`.
pub open spec fn config_weights_are(w: HealthWeightsConfig, r: u8, j: u8, l: u8, t: u8, s: u8) -> bool {
    w.rtt == r && w.jitter == j && w.loss == l && w.throughput == t && w.stability == s
}

/// The sum of the five weights.
pub open spec fn config_total(w: HealthWeightsConfig) -> int {
    w.rtt + w.jitter + w.loss + w.throughput + w.stability
}

impl Default for HealthWeightsConfig {
    fn default() -> (r: Self)
        ensures
            config_weights_are(r, 30, 20, 25, 15, 10),
    {
        HealthWeightsConfig { rtt: 30, jitter: 20, loss: 25, throughput: 15, stability: 10 }
    }
}

impl HealthWeightsConfig {
    /// Gaming profile: prioritize RTT and jitter.
    pub fn gaming() -> (r: Self)
        ensures
            config_weights_are(r, 40, 30, 15, 5, 10),
    {
        HealthWeightsConfig { rtt: 40, jitter: 30, loss: 15, throughput: 5, stability: 10 }
    }

    /// Streaming profile: prioritize throughput and loss.
    pub fn streaming() -> (r: Self)
        ensures
            config_weights_are(r, 15, 20, 25, 30, 10),
    {
        HealthWeightsConfig { rtt: 15, jitter: 20, loss: 25, throughput: 30, stability: 10 }
    }

    /// VoIP profile: prioritize loss and jitter.
    pub fn voip() -> (r: Self)
        ensures
            config_weights_are(r, 20, 30, 30, 5, 15),
    {
        HealthWeightsConfig { rtt: 20, jitter: 30, loss: 30, throughput: 5, stability: 15 }
    }

    /// Bulk transfer profile: prioritize throughput.
    pub fn bulk_transfer() -> (r: Self)
        ensures
            config_weights_are(r, 10, 10, 15, 45, 20),
    {
        HealthWeightsConfig { rtt: 10, jitter: 10, loss: 15, throughput: 45, stability: 20 }
    }

    /// The scoring weights of a configured weight set, field by field.
    pub fn from_weights(w: &HealthWeights) -> (r: Self)
        ensures
            config_weights_are(r, w.rtt, w.jitter, w.loss, w.throughput, w.stability),
    {
        HealthWeightsConfig {
            rtt: w.rtt,
            jitter: w.jitter,
            loss: w.loss,
            throughput: w.throughput,
            stability: w.stability,
        }
    }
}

} // verus!
