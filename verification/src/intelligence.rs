//! Failure prediction and performance analytics: how indicators combine
//! into a prediction, how reliable an interface is rated, which weight
//! changes to recommend, and the rolling sample windows behind them.
//!
//! The statistics themselves (regressions, means, percentiles) are
//! floating-point and computed by the caller; this module takes their
//! outcomes.

use std::collections::VecDeque;

use vstd::prelude::*;

use crate::argv::lit;
use crate::assoc::{as_map, find_key, get_key, take_key, unique_keys};
use crate::health::HealthWeightsConfig;
use crate::rolling::{keep_last, push_bounded};
use crate::text::{dec, push_dec, push_str};

verus! {

// ---------------------------------------------------------------------------
// Predictions
// ---------------------------------------------------------------------------

/// Severity of a predicted failure, from none to critical.
#[derive(Debug, Clone, Copy, PartialEq, Eq, PartialOrd, Ord, Hash)]
pub enum Severity {
    /// No failure predicted.
    NoFailure,
    Low,
    Medium,
    High,
    Critical,
}

/// Why a prediction was made.
#[derive(Debug, Clone, Copy, PartialEq, Eq, Hash)]
pub enum PredictionReason {
    /// No issue detected.
    Stable,
    /// The score is trending downward.
    DownwardTrend,
    /// The degradation is accelerating.
    AcceleratingDegradation,
    /// Anomalous readings (by z-score).
    Anomaly,
    /// Several indicators point to an imminent failure.
    MultiIndicator,
}

/// The rank of a severity (none lowest).
pub open spec fn severity_rank(s: Severity) -> int {
    match s {
        Severity::NoFailure => 0,
        Severity::Low => 1,
        Severity::Medium => 2,
        Severity::High => 3,
        Severity::Critical => 4,
    }
}

/// The more severe of two severities.
pub open spec fn severity_max(a: Severity, b: Severity) -> Severity {
    if severity_rank(a) >= severity_rank(b) { a } else { b }
}

fn more_severe(a: Severity, b: Severity) -> (s: Severity)
    ensures
        s == severity_max(a, b),
{
    let ra: u8 = match a {
        Severity::NoFailure => 0,
        Severity::Low => 1,
        Severity::Medium => 2,
        Severity::High => 3,
        Severity::Critical => 4,
    };
    let rb: u8 = match b {
        Severity::NoFailure => 0,
        Severity::Low => 1,
        Severity::Medium => 2,
        Severity::High => 3,
        Severity::Critical => 4,
    };
    if ra >= rb { a } else { b }
}

/// The outcomes of the trend, acceleration and anomaly checks.
#[derive(Debug, Clone, Copy)]
pub struct Indicators {
    /// The score trends downward.
    pub degrading: bool,
    /// The downward slope is steeper than 0.1 points per second.
    pub steep: bool,
    /// The degradation accelerates.
    pub accelerating: bool,
    /// The largest anomaly z-score exceeds 3.
    pub strong_anomaly: bool,
    /// The largest anomaly z-score exceeds 2.
    pub anomaly: bool,
    /// The combined confidence exceeds 0.6.
    pub confident: bool,
}

/// The severity and reason the indicators give: a downward trend is a
/// medium failure (high when steep); acceleration raises it to at least
/// high; a strong anomaly to at least medium; and a confident trend or
/// acceleration together with an anomaly makes it critical, for several
/// indicators. Later findings name the reason.
pub open spec fn combine_spec(i: Indicators) -> (Severity, PredictionReason) {
    let (s1, r1) = if i.degrading {
        (if i.steep { Severity::High } else { Severity::Medium }, PredictionReason::DownwardTrend)
    } else {
        (Severity::NoFailure, PredictionReason::Stable)
    };
    let (s2, r2) = if i.accelerating {
        (severity_max(s1, Severity::High), PredictionReason::AcceleratingDegradation)
    } else {
        (s1, r1)
    };
    let (s3, r3) = if i.strong_anomaly {
        (severity_max(s2, Severity::Medium), PredictionReason::Anomaly)
    } else {
        (s2, r2)
    };
    if i.confident && (i.degrading || i.accelerating) && i.anomaly {
        (severity_max(s3, Severity::Critical), PredictionReason::MultiIndicator)
    } else {
        (s3, r3)
    }
}

/// Combines the indicators into a severity and a reason.
pub fn combine_indicators(i: Indicators) -> (r: (Severity, PredictionReason))
    ensures
        r == combine_spec(i),
{
    let mut severity = Severity::NoFailure;
    let mut reason = PredictionReason::Stable;
    if i.degrading {
        reason = PredictionReason::DownwardTrend;
        severity = if i.steep { Severity::High } else { Severity::Medium };
    }
    if i.accelerating {
        reason = PredictionReason::AcceleratingDegradation;
        severity = more_severe(severity, Severity::High);
    }
    if i.strong_anomaly {
        reason = PredictionReason::Anomaly;
        severity = more_severe(severity, Severity::Medium);
    }
    if i.confident && (i.degrading || i.accelerating) && i.anomaly {
        reason = PredictionReason::MultiIndicator;
        severity = more_severe(severity, Severity::Critical);
    }
    (severity, reason)
}

/// Whether a prediction calls for action: its confidence reached the
/// threshold and some failure is predicted.
pub fn should_act(confidence_reached: bool, severity: Severity) -> (b: bool)
    ensures
        b == (confidence_reached && severity != Severity::NoFailure),
{
    confidence_reached && match severity {
        Severity::NoFailure => false,
        _ => true,
    }
}

/// Whether a reason says the interface is degrading.
pub fn is_degrading(reason: PredictionReason) -> (b: bool)
    ensures
        b == (reason == PredictionReason::DownwardTrend || reason == PredictionReason::AcceleratingDegradation
            || reason == PredictionReason::MultiIndicator),
{
    match reason {
        PredictionReason::DownwardTrend | PredictionReason::AcceleratingDegradation
        | PredictionReason::MultiIndicator => true,
        _ => false,
    }
}

/// Several indicators together never give less than a critical failure,
/// and a prediction is stable only when no indicator fired.
pub proof fn lemma_combined_severity(i: Indicators)
    ensures
        combine_spec(i).1 == PredictionReason::MultiIndicator ==> combine_spec(i).0 == Severity::Critical,
        combine_spec(i).1 == PredictionReason::Stable <==> !(i.degrading || i.accelerating || i.strong_anomaly),
        combine_spec(i).0 == Severity::NoFailure <==> !(i.degrading || i.accelerating || i.strong_anomaly),
        i.accelerating ==> severity_rank(combine_spec(i).0) >= severity_rank(Severity::High),
{
}

// ---------------------------------------------------------------------------
// Reliability
// ---------------------------------------------------------------------------

/// Interface reliability rating.
#[derive(Debug, Clone, Copy, PartialEq, Eq, Hash)]
pub enum ReliabilityRating {
    Excellent,
    Good,
    Fair,
    Poor,
    Unknown,
}

/// The rating of a window of `samples` readings of which `degraded` were
/// below 50 and `outages` below 10: excellent at 99% uptime without
/// outage, good at 95% with under 2% outages, fair at 80%, poor below;
/// unknown without readings. Uptime is the share of readings not
/// degraded.
pub open spec fn rating_spec(samples: nat, degraded: nat, outages: nat) -> ReliabilityRating {
    if samples == 0 {
        ReliabilityRating::Unknown
    } else if 100 * degraded <= samples && outages == 0 {
        ReliabilityRating::Excellent
    } else if 100 * degraded <= 5 * samples && 100 * outages < 2 * samples {
        ReliabilityRating::Good
    } else if 100 * degraded <= 20 * samples {
        ReliabilityRating::Fair
    } else {
        ReliabilityRating::Poor
    }
}

/// The reliability rating of a window of readings.
pub fn reliability_rating(samples: usize, degraded: usize, outages: usize) -> (r: ReliabilityRating)
    ensures
        r == rating_spec(samples as nat, degraded as nat, outages as nat),
{
    let n = samples as u128;
    let d = degraded as u128;
    let o = outages as u128;
    if samples == 0 {
        ReliabilityRating::Unknown
    } else if 100 * d <= n && outages == 0 {
        ReliabilityRating::Excellent
    } else if 100 * d <= 5 * n && 100 * o < 2 * n {
        ReliabilityRating::Good
    } else if 100 * d <= 20 * n {
        ReliabilityRating::Fair
    } else {
        ReliabilityRating::Poor
    }
}

/// The rank of a rating (excellent highest, unknown lowest).
pub open spec fn rating_rank(r: ReliabilityRating) -> int {
    match r {
        ReliabilityRating::Excellent => 5,
        ReliabilityRating::Good => 4,
        ReliabilityRating::Fair => 3,
        ReliabilityRating::Poor => 2,
        ReliabilityRating::Unknown => 1,
    }
}

fn rank_of(r: ReliabilityRating) -> (k: u8)
    ensures
        k == rating_rank(r),
{
    match r {
        ReliabilityRating::Excellent => 5,
        ReliabilityRating::Good => 4,
        ReliabilityRating::Fair => 3,
        ReliabilityRating::Poor => 2,
        ReliabilityRating::Unknown => 1,
    }
}

/// The most reliable of the rated interfaces: the position of the last
/// one with the best rating; none when there is none.
pub fn best_interface(ratings: &Vec<ReliabilityRating>) -> (b: Option<usize>)
    ensures
        match b {
            Some(k) => {
                &&& k < ratings@.len()
                &&& forall|j: int| 0 <= j < ratings@.len() ==> rating_rank(#[trigger] ratings@[j]) <= rating_rank(
                    ratings@[k as int],
                )
                &&& forall|j: int| k < j < ratings@.len() ==> rating_rank(#[trigger] ratings@[j]) < rating_rank(
                    ratings@[k as int],
                )
            },
            None => ratings@.len() == 0,
        },
{
    if ratings.len() == 0 {
        return None;
    }
    let mut best: usize = 0;
    let mut i: usize = 1;
    while i < ratings.len()
        invariant
            1 <= i <= ratings@.len(),
            best < i,
            forall|j: int| 0 <= j < i ==> rating_rank(#[trigger] ratings@[j]) <= rating_rank(ratings@[best as int]),
            forall|j: int| best < j < i ==> rating_rank(#[trigger] ratings@[j]) < rating_rank(ratings@[best as int]),
        decreases ratings.len() - i,
    {
        if rank_of(ratings[i]) >= rank_of(ratings[best]) {
            best = i;
        }
        i = i + 1;
    }
    Some(best)
}

/// The positions of the interfaces rated poor or fair, in order.
pub fn problematic_interfaces(ratings: &Vec<ReliabilityRating>) -> (v: Vec<usize>)
    ensures
        forall|k: int| 0 <= k < v@.len() ==> #[trigger] v@[k] < ratings@.len(),
        forall|k: int| 0 <= k < v@.len() ==> (ratings@[#[trigger] v@[k] as int] == ReliabilityRating::Poor
            || ratings@[v@[k] as int] == ReliabilityRating::Fair),
        forall|k: int, l: int| 0 <= k < l < v@.len() ==> v@[k] < v@[l],
        forall|j: int|
            0 <= j < ratings@.len() && (#[trigger] ratings@[j] == ReliabilityRating::Poor || ratings@[j]
                == ReliabilityRating::Fair) ==> v@.contains(j as usize),
{
    let mut v: Vec<usize> = Vec::new();
    let mut i: usize = 0;
    while i < ratings.len()
        invariant
            i <= ratings@.len(),
            forall|k: int| 0 <= k < v@.len() ==> #[trigger] v@[k] < i,
            forall|k: int| 0 <= k < v@.len() ==> (ratings@[#[trigger] v@[k] as int] == ReliabilityRating::Poor
                || ratings@[v@[k] as int] == ReliabilityRating::Fair),
            forall|k: int, l: int| 0 <= k < l < v@.len() ==> v@[k] < v@[l],
            forall|j: int|
                0 <= j < i && (#[trigger] ratings@[j] == ReliabilityRating::Poor || ratings@[j]
                    == ReliabilityRating::Fair) ==> v@.contains(j as usize),
        decreases ratings.len() - i,
    {
        let is_bad = match ratings[i] {
            ReliabilityRating::Poor | ReliabilityRating::Fair => true,
            _ => false,
        };
        let ghost old_v = v@;
        if is_bad {
            v.push(i);
            assert(v@[v@.len() - 1] == i);
        }
        proof {
            assert forall|j: int|
                0 <= j < i + 1 && (#[trigger] ratings@[j] == ReliabilityRating::Poor || ratings@[j]
                    == ReliabilityRating::Fair) implies v@.contains(j as usize) by {
                if j < i {
                    let p = choose|p: int| 0 <= p < old_v.len() && old_v[p] == j as usize;
                    assert(v@[p] == j as usize);
                } else {
                    assert(v@[v@.len() - 1] == i);
                }
            }
        }
        i = i + 1;
    }
    v
}

// ---------------------------------------------------------------------------
// Weight recommendations
// ---------------------------------------------------------------------------

/// A recommended change of one health weight.
#[derive(Debug, Clone)]
pub struct WeightAdjustment {
    pub metric: String,
    pub current_weight: u8,
    pub recommended_weight: u8,
    pub reason: String,
}

/// A `u8` read as an `i8` (as `as i8` does).
pub open spec fn as_i8(x: u8) -> int {
    if x < 128 { x as int } else { x - 256 }
}

/// Whether a weight moved by more than 3 (compared as `i8` values).
pub open spec fn moved(current: u8, recommended: u8) -> bool {
    let d = as_i8(recommended) - as_i8(current);
    d > 3 || d < -3
}

/// The (metric, current, recommended) triples of the five weights.
pub open spec fn weight_pairs(base: HealthWeightsConfig, learned: HealthWeightsConfig) -> Seq<(Seq<char>, u8, u8)> {
    seq![
        ("rtt"@, base.rtt, learned.rtt),
        ("jitter"@, base.jitter, learned.jitter),
        ("loss"@, base.loss, learned.loss),
        ("throughput"@, base.throughput, learned.throughput),
        ("stability"@, base.stability, learned.stability),
    ]
}

/// The recommendations: with at least three observed failovers, each
/// weight (in the order rtt, jitter, loss, throughput, stability) whose
/// learned value moved by more than 3 from its base value.
pub open spec fn recommendations_spec(base: HealthWeightsConfig, learned: HealthWeightsConfig, failovers: nat) -> Seq<(Seq<char>, u8, u8)> {
    if failovers < 3 {
        Seq::empty()
    } else {
        weight_pairs(base, learned).filter(|p: (Seq<char>, u8, u8)| moved(p.1, p.2))
    }
}

/// The differences stay within `i8` (as the comparison needs).
pub open spec fn diffs_fit(base: HealthWeightsConfig, learned: HealthWeightsConfig) -> bool {
    forall|i: int|
        0 <= i < 5 ==> -127 <= #[trigger] as_i8(weight_pairs(base, learned)[i].2) - as_i8(
            weight_pairs(base, learned)[i].1,
        ) <= 127
}

pub open spec fn adjustment_view(a: WeightAdjustment) -> (Seq<char>, u8, u8) {
    (a.metric@, a.current_weight, a.recommended_weight)
}

fn moved_exec(current: u8, recommended: u8) -> (b: bool)
    requires
        -127 <= as_i8(recommended) - as_i8(current) <= 127,
    ensures
        b == moved(current, recommended),
{
    let c: i16 = if current < 128 { current as i16 } else { current as i16 - 256 };
    let r: i16 = if recommended < 128 { recommended as i16 } else { recommended as i16 - 256 };
    let d = r - c;
    d > 3 || d < -3
}

/// Recommends the weight changes that observed failovers suggest, each
/// with the reason `Based on <n> observed failovers`.
pub fn recommendations(base: &HealthWeightsConfig, learned: &HealthWeightsConfig, failovers: usize) -> (v: Vec<WeightAdjustment>)
    requires
        failovers >= 3 ==> diffs_fit(*base, *learned),
    ensures
        v@.map_values(|a: WeightAdjustment| adjustment_view(a)) == recommendations_spec(*base, *learned, failovers as nat),
        forall|k: int| 0 <= k < v@.len() ==> (#[trigger] v@[k]).reason@ == "Based on "@ + dec(failovers as nat)
            + " observed failovers"@,
{
    let mut v: Vec<WeightAdjustment> = Vec::new();
    if failovers < 3 {
        assert(v@.map_values(|a: WeightAdjustment| adjustment_view(a)) =~= Seq::<(Seq<char>, u8, u8)>::empty());
        return v;
    }
    let ghost pairs = weight_pairs(*base, *learned);
    let names = ["rtt", "jitter", "loss", "throughput", "stability"];
    let cur = [base.rtt, base.jitter, base.loss, base.throughput, base.stability];
    let rec = [learned.rtt, learned.jitter, learned.loss, learned.throughput, learned.stability];
    proof {
        reveal_strlit("rtt");
        reveal_strlit("jitter");
        reveal_strlit("loss");
        reveal_strlit("throughput");
        reveal_strlit("stability");
    }
    let mut i: usize = 0;
    while i < 5
        invariant
            i <= 5,
            pairs == weight_pairs(*base, *learned),
            diffs_fit(*base, *learned),
            forall|j: int| 0 <= j < 5 ==> (#[trigger] names@[j])@ == pairs[j].0,
            forall|j: int| 0 <= j < 5 ==> #[trigger] cur@[j] == pairs[j].1,
            forall|j: int| 0 <= j < 5 ==> #[trigger] rec@[j] == pairs[j].2,
            v@.map_values(|a: WeightAdjustment| adjustment_view(a)) == pairs.take(i as int).filter(
                |p: (Seq<char>, u8, u8)| moved(p.1, p.2),
            ),
            forall|k: int| 0 <= k < v@.len() ==> (#[trigger] v@[k]).reason@ == "Based on "@ + dec(failovers as nat)
                + " observed failovers"@,
        decreases 5 - i,
    {
        assert(pairs.take(i + 1).drop_last() =~= pairs.take(i as int));
        assert(pairs.take(i + 1).last() == pairs[i as int]);
        assert(-127 <= as_i8(pairs[i as int].2) - as_i8(pairs[i as int].1) <= 127);
        let ghost old_v = v@.map_values(|a: WeightAdjustment| adjustment_view(a));
        if moved_exec(cur[i], rec[i]) {
            let mut reason = lit("Based on ");
            push_dec(&mut reason, failovers as u64);
            push_str(&mut reason, " observed failovers");
            v.push(
                WeightAdjustment {
                    metric: lit(names[i]),
                    current_weight: cur[i],
                    recommended_weight: rec[i],
                    reason,
                },
            );
            assert(v@.map_values(|a: WeightAdjustment| adjustment_view(a)) =~= old_v.push(pairs[i as int]));
        }
        proof {
            pairs.take(i as int).lemma_filter_push(pairs[i as int], |p: (Seq<char>, u8, u8)| moved(p.1, p.2));
            assert(pairs.take(i as int).push(pairs[i as int]) =~= pairs.take(i + 1));
        }
        i = i + 1;
    }
    assert(pairs.take(5) =~= pairs);
    v
}

// ---------------------------------------------------------------------------
// Sample windows
// ---------------------------------------------------------------------------

/// Keeps the latest samples of each interface, at most `max_samples`
/// each.
pub struct AnalyticsTracker<S> {
    max_samples: usize,
    samples: Vec<(String, VecDeque<S>)>,
}

impl<S> AnalyticsTracker<S> {
    pub closed spec fn wf(&self) -> bool {
        unique_keys(self.samples@)
    }

    /// The most samples kept per interface.
    pub closed spec fn capacity(&self) -> usize {
        self.max_samples
    }

    /// The samples kept per interface, oldest first.
    pub closed spec fn windows(&self) -> Map<Seq<char>, Seq<S>> {
        as_map(self.samples@).map_values(|q: VecDeque<S>| q@)
    }

    /// A tracker that keeps `max_samples` samples per interface.
    pub fn new(max_samples: usize) -> (t: Self)
        ensures
            t.wf(),
            t.capacity() == max_samples,
            t.windows() == Map::<Seq<char>, Seq<S>>::empty(),
    {
        let t = AnalyticsTracker { max_samples, samples: Vec::new() };
        assert(t.windows() =~= Map::<Seq<char>, Seq<S>>::empty());
        t
    }

    /// Adds a sample to an interface's window, dropping its oldest beyond
    /// the capacity.
    pub fn add_sample(&mut self, interface: &str, sample: S)
        requires
            old(self).wf(),
        ensures
            final(self).wf(),
            final(self).capacity() == old(self).capacity(),
            final(self).windows() == old(self).windows().insert(
                interface@,
                keep_last(
                    (if old(self).windows().dom().contains(interface@) {
                        old(self).windows()[interface@]
                    } else {
                        Seq::empty()
                    }).push(sample),
                    old(self).capacity() as nat,
                ),
            ),
    {
        let ghost before = as_map(self.samples@);
        let mut q = match take_key(&mut self.samples, interface) {
            Some(q) => q,
            None => VecDeque::new(),
        };
        let ghost old_q = q@;
        push_bounded(&mut q, sample, self.max_samples);
        let ghost new_q = q@;
        crate::assoc::set_key(&mut self.samples, interface, q);
        proof {
            assert(as_map(self.samples@) == before.remove(interface@).insert(interface@, as_map(self.samples@)[interface@]));
            assert(self.windows() =~= old(self).windows().insert(interface@, new_q));
        }
    }

    /// The samples kept for an interface, oldest first.
    pub fn samples_of(&self, interface: &str) -> (q: Option<&VecDeque<S>>)
        requires
            self.wf(),
        ensures
            match q {
                Some(q) => self.windows().dom().contains(interface@) && q@ == self.windows()[interface@],
                None => !self.windows().dom().contains(interface@),
            },
    {
        get_key(&self.samples, interface)
    }

    /// The interfaces with samples.
    pub fn interfaces(&self) -> (names: Vec<String>)
        requires
            self.wf(),
        ensures
            forall|k: Seq<char>| #[trigger] crate::argv::views(names@).contains(k) <==> self.windows().dom().contains(k),
    {
        let mut names: Vec<String> = Vec::new();
        let mut i: usize = 0;
        while i < self.samples.len()
            invariant
                i <= self.samples@.len(),
                crate::argv::views(names@) == crate::assoc::keys(self.samples@).take(i as int),
            decreases self.samples.len() - i,
        {
            crate::argv::push_clone(&mut names, &self.samples[i].0);
            i = i + 1;
            assert(crate::argv::views(names@) =~= crate::assoc::keys(self.samples@).take(i as int));
        }
        proof {
            assert(crate::assoc::keys(self.samples@).take(i as int) =~= crate::assoc::keys(self.samples@));
            assert forall|k: Seq<char>| #[trigger] crate::argv::views(names@).contains(k) <==> self.windows().dom().contains(k) by {
                crate::assoc::lemma_as_map_dom(self.samples@, k);
                if crate::argv::views(names@).contains(k) {
                    let p = choose|p: int| 0 <= p < names@.len() && crate::argv::views(names@)[p] == k;
                    assert(self.samples@[p].0@ == k);
                }
                if self.windows().dom().contains(k) {
                    let p = choose|p: int| 0 <= p < self.samples@.len() && self.samples@[p].0@ == k;
                    assert(crate::argv::views(names@)[p] == k);
                }
            }
        }
        names
    }
}

} // verus!
