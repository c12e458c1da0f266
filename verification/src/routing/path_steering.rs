//! Dynamic path steering.
//!
//! Watches interface health scores and decides which interface carries the
//! default traffic class: an initial assignment to the best viable
//! interface, failover after three consecutive degraded readings of the
//! active one, and a switch to a better path only when it beats the active
//! one by more than the hysteresis margin, never within the cooldown after
//! the last change.
//!
//! Scores are fixed-point numbers with 1000 units per health point (a
//! score of 85.0 is 85000); times are milliseconds of a monotonic clock.

use vstd::prelude::*;

use crate::text::str_eq;

verus! {

/// Configuration of the steering engine.
#[derive(Debug, Clone, Copy)]
pub struct SteeringConfig {
    /// Minimum score for an interface to be viable.
    pub min_viable_score: i64,
    /// Minimum score advantage before switching paths.
    pub switch_hysteresis: i64,
    /// Minimum time between steering actions (milliseconds).
    pub steering_cooldown_ms: u64,
    /// Active-path score below which bufferbloat is suspected.
    pub bufferbloat_threshold: i64,
    /// Whether automatic failover is enabled.
    pub auto_failover: bool,
}

impl Default for SteeringConfig {
    /// Viable from 30 points, 15 points of hysteresis, 30 s of cooldown,
    /// bufferbloat below 20 points, automatic failover on.
    fn default() -> (c: Self)
        ensures
            c.min_viable_score == 30000,
            c.switch_hysteresis == 15000,
            c.steering_cooldown_ms == 30000,
            c.bufferbloat_threshold == 20000,
            c.auto_failover,
    {
        SteeringConfig {
            min_viable_score: 30000,
            switch_hysteresis: 15000,
            steering_cooldown_ms: 30000,
            bufferbloat_threshold: 20000,
            auto_failover: true,
        }
    }
}

/// Why a steering decision was made.
#[derive(Debug, Clone, Copy, PartialEq, Eq, Structural)]
pub enum SteeringReason {
    /// First assignment.
    Initial,
    /// The active interface degraded below the viability threshold.
    HealthDegraded,
    /// A better path became available.
    BetterPath,
    /// Bufferbloat suspected on the active path.
    Bufferbloat,
    /// The active interface went down.
    InterfaceDown,
    /// A switch was deferred by the cooldown.
    CooldownActive,
    /// No interface is viable.
    NoViablePath,
}

/// A steering decision for a traffic class.
#[derive(Debug, Clone)]
pub struct SteeringDecision {
    /// Interface chosen for the traffic class.
    pub active_interface: String,
    /// Score of that interface when it was chosen.
    pub active_score: i64,
    /// Whether the decision is a forced failover.
    pub is_failover: bool,
    /// Why the decision was made.
    pub reason: SteeringReason,
}

impl SteeringDecision {
    /// An identical copy of the decision.
    pub fn duplicate(&self) -> (r: Self)
        ensures
            r == *self,
    {
        SteeringDecision {
            active_interface: self.active_interface.clone(),
            active_score: self.active_score,
            is_failover: self.is_failover,
            reason: self.reason,
        }
    }
}

/// Path assignment of the traffic class.
#[derive(Debug, Clone)]
struct PathState {
    active_interface: String,
    active_score: i64,
    last_steering_ms: u64,
    consecutive_degraded: u32,
}

/// The traffic class the engine steers.
pub open spec fn default_class() -> Seq<char> {
    "default"@
}

/// Abstract decision.
pub struct DecisionView {
    pub interface: Seq<char>,
    pub score: int,
    pub is_failover: bool,
    pub reason: SteeringReason,
}

/// Abstract path assignment.
pub struct PathView {
    pub interface: Seq<char>,
    pub score: int,
    pub last_ms: nat,
    pub degraded: nat,
}

/// Abstract state of the engine: the latest score of each interface, in
/// the order interfaces were first seen, the path assignment, and the
/// latest decision.
pub struct SteererView {
    pub scores: Seq<(Seq<char>, int)>,
    pub path: Option<PathView>,
    pub decision: Option<DecisionView>,
}

pub open spec fn decision_view(d: SteeringDecision) -> DecisionView {
    DecisionView {
        interface: d.active_interface@,
        score: d.active_score as int,
        is_failover: d.is_failover,
        reason: d.reason,
    }
}

spec fn path_view(p: PathState) -> PathView {
    PathView {
        interface: p.active_interface@,
        score: p.active_score as int,
        last_ms: p.last_steering_ms as nat,
        degraded: p.consecutive_degraded as nat,
    }
}

/// The scores with `k` set to `v`: updated in place if `k` is present,
/// appended otherwise.
pub open spec fn upsert(s: Seq<(Seq<char>, int)>, k: Seq<char>, v: int) -> Seq<(Seq<char>, int)> {
    if exists|i: int| 0 <= i < s.len() && s[i].0 == k {
        let i = choose|i: int| 0 <= i < s.len() && s[i].0 == k;
        s.update(i, (k, v))
    } else {
        s.push((k, v))
    }
}

/// No interface appears twice.
pub open spec fn unique_keys(s: Seq<(Seq<char>, int)>) -> bool {
    forall|i: int, j: int| 0 <= i < j < s.len() ==> s[i].0 != s[j].0
}

/// The best viable interface: the highest score at least `min`, the later
/// entry winning ties.
pub open spec fn best_of(s: Seq<(Seq<char>, int)>, min: int) -> Option<(Seq<char>, int)>
    decreases s.len(),
{
    if s.len() == 0 {
        None
    } else {
        let prev = best_of(s.drop_last(), min);
        let e = s.last();
        if e.1 >= min {
            match prev {
                None => Some(e),
                Some(p) => if e.1 >= p.1 { Some(e) } else { prev },
            }
        } else {
            prev
        }
    }
}

/// Whether a reason counts as a forced failover.
pub open spec fn failover_reason(r: SteeringReason) -> bool {
    r == SteeringReason::HealthDegraded || r == SteeringReason::InterfaceDown
        || r == SteeringReason::Bufferbloat
}

/// Steering to `(iface, score)` for `reason` at `now`: refused when
/// automatic failover is off (except for the initial assignment),
/// otherwise the path is reassigned and the decision recorded.
pub open spec fn steer_to(
    c: SteeringConfig,
    v: SteererView,
    iface: Seq<char>,
    score: int,
    reason: SteeringReason,
    now: nat,
) -> (SteererView, Option<DecisionView>) {
    if !c.auto_failover && reason != SteeringReason::Initial {
        (v, None)
    } else {
        let d = DecisionView { interface: iface, score, is_failover: failover_reason(reason), reason };
        (
            SteererView {
                scores: v.scores,
                path: Some(PathView { interface: iface, score, last_ms: now, degraded: 0 }),
                decision: Some(d),
            },
            Some(d),
        )
    }
}

/// The path assignment after interface `u` reported score `us`: the
/// active interface's recorded score follows its latest reading.
pub open spec fn refreshed(path: Option<PathView>, u: Seq<char>, us: int) -> Option<PathView> {
    match path {
        Some(p) => if p.interface == u { Some(PathView { score: us, ..p }) } else { path },
        None => None,
    }
}

/// One health update (interface `u` scored `us` at time `now`): the new
/// state of the engine and the decision it emits, if any. The active
/// interface's score is refreshed first, so comparisons use its current
/// score.
pub open spec fn on_update(c: SteeringConfig, v0: SteererView, u: Seq<char>, us: int, now: nat) -> (
    SteererView,
    Option<DecisionView>,
) {
    let v = SteererView { scores: upsert(v0.scores, u, us), path: refreshed(v0.path, u, us), decision: v0.decision };
    match best_of(v.scores, c.min_viable_score as int) {
        None => match v.path {
            Some(p) => (
                SteererView {
                    decision: Some(
                        DecisionView {
                            interface: p.interface,
                            score: p.score,
                            is_failover: false,
                            reason: SteeringReason::NoViablePath,
                        },
                    ),
                    ..v
                },
                None,
            ),
            None => (v, None),
        },
        Some((b, bs)) => match v.path {
            None => {
                let d = DecisionView {
                    interface: b,
                    score: bs,
                    is_failover: false,
                    reason: SteeringReason::Initial,
                };
                (
                    SteererView {
                        path: Some(PathView { interface: b, score: bs, last_ms: now, degraded: 0 }),
                        decision: Some(d),
                        ..v
                    },
                    Some(d),
                )
            },
            Some(p) => {
                let elapsed: int = if now >= p.last_ms { now - p.last_ms } else { 0 };
                if elapsed < c.steering_cooldown_ms {
                    (v, None)
                } else if u == p.interface && us < c.min_viable_score {
                    let deg = if p.degraded < u32::MAX { p.degraded + 1 } else { p.degraded };
                    let v2 = SteererView { path: Some(PathView { degraded: deg, ..p }), ..v };
                    if deg >= 3 && b != p.interface {
                        steer_to(c, v2, b, bs, SteeringReason::HealthDegraded, now)
                    } else {
                        (v2, None)
                    }
                } else {
                    let p2 = if u == p.interface { PathView { degraded: 0, ..p } } else { p };
                    let v2 = SteererView { path: Some(p2), ..v };
                    if b != p.interface && bs - p.score > c.switch_hysteresis {
                        steer_to(c, v2, b, bs, SteeringReason::BetterPath, now)
                    } else if p.score < c.bufferbloat_threshold && b != p.interface && bs - p.score
                        > c.switch_hysteresis {
                        steer_to(c, v2, b, bs, SteeringReason::Bufferbloat, now)
                    } else {
                        (v2, None)
                    }
                }
            },
        },
    }
}

/// Dynamic path steering engine for the default traffic class.
pub struct PathSteerer {
    config: SteeringConfig,
    path_state: Option<PathState>,
    health_scores: Vec<(String, i64)>,
    decision: Option<SteeringDecision>,
}

spec fn scores_view(s: Seq<(String, i64)>) -> Seq<(Seq<char>, int)> {
    s.map_values(|e: (String, i64)| (e.0@, e.1 as int))
}

impl PathSteerer {
    /// The abstract state of the engine.
    pub closed spec fn view(&self) -> SteererView {
        SteererView {
            scores: scores_view(self.health_scores@),
            path: match self.path_state {
                Some(p) => Some(path_view(p)),
                None => None,
            },
            decision: match self.decision {
                Some(d) => Some(decision_view(d)),
                None => None,
            },
        }
    }

    /// The engine's configuration.
    pub closed spec fn config(&self) -> SteeringConfig {
        self.config
    }

    /// Each interface has one score.
    pub closed spec fn wf(&self) -> bool {
        unique_keys(scores_view(self.health_scores@))
    }

    /// An engine with no scores, no assignment and no decision.
    pub fn new(config: SteeringConfig) -> (s: Self)
        ensures
            s.wf(),
            s.config() == config,
            s.view().scores.len() == 0,
            s.view().path is None,
            s.view().decision is None,
    {
        let s = PathSteerer {
            config,
            path_state: None,
            health_scores: Vec::new(),
            decision: None,
        };
        assert(scores_view(s.health_scores@) =~= Seq::<(Seq<char>, int)>::empty());
        s
    }

    /// Records the latest score of an interface.
    fn record_score(&mut self, iface: &str, score: i64)
        requires
            old(self).wf(),
        ensures
            final(self).wf(),
            scores_view(final(self).health_scores@) == upsert(
                scores_view(old(self).health_scores@),
                iface@,
                score as int,
            ),
            final(self).path_state == old(self).path_state,
            final(self).decision == old(self).decision,
            final(self).config == old(self).config,
    {
        let ghost s0 = scores_view(self.health_scores@);
        let mut i: usize = 0;
        while i < self.health_scores.len()
            invariant
                i <= self.health_scores@.len(),
                s0 == scores_view(self.health_scores@),
                s0 == scores_view(old(self).health_scores@),
                unique_keys(s0),
                self.path_state == old(self).path_state,
                self.decision == old(self).decision,
                self.config == old(self).config,
                forall|j: int| 0 <= j < i ==> s0[j].0 != iface@,
            decreases self.health_scores.len() - i,
        {
            if str_eq(self.health_scores[i].0.as_str(), iface) {
                proof {
                    assert(s0[i as int].0 == iface@);
                    let c = choose|j: int| 0 <= j < s0.len() && s0[j].0 == iface@;
                    assert(c == i) by {
                        if c != i {
                            assert(s0[c].0 == s0[i as int].0);
                        }
                    }
                }
                self.health_scores.set(i, (self.health_scores[i].0.clone(), score));
                assert(scores_view(self.health_scores@) =~= s0.update(i as int, (iface@, score as int)));
                return;
            }
            i = i + 1;
        }
        let ghost k = iface@;
        self.health_scores.push((String::from_str(iface), score));
        assert(scores_view(self.health_scores@) =~= s0.push((iface@, score as int)));
        proof {
            let s1 = scores_view(self.health_scores@);
            assert forall|a: int, b: int| 0 <= a < b < s1.len() implies s1[a].0 != s1[b].0 by {
                if b == s1.len() - 1 {
                    assert(s1[a] == s0[a]);
                }
            }
        }
    }

    /// The best viable interface and its score.
    fn find_best_interface(&self) -> (r: Option<(String, i64)>)
        ensures
            match r {
                Some((n, sc)) => best_of(scores_view(self.health_scores@), self.config.min_viable_score as int)
                    == Some((n@, sc as int)),
                None => best_of(scores_view(self.health_scores@), self.config.min_viable_score as int) is None,
            },
    {
        let min = self.config.min_viable_score;
        let mut best: Option<usize> = None;
        let mut i: usize = 0;
        while i < self.health_scores.len()
            invariant
                i <= self.health_scores@.len(),
                min == self.config.min_viable_score,
                match best {
                    Some(k) => k < i && best_of(scores_view(self.health_scores@.subrange(0, i as int)), min as int)
                        == Some(scores_view(self.health_scores@)[k as int]),
                    None => best_of(scores_view(self.health_scores@.subrange(0, i as int)), min as int) is None,
                },
            decreases self.health_scores.len() - i,
        {
            proof {
                let pre = scores_view(self.health_scores@.subrange(0, i as int));
                let next = scores_view(self.health_scores@.subrange(0, i + 1));
                assert(next.drop_last() =~= pre);
                assert(next.last() == scores_view(self.health_scores@)[i as int]);
            }
            let sc = self.health_scores[i].1;
            if sc >= min {
                match best {
                    None => {
                        best = Some(i);
                    },
                    Some(k) => {
                        if sc >= self.health_scores[k].1 {
                            best = Some(i);
                        }
                    },
                }
            }
            i = i + 1;
        }
        assert(self.health_scores@.subrange(0, self.health_scores@.len() as int) =~= self.health_scores@);
        match best {
            Some(k) => Some((self.health_scores[k].0.clone(), self.health_scores[k].1)),
            None => None,
        }
    }

    fn steer(&mut self, iface: String, score: i64, reason: SteeringReason, now_ms: u64) -> (r: Option<SteeringDecision>)
        ensures
            ({
                let (v2, d) = steer_to(old(self).config, old(self).view(), iface@, score as int, reason, now_ms as nat);
                &&& final(self).view() == v2
                &&& match r {
                    Some(x) => d == Some(decision_view(x)),
                    None => d is None,
                }
            }),
            final(self).config == old(self).config,
            final(self).health_scores == old(self).health_scores,
    {
        if !self.config.auto_failover && reason != SteeringReason::Initial {
            return None;
        }
        let is_failover = reason == SteeringReason::HealthDegraded || reason == SteeringReason::InterfaceDown
            || reason == SteeringReason::Bufferbloat;
        let decision = SteeringDecision {
            active_interface: iface.clone(),
            active_score: score,
            is_failover,
            reason,
        };
        self.path_state = Some(PathState {
            active_interface: iface,
            active_score: score,
            last_steering_ms: now_ms,
            consecutive_degraded: 0,
        });
        self.decision = Some(decision.duplicate());
        Some(decision)
    }

    /// Processes a health update for `interface` (its smoothed score) at
    /// time `now_ms`, and returns the steering decision it causes, if any.
    pub fn on_health_update(&mut self, interface: &str, score: i64, now_ms: u64) -> (r: Option<SteeringDecision>)
        requires
            old(self).wf(),
        ensures
            final(self).wf(),
            final(self).config() == old(self).config(),
            ({
                let (v2, d) = on_update(old(self).config(), old(self).view(), interface@, score as int, now_ms as nat);
                &&& final(self).view() == v2
                &&& match r {
                    Some(x) => d == Some(decision_view(x)),
                    None => d is None,
                }
            }),
    {
        self.record_score(interface, score);
        match self.path_state.take() {
            Some(mut p) => {
                if str_eq(interface, p.active_interface.as_str()) {
                    p.active_score = score;
                }
                self.path_state = Some(p);
            },
            None => {},
        }
        let best = self.find_best_interface();
        let ghost v = self.view();
        match best {
            None => {
                match &self.path_state {
                    Some(p) => {
                        let d = SteeringDecision {
                            active_interface: p.active_interface.clone(),
                            active_score: p.active_score,
                            is_failover: false,
                            reason: SteeringReason::NoViablePath,
                        };
                        self.decision = Some(d);
                    },
                    None => {},
                }
                None
            },
            Some((b, bs)) => {
                match self.path_state.take() {
                    None => {
                        let d = SteeringDecision {
                            active_interface: b.clone(),
                            active_score: bs,
                            is_failover: false,
                            reason: SteeringReason::Initial,
                        };
                        self.path_state = Some(PathState {
                            active_interface: b,
                            active_score: bs,
                            last_steering_ms: now_ms,
                            consecutive_degraded: 0,
                        });
                        self.decision = Some(d.duplicate());
                        Some(d)
                    },
                    Some(mut p) => {
                        let elapsed: u64 = if now_ms >= p.last_steering_ms {
                            now_ms - p.last_steering_ms
                        } else {
                            0
                        };
                        if elapsed < self.config.steering_cooldown_ms {
                            self.path_state = Some(p);
                            return None;
                        }
                        let is_current = str_eq(interface, p.active_interface.as_str());
                        if is_current && score < self.config.min_viable_score {
                            if p.consecutive_degraded < u32::MAX {
                                p.consecutive_degraded = p.consecutive_degraded + 1;
                            }
                            let deg = p.consecutive_degraded;
                            let best_is_current = str_eq(b.as_str(), p.active_interface.as_str());
                            self.path_state = Some(p);
                            if deg >= 3 && !best_is_current {
                                return self.steer(b, bs, SteeringReason::HealthDegraded, now_ms);
                            }
                            return None;
                        }
                        if is_current {
                            p.consecutive_degraded = 0;
                        }
                        let best_is_current = str_eq(b.as_str(), p.active_interface.as_str());
                        let cur_score = p.active_score;
                        self.path_state = Some(p);
                        if !best_is_current && bs as i128 - cur_score as i128 > self.config.switch_hysteresis as i128 {
                            return self.steer(b, bs, SteeringReason::BetterPath, now_ms);
                        }
                        if cur_score < self.config.bufferbloat_threshold && !best_is_current && bs as i128
                            - cur_score as i128 > self.config.switch_hysteresis as i128 {
                            return self.steer(b, bs, SteeringReason::Bufferbloat, now_ms);
                        }
                        None
                    },
                }
            },
        }
    }

    /// The current decision for a traffic class (only the default class is
    /// steered).
    pub fn get_decision(&self, traffic_class: &str) -> (r: Option<&SteeringDecision>)
        ensures
            match r {
                Some(d) => traffic_class@ == default_class() && self.view().decision == Some(decision_view(*d)),
                None => traffic_class@ != default_class() || self.view().decision is None,
            },
    {
        if str_eq(traffic_class, "default") {
            match &self.decision {
                Some(d) => Some(d),
                None => None,
            }
        } else {
            None
        }
    }

    /// Whether the default traffic class is assigned to an interface.
    pub fn is_assigned(&self) -> (b: bool)
        ensures
            b == self.view().path is Some,
    {
        self.path_state.is_some()
    }

    /// All current decisions, by traffic class.
    pub fn all_decisions(&self) -> (r: Vec<(String, SteeringDecision)>)
        ensures
            match self.view().decision {
                Some(d) => r@.len() == 1 && r@[0].0@ == default_class() && decision_view(r@[0].1) == d,
                None => r@.len() == 0,
            },
    {
        let mut r: Vec<(String, SteeringDecision)> = Vec::new();
        match &self.decision {
            Some(d) => r.push((String::from_str("default"), d.duplicate())),
            None => {},
        }
        r
    }

    /// Clears the path assignment and decisions (e.g. on a configuration
    /// change); the latest scores are kept.
    pub fn reset(&mut self)
        requires
            old(self).wf(),
        ensures
            final(self).wf(),
            final(self).config() == old(self).config(),
            final(self).view().scores == old(self).view().scores,
            final(self).view().path is None,
            final(self).view().decision is None,
    {
        self.path_state = None;
        self.decision = None;
    }
}

// ---------------------------------------------------------------------------
// Laws
// ---------------------------------------------------------------------------

/// The best viable interface is viable, present in the scores with that
/// score, and scores at least as high as every viable interface.
pub proof fn lemma_best_is_max(s: Seq<(Seq<char>, int)>, min: int)
    ensures
        match best_of(s, min) {
            Some((b, bs)) => {
                &&& bs >= min
                &&& exists|i: int| 0 <= i < s.len() && s[i] == (b, bs)
                &&& forall|i: int| 0 <= i < s.len() && s[i].1 >= min ==> s[i].1 <= bs
            },
            None => forall|i: int| 0 <= i < s.len() ==> s[i].1 < min,
        },
    decreases s.len(),
{
    if s.len() > 0 {
        let t = s.drop_last();
        lemma_best_is_max(t, min);
        assert forall|i: int| 0 <= i < t.len() implies t[i] == s[i] by {}
        match best_of(t, min) {
            Some((pb, pbs)) => {
                let w = choose|i: int| 0 <= i < t.len() && t[i] == (pb, pbs);
                assert(s[w] == (pb, pbs));
            },
            None => {},
        }
        assert(s[s.len() - 1] == s.last());
    }
}

/// Every decision the engine emits assigns the traffic class to a viable
/// interface with the highest current score, and leaves the path assigned
/// to that interface with the steering time set to now.
pub proof fn lemma_decisions_pick_best(c: SteeringConfig, v: SteererView, u: Seq<char>, us: int, now: nat)
    ensures
        ({
            let (v2, d) = on_update(c, v, u, us, now);
            d matches Some(x) ==> {
                &&& x.score >= c.min_viable_score
                &&& exists|i: int| 0 <= i < v2.scores.len() && v2.scores[i] == (x.interface, x.score)
                &&& forall|i: int| 0 <= i < v2.scores.len() && v2.scores[i].1 >= c.min_viable_score
                    ==> v2.scores[i].1 <= x.score
                &&& v2.path == Some(PathView { interface: x.interface, score: x.score, last_ms: now, degraded: 0 })
                &&& v2.decision == Some(x)
            }
        }),
{
    let s = upsert(v.scores, u, us);
    lemma_best_is_max(s, c.min_viable_score as int);
    let (v2, d) = on_update(c, v, u, us, now);
    assert(v2.scores == s);
    if let Some(x) = d {
        let (b, bs) = best_of(s, c.min_viable_score as int)->Some_0;
        assert(x.interface == b && x.score == bs);
        let w = choose|i: int| 0 <= i < s.len() && s[i] == (b, bs);
        assert(v2.scores[w] == (x.interface, x.score));
    }
}

/// Within the cooldown after the last steering action, an update changes
/// nothing but the recorded scores (the interface's, and the active path's
/// when it is the active interface) and emits no decision.
pub proof fn lemma_cooldown_holds(c: SteeringConfig, v: SteererView, u: Seq<char>, us: int, now: nat)
    requires
        v.path matches Some(p) && now >= p.last_ms && now - p.last_ms < c.steering_cooldown_ms,
        best_of(upsert(v.scores, u, us), c.min_viable_score as int) is Some,
    ensures
        ({
            let (v2, d) = on_update(c, v, u, us, now);
            &&& d is None
            &&& v2.path == refreshed(v.path, u, us)
            &&& v2.decision == v.decision
            &&& v2.scores == upsert(v.scores, u, us)
        }),
{
}

/// Once a path is assigned, it is only moved to another interface when
/// that interface beats the active one's current score by more than the
/// hysteresis margin, or when the active interface has had three
/// consecutive degraded readings; and with automatic failover off it is
/// never moved.
pub proof fn lemma_switch_needs_reason(c: SteeringConfig, v: SteererView, u: Seq<char>, us: int, now: nat)
    requires
        v.path is Some,
    ensures
        ({
            let (v2, d) = on_update(c, v, u, us, now);
            let p = refreshed(v.path, u, us)->Some_0;
            d matches Some(x) ==> {
                &&& c.auto_failover
                &&& x.interface != p.interface
                &&& (x.score - p.score > c.switch_hysteresis || (x.reason == SteeringReason::HealthDegraded
                    && u == p.interface && us < c.min_viable_score && p.degraded + 1 >= 3))
            }
        }),
{
}

/// With no viable interface, no decision is emitted and the assignment is
/// kept; a previously assigned path is reported as having no viable path.
pub proof fn lemma_no_viable_path(c: SteeringConfig, v: SteererView, u: Seq<char>, us: int, now: nat)
    requires
        best_of(upsert(v.scores, u, us), c.min_viable_score as int) is None,
    ensures
        ({
            let (v2, d) = on_update(c, v, u, us, now);
            &&& d is None
            &&& v2.path == refreshed(v.path, u, us)
            &&& v.path matches Some(p) ==> v2.decision matches Some(x) && x.reason
                == SteeringReason::NoViablePath && x.interface == p.interface
        }),
{
}

proof fn lemma_upsert_has(s: Seq<(Seq<char>, int)>, k: Seq<char>, x: int)
    requires
        unique_keys(s),
    ensures
        exists|i: int| 0 <= i < upsert(s, k, x).len() && upsert(s, k, x)[i] == (k, x),
{
    let t = upsert(s, k, x);
    if exists|i: int| 0 <= i < s.len() && s[i].0 == k {
        let i = choose|i: int| 0 <= i < s.len() && s[i].0 == k;
        assert forall|j: int| 0 <= j < s.len() implies t[j] == (if s[j].0 == k { (k, x) } else { s[j] }) by {}
        assert(t[i] == (k, x));
    } else {
        assert(t[s.len() as int] == (k, x));
    }
}

/// A degradation failover is only emitted on a degraded reading of the
/// active interface that makes at least three in a row.
proof fn lemma_degraded_failover_source(c: SteeringConfig, v: SteererView, u: Seq<char>, us: int, now: nat)
    ensures
        ({
            let (v2, d) = on_update(c, v, u, us, now);
            (d matches Some(x) && x.reason == SteeringReason::HealthDegraded) ==> (v.path matches Some(p) && p.interface
                == u && us < c.min_viable_score && p.degraded + 1 >= 3)
        }),
{
}

/// The degraded count grows by at most one per update, and a newly
/// assigned path starts from none.
proof fn lemma_degraded_step(c: SteeringConfig, v: SteererView, u: Seq<char>, us: int, now: nat)
    ensures
        ({
            let (v2, d) = on_update(c, v, u, us, now);
            v2.path matches Some(q) ==> q.degraded <= match v.path {
                Some(p) => p.degraded + 1,
                None => 0,
            }
        }),
{
}

/// A recovered reading clears the degraded count: when the active
/// interface reports a viable score outside the cooldown, the path
/// afterwards (the same one, or the one it switched to) counts no degraded
/// readings.
pub proof fn lemma_recovery_resets_degraded(c: SteeringConfig, v: SteererView, u: Seq<char>, us: int, now: nat)
    requires
        unique_keys(v.scores),
        v.path matches Some(p) && p.interface == u && (if now >= p.last_ms {
            now - p.last_ms
        } else {
            0
        }) >= c.steering_cooldown_ms,
        us >= c.min_viable_score,
    ensures
        on_update(c, v, u, us, now).0.path matches Some(q) && q.degraded == 0,
{
    let s = upsert(v.scores, u, us);
    lemma_upsert_has(v.scores, u, us);
    lemma_best_is_max(s, c.min_viable_score as int);
    assert(best_of(s, c.min_viable_score as int) is Some);
}

/// Failover for degradation takes three degraded readings in a row: after
/// the active interface recovers (a viable reading outside the cooldown),
/// neither of the next two updates, whatever they report, fails over for
/// degradation.
pub proof fn lemma_recovery_delays_failover(
    c: SteeringConfig,
    v: SteererView,
    u: Seq<char>,
    us: int,
    now: nat,
    u1: Seq<char>,
    us1: int,
    now1: nat,
    u2: Seq<char>,
    us2: int,
    now2: nat,
)
    requires
        unique_keys(v.scores),
        v.path matches Some(p) && p.interface == u && (if now >= p.last_ms {
            now - p.last_ms
        } else {
            0
        }) >= c.steering_cooldown_ms,
        us >= c.min_viable_score,
    ensures
        ({
            let v1 = on_update(c, v, u, us, now).0;
            let (v2, d1) = on_update(c, v1, u1, us1, now1);
            let d2 = on_update(c, v2, u2, us2, now2).1;
            &&& !(d1 matches Some(x) && x.reason == SteeringReason::HealthDegraded)
            &&& !(d2 matches Some(x) && x.reason == SteeringReason::HealthDegraded)
        }),
{
    lemma_recovery_resets_degraded(c, v, u, us, now);
    let v1 = on_update(c, v, u, us, now).0;
    lemma_degraded_failover_source(c, v1, u1, us1, now1);
    lemma_degraded_step(c, v1, u1, us1, now1);
    let v2 = on_update(c, v1, u1, us1, now1).0;
    lemma_degraded_failover_source(c, v2, u2, us2, now2);
}

} // verus!
