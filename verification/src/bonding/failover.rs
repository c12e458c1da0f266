//! The failover engine: counts consecutive bad health readings per
//! interface and announces bond failovers, at most one per bond within the
//! cooldown.
//!
//! Scores are fixed-point numbers with 1000 units per health point;
//! timestamps are milliseconds since the Unix epoch.

use vstd::prelude::*;

use crate::argv::{lit, push_clone, views};
use crate::assoc::{as_map, find_key, remove_key, set_key, unique_keys};
use crate::bonding::BondState;

verus! {

/// Failover engine settings.
#[derive(Debug, Clone, Copy)]
pub struct FailoverConfig {
    /// Interval between periodic evaluations, in milliseconds.
    pub evaluation_interval_ms: u64,
    /// Score below which a reading counts as bad.
    pub min_viable_score: i64,
    /// Time after a failover during which the bond is left alone, in
    /// seconds.
    pub failover_cooldown_secs: u64,
    /// Consecutive bad readings after which an interface counts as
    /// degraded.
    pub bad_reading_threshold: u32,
}

impl Default for FailoverConfig {
    fn default() -> (c: Self)
        ensures
            c.evaluation_interval_ms == 3000,
            c.min_viable_score == 20_000,
            c.failover_cooldown_secs == 30,
            c.bad_reading_threshold == 3,
    {
        FailoverConfig {
            evaluation_interval_ms: 3000,
            min_viable_score: 20_000,
            failover_cooldown_secs: 30,
            bad_reading_threshold: 3,
        }
    }
}

/// A failover to announce.
#[derive(Debug)]
pub struct FailoverNotice {
    pub bond: String,
    pub previous_active: Vec<String>,
    pub new_active: Vec<String>,
    pub reason: String,
}

/// A notice as (bond, previous active members, new active members).
pub open spec fn notice_view(n: FailoverNotice) -> (Seq<char>, Seq<Seq<char>>, Seq<Seq<char>>) {
    (n.bond@, views(n.previous_active@), views(n.new_active@))
}

/// `a / b` rounded toward zero, for `b > 0`.
pub open spec fn div_toward_zero(a: int, b: int) -> int {
    if a >= 0 { a / b } else { -((-a) / b) }
}

/// Whether a failover at `last` is still within the cooldown at `now`:
/// fewer whole seconds have passed than the cooldown (the cooldown read
/// as a signed number).
pub open spec fn in_cooldown(now: int, last: int, cooldown_secs: u64) -> bool {
    div_toward_zero(now - last, 1000) < (cooldown_secs as i64) as int
}

/// One evaluation pass over `bonds` at time `now`, given the last failover
/// time of each bond: a bond outside its cooldown that is in failover is
/// announced (its standby members as the previous active ones) and its
/// failover time becomes `now`.
pub open spec fn evaluate(
    bonds: Seq<BondState>,
    last: Map<Seq<char>, int>,
    now: int,
    cooldown_secs: u64,
) -> (Seq<(Seq<char>, Seq<Seq<char>>, Seq<Seq<char>>)>, Map<Seq<char>, int>)
    decreases bonds.len(),
{
    if bonds.len() == 0 {
        (Seq::empty(), last)
    } else {
        let (notices, last1) = evaluate(bonds.drop_last(), last, now, cooldown_secs);
        let b = bonds.last();
        let cooling = last1.dom().contains(b.name@) && in_cooldown(now, last1[b.name@], cooldown_secs);
        if !cooling && b.failover_active {
            (
                notices.push((b.name@, views(b.standby_members@), views(b.active_members@))),
                last1.insert(b.name@, now),
            )
        } else {
            (notices, last1)
        }
    }
}

fn copy_names(v: &Vec<String>) -> (c: Vec<String>)
    ensures
        views(c@) == views(v@),
{
    let mut c: Vec<String> = Vec::new();
    let mut i: usize = 0;
    while i < v.len()
        invariant
            i <= v@.len(),
            views(c@) == views(v@).take(i as int),
        decreases v.len() - i,
    {
        push_clone(&mut c, &v[i]);
        i = i + 1;
        assert(views(c@) =~= views(v@).take(i as int));
    }
    assert(views(v@).take(v@.len() as int) =~= views(v@));
    c
}

/// Tracks bad readings and failovers.
pub struct FailoverEngine {
    config: FailoverConfig,
    /// Consecutive bad readings per interface.
    bad_readings: Vec<(String, u32)>,
    /// Last failover time per bond.
    last_failover: Vec<(String, i64)>,
}

impl FailoverEngine {
    pub closed spec fn wf(&self) -> bool {
        unique_keys(self.bad_readings@) && unique_keys(self.last_failover@)
    }

    /// The settings.
    pub closed spec fn config_spec(&self) -> FailoverConfig {
        self.config
    }

    /// Consecutive bad readings per interface (interfaces with none are
    /// absent).
    pub closed spec fn bad_readings_map(&self) -> Map<Seq<char>, u32> {
        as_map(self.bad_readings@)
    }

    /// Last failover time per bond.
    pub closed spec fn last_failover_map(&self) -> Map<Seq<char>, int> {
        as_map(self.last_failover@).map_values(|t: i64| t as int)
    }

    /// An engine with no readings and no failovers.
    pub fn new(config: FailoverConfig) -> (e: Self)
        ensures
            e.wf(),
            e.config_spec() == config,
            e.bad_readings_map() == Map::<Seq<char>, u32>::empty(),
            e.last_failover_map() == Map::<Seq<char>, int>::empty(),
    {
        let e = FailoverEngine { config, bad_readings: Vec::new(), last_failover: Vec::new() };
        assert(e.last_failover_map() =~= Map::<Seq<char>, int>::empty());
        e
    }

    /// The settings.
    pub fn config(&self) -> (c: FailoverConfig)
        ensures
            c == self.config_spec(),
    {
        self.config
    }

    /// Consecutive bad readings of an interface.
    pub fn bad_reading_count(&self, interface: &str) -> (n: u32)
        requires
            self.wf(),
        ensures
            n == if self.bad_readings_map().dom().contains(interface@) {
                self.bad_readings_map()[interface@]
            } else {
                0
            },
    {
        match find_key(&self.bad_readings, interface) {
            Some(i) => {
                proof {
                    crate::assoc::lemma_as_map_index(self.bad_readings@, i as int);
                }
                self.bad_readings[i].1
            },
            None => 0,
        }
    }

    /// Records one health reading: a bad one (below the viable score) adds
    /// to the interface's count, a good one clears it. Returns whether the
    /// interface has now reached the bad reading threshold.
    pub fn record_reading(&mut self, interface: &str, score: i64) -> (degraded: bool)
        requires
            old(self).wf(),
            score < old(self).config_spec().min_viable_score && old(self).bad_readings_map().dom().contains(interface@)
                ==> old(self).bad_readings_map()[interface@] < u32::MAX,
        ensures
            final(self).wf(),
            final(self).config_spec() == old(self).config_spec(),
            final(self).last_failover_map() == old(self).last_failover_map(),
            final(self).bad_readings_map() == if score < old(self).config_spec().min_viable_score {
                old(self).bad_readings_map().insert(
                    interface@,
                    (if old(self).bad_readings_map().dom().contains(interface@) {
                        old(self).bad_readings_map()[interface@] + 1
                    } else {
                        1
                    }) as u32,
                )
            } else {
                old(self).bad_readings_map().remove(interface@)
            },
            degraded == (final(self).bad_readings_map().dom().contains(interface@)
                && final(self).bad_readings_map()[interface@] >= old(self).config_spec().bad_reading_threshold),
    {
        if score < self.config.min_viable_score {
            let count = self.bad_reading_count(interface);
            let next = count + 1;
            set_key(&mut self.bad_readings, interface, next);
            next >= self.config.bad_reading_threshold
        } else {
            remove_key(&mut self.bad_readings, interface);
            false
        }
    }

    /// Evaluates every bond at time `now_ms` and returns the failovers to
    /// announce, in bond order.
    pub fn evaluate_failover(&mut self, bonds: &Vec<BondState>, now_ms: i64) -> (notices: Vec<FailoverNotice>)
        requires
            old(self).wf(),
        ensures
            final(self).wf(),
            final(self).config_spec() == old(self).config_spec(),
            final(self).bad_readings_map() == old(self).bad_readings_map(),
            (notices@.map_values(|n: FailoverNotice| notice_view(n)), final(self).last_failover_map()) == evaluate(
                bonds@,
                old(self).last_failover_map(),
                now_ms as int,
                old(self).config_spec().failover_cooldown_secs,
            ),
            forall|i: int| 0 <= i < notices@.len() ==> (#[trigger] notices@[i]).reason@ == "health degradation"@,
    {
        let mut notices: Vec<FailoverNotice> = Vec::new();
        let cooldown = self.config.failover_cooldown_secs as i64;
        let ghost start = self.last_failover_map();
        let mut i: usize = 0;
        while i < bonds.len()
            invariant
                i <= bonds@.len(),
                self.wf(),
                self.config_spec() == old(self).config_spec(),
                self.bad_readings_map() == old(self).bad_readings_map(),
                start == old(self).last_failover_map(),
                cooldown == self.config.failover_cooldown_secs as i64,
                (notices@.map_values(|n: FailoverNotice| notice_view(n)), self.last_failover_map()) == evaluate(
                    bonds@.take(i as int),
                    start,
                    now_ms as int,
                    self.config.failover_cooldown_secs,
                ),
                forall|j: int| 0 <= j < notices@.len() ==> (#[trigger] notices@[j]).reason@ == "health degradation"@,
            decreases bonds.len() - i,
        {
            assert(bonds@.take(i + 1).drop_last() =~= bonds@.take(i as int));
            assert(bonds@.take(i + 1).last() == bonds@[i as int]);
            let b = &bonds[i];
            let cooling = match find_key(&self.last_failover, b.name.as_str()) {
                Some(k) => {
                    proof {
                        crate::assoc::lemma_as_map_index(self.last_failover@, k as int);
                    }
                    let d: i128 = now_ms as i128 - self.last_failover[k].1 as i128;
                    let secs: i128 = if d >= 0 { d / 1000 } else { -((-d) / 1000) };
                    secs < cooldown as i128
                },
                None => false,
            };
            if !cooling && b.failover_active {
                let ghost old_n = notices@.map_values(|n: FailoverNotice| notice_view(n));
                let ghost old_map = as_map(self.last_failover@);
                notices.push(
                    FailoverNotice {
                        bond: b.name.clone(),
                        previous_active: copy_names(&b.standby_members),
                        new_active: copy_names(&b.active_members),
                        reason: lit("health degradation"),
                    },
                );
                assert(notices@.map_values(|n: FailoverNotice| notice_view(n)) =~= old_n.push(
                    (b.name@, views(b.standby_members@), views(b.active_members@)),
                ));
                set_key(&mut self.last_failover, b.name.as_str(), now_ms);
                assert(self.last_failover_map() =~= old_map.map_values(|t: i64| t as int).insert(
                    b.name@,
                    now_ms as int,
                ));
            }
            i = i + 1;
        }
        assert(bonds@.take(bonds@.len() as int) =~= bonds@);
        notices
    }

    /// Records a health reading and evaluates every bond; returns the
    /// failovers to announce.
    pub fn process_health_update(
        &mut self,
        interface: &str,
        score: i64,
        bonds: &Vec<BondState>,
        now_ms: i64,
    ) -> (notices: Vec<FailoverNotice>)
        requires
            old(self).wf(),
            score < old(self).config_spec().min_viable_score && old(self).bad_readings_map().dom().contains(interface@)
                ==> old(self).bad_readings_map()[interface@] < u32::MAX,
        ensures
            final(self).wf(),
            final(self).config_spec() == old(self).config_spec(),
            final(self).bad_readings_map() == if score < old(self).config_spec().min_viable_score {
                old(self).bad_readings_map().insert(
                    interface@,
                    (if old(self).bad_readings_map().dom().contains(interface@) {
                        old(self).bad_readings_map()[interface@] + 1
                    } else {
                        1
                    }) as u32,
                )
            } else {
                old(self).bad_readings_map().remove(interface@)
            },
            (notices@.map_values(|n: FailoverNotice| notice_view(n)), final(self).last_failover_map()) == evaluate(
                bonds@,
                old(self).last_failover_map(),
                now_ms as int,
                old(self).config_spec().failover_cooldown_secs,
            ),
    {
        let _ = self.record_reading(interface, score);
        self.evaluate_failover(bonds, now_ms)
    }
}

/// Within the cooldown, a bond is announced at most once: after a pass
/// that announced a bond, a second pass at most `cooldown` whole seconds
/// later announces it no more.
pub proof fn lemma_one_failover_per_cooldown(
    bonds: Seq<BondState>,
    last: Map<Seq<char>, int>,
    now: int,
    later: int,
    cooldown_secs: u64,
    name: Seq<char>,
)
    requires
        now <= later,
        div_toward_zero(later - now, 1000) < (cooldown_secs as i64) as int,
        evaluate(bonds, last, now, cooldown_secs).1.dom().contains(name),
        evaluate(bonds, last, now, cooldown_secs).1[name] == now,
    ensures
        forall|i: int|
            0 <= i < evaluate(bonds, evaluate(bonds, last, now, cooldown_secs).1, later, cooldown_secs).0.len()
                ==> (#[trigger] evaluate(bonds, evaluate(bonds, last, now, cooldown_secs).1, later, cooldown_secs).0[i]).0
                != name,
{
    let m = evaluate(bonds, last, now, cooldown_secs).1;
    lemma_stays_cooling(bonds, m, later, cooldown_secs, name, now);
}

/// A bond whose last failover time keeps it in cooldown is never announced,
/// and its time is left as it is.
proof fn lemma_stays_cooling(
    bonds: Seq<BondState>,
    last: Map<Seq<char>, int>,
    now: int,
    cooldown_secs: u64,
    name: Seq<char>,
    t: int,
)
    requires
        last.dom().contains(name),
        last[name] == t,
        in_cooldown(now, t, cooldown_secs),
    ensures
        evaluate(bonds, last, now, cooldown_secs).1.dom().contains(name),
        evaluate(bonds, last, now, cooldown_secs).1[name] == t,
        forall|i: int|
            0 <= i < evaluate(bonds, last, now, cooldown_secs).0.len() ==> (#[trigger] evaluate(
                bonds,
                last,
                now,
                cooldown_secs,
            ).0[i]).0 != name,
    decreases bonds.len(),
{
    if bonds.len() > 0 {
        lemma_stays_cooling(bonds.drop_last(), last, now, cooldown_secs, name, t);
    }
}

/// Some bond of the list has the name `k`.
pub open spec fn names_a_bond(bonds: Seq<BondState>, k: Seq<char>) -> bool {
    exists|i: int| 0 <= i < bonds.len() && bonds[i].name@ == k
}

/// A pass leaves the failover time of a name that no bond in it has.
proof fn lemma_other_names_untouched(
    bonds: Seq<BondState>,
    last: Map<Seq<char>, int>,
    now: int,
    cooldown_secs: u64,
    k: Seq<char>,
)
    requires
        !names_a_bond(bonds, k),
    ensures
        ({
            let m = evaluate(bonds, last, now, cooldown_secs).1;
            (m.dom().contains(k) <==> last.dom().contains(k)) && (last.dom().contains(k) ==> m[k] == last[k])
        }),
    decreases bonds.len(),
{
    if bonds.len() > 0 {
        let t = bonds.drop_last();
        if names_a_bond(t, k) {
            let i = choose|i: int| 0 <= i < t.len() && t[i].name@ == k;
            assert(bonds[i] == t[i]);
        }
        assert(bonds[bonds.len() - 1].name@ != k);
        lemma_other_names_untouched(t, last, now, cooldown_secs, k);
    }
}

/// A bond a pass at `now` must announce: it is in failover, and its own
/// last failover (if any) is not within the cooldown.
pub open spec fn due_for_notice(b: BondState, last: Map<Seq<char>, int>, now: int, cooldown_secs: u64) -> bool {
    b.failover_active && !(last.dom().contains(b.name@) && in_cooldown(now, last[b.name@], cooldown_secs))
}

/// Cooldowns are kept per bond: in a pass over bonds with distinct names,
/// every bond that is due (in failover and outside its own cooldown) is
/// announced, in bond order, and no other; each announced bond's failover
/// time becomes `now`, and every other bond's failover time, and that of
/// any name not in the list, is left as it was.
pub proof fn lemma_every_due_bond_announced(
    bonds: Seq<BondState>,
    last: Map<Seq<char>, int>,
    now: int,
    cooldown_secs: u64,
)
    requires
        forall|i: int, j: int| 0 <= i < j < bonds.len() ==> bonds[i].name@ != bonds[j].name@,
    ensures
        ({
            let (ns, m) = evaluate(bonds, last, now, cooldown_secs);
            &&& ns.map_values(|n: (Seq<char>, Seq<Seq<char>>, Seq<Seq<char>>)| n.0) == bonds.filter(
                |b: BondState| due_for_notice(b, last, now, cooldown_secs),
            ).map_values(|b: BondState| b.name@)
            &&& forall|i: int|
                #![trigger bonds[i]]
                0 <= i < bonds.len() ==> if due_for_notice(bonds[i], last, now, cooldown_secs) {
                    m.dom().contains(bonds[i].name@) && m[bonds[i].name@] == now
                } else {
                    (m.dom().contains(bonds[i].name@) <==> last.dom().contains(bonds[i].name@)) && (last.dom().contains(
                        bonds[i].name@,
                    ) ==> m[bonds[i].name@] == last[bonds[i].name@])
                }
            &&& forall|k: Seq<char>|
                !names_a_bond(bonds, k) ==> ((m.dom().contains(k) <==> last.dom().contains(k)) && (last.dom().contains(
                    k,
                ) ==> m[k] == last[k]))
        }),
    decreases bonds.len(),
{
    reveal(Seq::filter);
    let m = evaluate(bonds, last, now, cooldown_secs).1;
    assert forall|k: Seq<char>|
        !names_a_bond(bonds, k) implies ((m.dom().contains(k) <==> last.dom().contains(k)) && (last.dom().contains(k)
        ==> m[k] == last[k])) by {
        lemma_other_names_untouched(bonds, last, now, cooldown_secs, k);
    }
    if bonds.len() == 0 {
        assert(bonds.filter(|b: BondState| due_for_notice(b, last, now, cooldown_secs)).map_values(
            |b: BondState| b.name@,
        ) =~= Seq::empty());
        assert(evaluate(bonds, last, now, cooldown_secs).0.map_values(
            |n: (Seq<char>, Seq<Seq<char>>, Seq<Seq<char>>)| n.0,
        ) =~= Seq::empty());
    } else {
        let t = bonds.drop_last();
        let b = bonds.last();
        assert forall|i: int, j: int| 0 <= i < j < t.len() implies t[i].name@ != t[j].name@ by {
            assert(t[i] == bonds[i] && t[j] == bonds[j]);
        }
        lemma_every_due_bond_announced(t, last, now, cooldown_secs);
        let (ns1, m1) = evaluate(t, last, now, cooldown_secs);
        let (ns, m) = evaluate(bonds, last, now, cooldown_secs);
        assert forall|i: int| 0 <= i < t.len() implies t[i].name@ != b.name@ by {
            assert(t[i] == bonds[i]);
            assert(b == bonds[bonds.len() - 1]);
        }
        // The last bond's own entry is untouched by the bonds before it.
        if names_a_bond(t, b.name@) {
            let i = choose|i: int| 0 <= i < t.len() && t[i].name@ == b.name@;
        }
        lemma_other_names_untouched(t, last, now, cooldown_secs, b.name@);
        let tf = t.filter(|b: BondState| due_for_notice(b, last, now, cooldown_secs));
        let bf = bonds.filter(|b: BondState| due_for_notice(b, last, now, cooldown_secs));
        if due_for_notice(b, last, now, cooldown_secs) {
            let e = (b.name@, views(b.standby_members@), views(b.active_members@));
            assert(bf == tf.push(b));
            assert(ns == ns1.push(e));
            assert(ns.map_values(|n: (Seq<char>, Seq<Seq<char>>, Seq<Seq<char>>)| n.0) =~= ns1.map_values(
                |n: (Seq<char>, Seq<Seq<char>>, Seq<Seq<char>>)| n.0,
            ).push(b.name@));
            assert(bf.map_values(|b: BondState| b.name@) =~= tf.map_values(|b: BondState| b.name@).push(b.name@));
        } else {
            assert(bf == tf);
            assert(ns == ns1);
        }
        assert forall|i: int|
            #![trigger bonds[i]]
            0 <= i < bonds.len() implies if due_for_notice(bonds[i], last, now, cooldown_secs) {
            m.dom().contains(bonds[i].name@) && m[bonds[i].name@] == now
        } else {
            (m.dom().contains(bonds[i].name@) <==> last.dom().contains(bonds[i].name@)) && (last.dom().contains(
                bonds[i].name@,
            ) ==> m[bonds[i].name@] == last[bonds[i].name@])
        } by {
            if i < t.len() {
                assert(bonds[i] == t[i]);
            } else {
                assert(bonds[i] == b);
            }
        }
    }
}

} // verus!
