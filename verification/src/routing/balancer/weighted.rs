//! Weighted balancing: route weights proportional to interface health
//! scores.
//!
//! Scores are fixed-point numbers with 1000 units per health point.

use vstd::prelude::*;

use crate::bonding::scores_view;
use vstd::arithmetic::div_mod::{lemma_div_is_ordered, lemma_fundamental_div_mod, lemma_fundamental_div_mod_converse};

verus! {

/// `n / d` rounded to the nearest integer, halves away from zero (as
/// `f64::round` does), for `d != 0`.
pub open spec fn round_div(n: int, d: int) -> int {
    let an = if n < 0 { -n } else { n };
    let ad = if d < 0 { -d } else { d };
    let q = an / ad;
    let m = if 2 * (an % ad) >= ad { q + 1 } else { q };
    if (n < 0) != (d < 0) { -m } else { m }
}

/// `x` clamped to 1..=255.
pub open spec fn clamp_weight(x: int) -> u8 {
    if x < 1 { 1 } else if x > 255 { 255 } else { x as u8 }
}

/// The interfaces whose score reaches `min`, in order.
pub open spec fn viable(h: Seq<(Seq<char>, int)>, min: int) -> Seq<(Seq<char>, int)>
    decreases h.len(),
{
    if h.len() == 0 {
        Seq::empty()
    } else if h.last().1 >= min {
        viable(h.drop_last(), min).push(h.last())
    } else {
        viable(h.drop_last(), min)
    }
}

/// The sum of the scores.
pub open spec fn total(s: Seq<(Seq<char>, int)>) -> int
    decreases s.len(),
{
    if s.len() == 0 { 0 } else { total(s.drop_last()) + s.last().1 }
}

/// Route weights from health scores: each viable interface gets its share
/// of the total viable score, scaled to 255 and rounded, clamped to 1..=255;
/// none when no interface is viable or the viable scores total zero.
pub open spec fn weights_spec(h: Seq<(Seq<char>, int)>, min: int) -> Seq<(Seq<char>, u8)> {
    let v = viable(h, min);
    let t = total(v);
    if v.len() == 0 || t == 0 {
        Seq::empty()
    } else {
        Seq::new(v.len(), |i: int| (v[i].0, clamp_weight(round_div(v[i].1 * 255, t))))
    }
}

/// For `n >= 0` and `d > 0`, rounding `n / d` is `(2n + d) / (2d)`.
proof fn lemma_round_div_nonneg(n: int, d: int)
    requires
        n >= 0,
        d > 0,
    ensures
        round_div(n, d) == (2 * n + d) / (2 * d),
        round_div(n, d) >= 0,
{
    let q = n / d;
    let r = n % d;
    lemma_fundamental_div_mod(n, d);
    assert(2 * n + d == q * (2 * d) + (2 * r + d)) by (nonlinear_arith)
        requires
            n == d * q + r,
    ;
    assert(0 <= r < d);
    if 2 * r >= d {
        assert(2 * n + d == (q + 1) * (2 * d) + (2 * r - d)) by (nonlinear_arith)
            requires
                2 * n + d == q * (2 * d) + (2 * r + d),
        ;
        lemma_fundamental_div_mod_converse(2 * n + d, 2 * d, q + 1, 2 * r - d);
    } else {
        lemma_fundamental_div_mod_converse(2 * n + d, 2 * d, q, 2 * r + d);
    }
    assert(q >= 0) by (nonlinear_arith)
        requires
            n >= 0,
            d > 0,
            q == n / d,
    ;
}

/// Rounding `n / d` is monotone in `n` for `d > 0`.
proof fn lemma_round_div_monotone(n1: int, n2: int, d: int)
    requires
        n1 >= n2,
        d > 0,
    ensures
        round_div(n1, d) >= round_div(n2, d),
{
    if n2 >= 0 {
        lemma_round_div_nonneg(n1, d);
        lemma_round_div_nonneg(n2, d);
        lemma_div_is_ordered(2 * n2 + d, 2 * n1 + d, 2 * d);
    } else if n1 < 0 {
        lemma_round_div_nonneg(-n1, d);
        lemma_round_div_nonneg(-n2, d);
        lemma_div_is_ordered(2 * -n1 + d, 2 * -n2 + d, 2 * d);
    } else {
        lemma_round_div_nonneg(n1, d);
        lemma_round_div_nonneg(-n2, d);
    }
}

/// Weights go to the viable interfaces only, in their order, each from 1
/// to 255; and when the viable scores total more than zero, a healthier
/// interface never gets a smaller weight than a less healthy one.
pub proof fn lemma_weights_follow_health(h: Seq<(Seq<char>, int)>, min: int, i: int, j: int)
    requires
        total(viable(h, min)) > 0,
        0 <= i < viable(h, min).len(),
        0 <= j < viable(h, min).len(),
        viable(h, min)[i].1 >= viable(h, min)[j].1,
    ensures
        weights_spec(h, min).len() == viable(h, min).len(),
        weights_spec(h, min)[i].0 == viable(h, min)[i].0,
        1 <= weights_spec(h, min)[i].1 <= 255,
        weights_spec(h, min)[i].1 >= weights_spec(h, min)[j].1,
{
    let v = viable(h, min);
    let t = total(v);
    assert(v[i].1 * 255 >= v[j].1 * 255);
    lemma_round_div_monotone(v[i].1 * 255, v[j].1 * 255, t);
}

/// Weights as (interface, weight).
pub open spec fn weights_view(w: Seq<(String, u8)>) -> Seq<(Seq<char>, u8)> {
    w.map_values(|e: (String, u8)| (e.0@, e.1))
}

fn round_div_exec(n: i128, d: i128) -> (r: i128)
    requires
        d != 0,
        -0x1_0000_0000_0000_0000_0000_0000 < n < 0x1_0000_0000_0000_0000_0000_0000,
        -0x1_0000_0000_0000_0000_0000_0000 < d < 0x1_0000_0000_0000_0000_0000_0000,
    ensures
        r == round_div(n as int, d as int),
{
    let an: i128 = if n < 0 { -n } else { n };
    let ad: i128 = if d < 0 { -d } else { d };
    let q = an / ad;
    let m = if 2 * (an % ad) >= ad { q + 1 } else { q };
    if (n < 0) != (d < 0) { -m } else { m }
}

fn copy_weights(w: &Vec<(String, u8)>) -> (c: Vec<(String, u8)>)
    ensures
        weights_view(c@) == weights_view(w@),
{
    let mut c: Vec<(String, u8)> = Vec::new();
    let mut j: usize = 0;
    while j < w.len()
        invariant
            j <= w@.len(),
            weights_view(c@) == weights_view(w@).take(j as int),
        decreases w.len() - j,
    {
        let ghost old_c = weights_view(c@);
        c.push((w[j].0.clone(), w[j].1));
        assert(weights_view(c@) =~= old_c.push(weights_view(w@)[j as int]));
        j = j + 1;
        assert(weights_view(c@) =~= weights_view(w@).take(j as int));
    }
    assert(weights_view(w@).take(w@.len() as int) =~= weights_view(w@));
    c
}

/// Computes route weights from health scores.
pub struct WeightedBalancer {
    /// Minimum score for an interface to be balanced over.
    min_health: i64,
    /// Current weights.
    weights: Vec<(String, u8)>,
}

impl WeightedBalancer {
    /// The current weights.
    pub closed spec fn weights_view(&self) -> Seq<(Seq<char>, u8)> {
        weights_view(self.weights@)
    }

    /// The viability threshold.
    pub closed spec fn min_health(&self) -> i64 {
        self.min_health
    }

    /// A balancer with no weights.
    pub fn new(min_health: i64) -> (b: Self)
        ensures
            b.min_health() == min_health,
            b.weights_view().len() == 0,
    {
        let b = WeightedBalancer { min_health, weights: Vec::new() };
        assert(weights_view(b.weights@) =~= Seq::<(Seq<char>, u8)>::empty());
        b
    }

    /// Computes the weights for a set of health scores, stores them and
    /// returns them.
    pub fn compute_weights(&mut self, health: &Vec<(String, i64)>) -> (w: Vec<(String, u8)>)
        requires
            health@.len() < 0x1_0000_0000,
        ensures
            weights_view(w@) == weights_spec(scores_view(health@), old(self).min_health() as int),
            final(self).weights_view() == weights_view(w@),
            final(self).min_health() == old(self).min_health(),
    {
        let min = self.min_health;
        let ghost h = scores_view(health@);
        // the viable interfaces and their total score
        let mut viable_v: Vec<(String, i64)> = Vec::new();
        let mut sum: i128 = 0;
        let mut i: usize = 0;
        while i < health.len()
            invariant
                i <= health@.len(),
                health@.len() < 0x1_0000_0000,
                h == scores_view(health@),
                scores_view(viable_v@) == viable(h.take(i as int), min as int),
                sum == total(viable(h.take(i as int), min as int)),
                -(i as int) * 0x8000_0000_0000_0000 <= sum <= (i as int) * 0x8000_0000_0000_0000,
            decreases health.len() - i,
        {
            assert(h.take(i + 1).drop_last() =~= h.take(i as int));
            assert(h.take(i + 1).last() == h[i as int]);
            let e = &health[i];
            let ghost before = viable(h.take(i as int), min as int);
            assert(before.push(h[i as int]).drop_last() =~= before);
            if e.1 >= min {
                let ghost old_v = scores_view(viable_v@);
                viable_v.push((e.0.clone(), e.1));
                assert(scores_view(viable_v@) =~= old_v.push((e.0@, e.1 as int)));
                sum = sum + e.1 as i128;
            }
            i = i + 1;
        }
        assert(h.take(h.len() as int) =~= h);
        let mut out: Vec<(String, u8)> = Vec::new();
        if viable_v.len() == 0 || sum == 0 {
            self.weights = Vec::new();
            assert(weights_view(out@) =~= weights_spec(h, min as int));
            assert(weights_view(self.weights@) =~= weights_view(out@));
            return out;
        }
        let ghost v = viable(h, min as int);
        let mut k: usize = 0;
        while k < viable_v.len()
            invariant
                k <= viable_v@.len(),
                scores_view(viable_v@) == v,
                v == viable(h, min as int),
                h == scores_view(health@),
                sum == total(v),
                sum != 0,
                v.len() > 0,
                -0x1_0000_0000_0000_0000_0000_0000 < sum < 0x1_0000_0000_0000_0000_0000_0000,
                weights_view(out@) == weights_spec(h, min as int).take(k as int),
            decreases viable_v.len() - k,
        {
            let sc = viable_v[k].1;
            let r = round_div_exec(sc as i128 * 255, sum);
            let w: u8 = if r < 1 {
                1
            } else if r > 255 {
                255
            } else {
                r as u8
            };
            let ghost old_o = weights_view(out@);
            out.push((viable_v[k].0.clone(), w));
            assert(v[k as int] == (viable_v@[k as int].0@, sc as int));
            assert(weights_view(out@) =~= old_o.push(
                (v[k as int].0, clamp_weight(round_div(v[k as int].1 * 255, sum as int))),
            ));
            k = k + 1;
            assert(weights_view(out@) =~= weights_spec(h, min as int).take(k as int));
        }
        assert(weights_spec(h, min as int).take(v.len() as int) =~= weights_spec(h, min as int));
        self.weights = copy_weights(&out);
        out
    }

    /// The current weights.
    pub fn weights(&self) -> (w: &Vec<(String, u8)>)
        ensures
            weights_view(w@) == self.weights_view(),
    {
        &self.weights
    }
}

} // verus!
