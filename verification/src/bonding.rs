//! Bond groups: naming and creating bond interfaces, and choosing the
//! active member from health scores (active-backup semantics).
//!
//! Scores are fixed-point numbers with 1000 units per health point;
//! timestamps are milliseconds since the Unix epoch.

use vstd::prelude::*;

use crate::config::{BondConfig, BondMode};
use crate::error::BondingError;
use crate::argv::{lit, push_clone, push_lit, views};
use crate::text::{chars_of, seq_starts_with, str_eq, string_of};

pub mod failover;

verus! {

/// Runtime state of a bond group.
#[derive(Debug, Clone)]
pub struct BondState {
    /// Bond configuration name.
    pub name: String,
    /// Bonding mode.
    pub mode: BondMode,
    /// Currently active member interfaces.
    pub active_members: Vec<String>,
    /// Standby member interfaces.
    pub standby_members: Vec<String>,
    /// Failed member interfaces.
    pub failed_members: Vec<String>,
    /// Whether the bond is in failover state.
    pub failover_active: bool,
    /// Last failover time (milliseconds since the Unix epoch).
    pub last_failover_ms: Option<i64>,
    /// Bond interface name (e.g. "netfusion0").
    pub bond_interface: Option<String>,
}

/// `s` with every leading occurrence of the non-empty `p` removed
/// (`str::trim_start_matches`).
pub open spec fn strip_prefixes(s: Seq<char>, p: Seq<char>) -> Seq<char>
    decreases s.len(),
{
    if p.len() > 0 && seq_starts_with(s, p) {
        strip_prefixes(s.subrange(p.len() as int, s.len() as int), p)
    } else {
        s
    }
}

/// The bond interface name for a bond group: "netfusion" followed by the
/// group name with its leading "bond" prefixes removed.
pub open spec fn bond_interface_name_spec(name: Seq<char>) -> Seq<char> {
    "netfusion"@ + strip_prefixes(name, "bond"@)
}

/// The name of the bond interface created for a bond group
/// ("bond0" gives "netfusion0").
pub fn bond_interface_name(name: &str) -> (r: String)
    ensures
        r@ == bond_interface_name_spec(name@),
{
    let s = chars_of(name);
    let p = chars_of("bond");
    proof {
        reveal_strlit("bond");
    }
    let mut start: usize = 0;
    assert(s@.subrange(0, s@.len() as int) =~= s@);
    while s.len() >= 4 && start <= s.len() - 4 && s[start] == p[0] && s[start + 1] == p[1] && s[start + 2] == p[2]
        && s[start + 3] == p[3]
        invariant
            start <= s.len(),
            p@ == "bond"@,
            p@.len() == 4,
            strip_prefixes(s@, "bond"@) == strip_prefixes(s@.subrange(start as int, s@.len() as int), "bond"@),
        decreases s.len() - start,
    {
        let ghost rest = s@.subrange(start as int, s@.len() as int);
        assert(rest.subrange(0, 4) =~= p@);
        assert(rest.subrange(4, rest.len() as int) =~= s@.subrange(start + 4, s@.len() as int));
        start = start + 4;
    }
    proof {
        let rest = s@.subrange(start as int, s@.len() as int);
        if seq_starts_with(rest, "bond"@) {
            assert(rest[0] == p@[0] && rest[1] == p@[1] && rest[2] == p@[2] && rest[3] == p@[3]) by {
                assert(rest.subrange(0, 4)[0] == rest[0]);
                assert(rest.subrange(0, 4)[1] == rest[1]);
                assert(rest.subrange(0, 4)[2] == rest[2]);
                assert(rest.subrange(0, 4)[3] == rest[3]);
            }
            assert(false);
        }
    }
    let mut out = String::from_str("netfusion");
    let mut tail: Vec<char> = Vec::new();
    let mut i = start;
    while i < s.len()
        invariant
            start <= i <= s.len(),
            tail@ == s@.subrange(start as int, i as int),
        decreases s.len() - i,
    {
        tail.push(s[i]);
        i = i + 1;
        assert(tail@ =~= s@.subrange(start as int, i as int));
    }
    let t = string_of(&tail);
    out.append(t.as_str());
    out
}

/// The kernel bonding mode number for a mode (modes without a kernel
/// equivalent use active-backup).
pub open spec fn kernel_mode_spec(m: BondMode) -> Seq<char> {
    match m {
        BondMode::ActiveBackup => "1"@,
        BondMode::BalanceRr => "0"@,
        BondMode::BalanceXor => "2"@,
        BondMode::Broadcast => "3"@,
        BondMode::Lacp => "4"@,
        BondMode::AdaptiveTlb => "5"@,
        BondMode::AdaptiveAlb => "6"@,
        _ => "1"@,
    }
}

/// The kernel bonding mode number for a mode.
pub fn kernel_mode(m: BondMode) -> (s: &'static str)
    ensures
        s@ == kernel_mode_spec(m),
{
    match m {
        BondMode::ActiveBackup => "1",
        BondMode::BalanceRr => "0",
        BondMode::BalanceXor => "2",
        BondMode::Broadcast => "3",
        BondMode::Lacp => "4",
        BondMode::AdaptiveTlb => "5",
        BondMode::AdaptiveAlb => "6",
        _ => "1",
    }
}



/// `ip` arguments that create a bond interface in the given mode.
pub fn create_bond_args(name: &str, mode: BondMode) -> (args: Vec<String>)
    ensures
        views(args@) == seq!["link"@, "add"@, name@, "type"@, "bond"@, "mode"@, kernel_mode_spec(mode)],
{
    let mut args: Vec<String> = Vec::new();
    push_lit(&mut args, "link");
    push_lit(&mut args, "add");
    push_lit(&mut args, name);
    push_lit(&mut args, "type");
    push_lit(&mut args, "bond");
    push_lit(&mut args, "mode");
    push_lit(&mut args, kernel_mode(mode));
    args
}

/// `ip` arguments that enslave an interface to a bond.
pub fn enslave_args(iface: &str, bond: &str) -> (args: Vec<String>)
    ensures
        views(args@) == seq!["link"@, "set"@, iface@, "master"@, bond@],
{
    let mut args: Vec<String> = Vec::new();
    push_lit(&mut args, "link");
    push_lit(&mut args, "set");
    push_lit(&mut args, iface);
    push_lit(&mut args, "master");
    push_lit(&mut args, bond);
    args
}

/// `ip` arguments that release an interface from its bond.
pub fn release_args(iface: &str) -> (args: Vec<String>)
    ensures
        views(args@) == seq!["link"@, "set"@, iface@, "nomaster"@],
{
    let mut args: Vec<String> = Vec::new();
    push_lit(&mut args, "link");
    push_lit(&mut args, "set");
    push_lit(&mut args, iface);
    push_lit(&mut args, "nomaster");
    args
}

/// `ip` arguments that delete a bond interface.
pub fn delete_bond_args(name: &str) -> (args: Vec<String>)
    ensures
        views(args@) == seq!["link"@, "del"@, name@],
{
    let mut args: Vec<String> = Vec::new();
    push_lit(&mut args, "link");
    push_lit(&mut args, "del");
    push_lit(&mut args, name);
    args
}

// ---------------------------------------------------------------------------
// Membership
// ---------------------------------------------------------------------------

/// The score of `k` in a score list: the first entry for it.
pub open spec fn score_of(h: Seq<(Seq<char>, int)>, k: Seq<char>) -> Option<int>
    decreases h.len(),
{
    if h.len() == 0 {
        None
    } else if h[0].0 == k {
        Some(h[0].1)
    } else {
        score_of(h.drop_first(), k)
    }
}

/// The healthiest member: the first, in order, of the members with the
/// highest score; members without a score are not candidates.
pub open spec fn best_member(ms: Seq<Seq<char>>, h: Seq<(Seq<char>, int)>) -> Option<(Seq<char>, int)>
    decreases ms.len(),
{
    if ms.len() == 0 {
        None
    } else {
        let prev = best_member(ms.drop_last(), h);
        match score_of(h, ms.last()) {
            None => prev,
            Some(s) => match prev {
                None => Some((ms.last(), s)),
                Some(p) => if s > p.1 { Some((ms.last(), s)) } else { prev },
            },
        }
    }
}

/// `s` without any occurrence of `x`.
pub open spec fn remove_all(s: Seq<Seq<char>>, x: Seq<char>) -> Seq<Seq<char>>
    decreases s.len(),
{
    if s.len() == 0 {
        Seq::empty()
    } else if s.last() == x {
        remove_all(s.drop_last(), x)
    } else {
        remove_all(s.drop_last(), x).push(s.last())
    }
}

/// The members of `s` that have a score.
pub open spec fn keep_scored(s: Seq<Seq<char>>, h: Seq<(Seq<char>, int)>) -> Seq<Seq<char>>
    decreases s.len(),
{
    if s.len() == 0 {
        Seq::empty()
    } else if score_of(h, s.last()) is Some {
        keep_scored(s.drop_last(), h).push(s.last())
    } else {
        keep_scored(s.drop_last(), h)
    }
}

/// Abstract bond state.
pub struct BondView {
    pub name: Seq<char>,
    pub active: Seq<Seq<char>>,
    pub standby: Seq<Seq<char>>,
    pub failed: Seq<Seq<char>>,
    pub failover_active: bool,
    pub last_failover_ms: Option<int>,
}

pub open spec fn bond_view(b: BondState) -> BondView {
    BondView {
        name: b.name@,
        active: views(b.active_members@),
        standby: views(b.standby_members@),
        failed: views(b.failed_members@),
        failover_active: b.failover_active,
        last_failover_ms: match b.last_failover_ms {
            Some(t) => Some(t as int),
            None => None,
        },
    }
}

pub open spec fn scores_view(h: Seq<(String, i64)>) -> Seq<(Seq<char>, int)> {
    h.map_values(|e: (String, i64)| (e.0@, e.1 as int))
}

/// A membership update of a bond at time `now`: the healthiest member
/// among standby then active members becomes the single active member; if
/// that changes the active member, the previous one moves to standby, the
/// bond enters failover, and failed members without a score are dropped.
pub open spec fn membership_update(b: BondView, h: Seq<(Seq<char>, int)>, now: int) -> (BondView, Option<Seq<char>>) {
    match best_member(b.standby + b.active, h) {
        None => (b, None),
        Some((best, _)) => {
            let prev = if b.active.len() > 0 { Some(b.active[0]) } else { None };
            if prev == Some(best) {
                (b, None)
            } else {
                let standby1 = match prev {
                    Some(p) => if b.standby.contains(p) { b.standby } else { b.standby.push(p) },
                    None => b.standby,
                };
                (
                    BondView {
                        active: seq![best],
                        standby: remove_all(standby1, best),
                        failed: keep_scored(b.failed, h),
                        failover_active: true,
                        last_failover_ms: Some(now),
                        ..b
                    },
                    Some(best),
                )
            }
        },
    }
}


fn lookup_score(h: &Vec<(String, i64)>, k: &String) -> (r: Option<i64>)
    ensures
        match r {
            Some(s) => score_of(scores_view(h@), k@) == Some(s as int),
            None => score_of(scores_view(h@), k@) is None,
        },
{
    let mut i: usize = 0;
    assert(scores_view(h@).subrange(0, scores_view(h@).len() as int) =~= scores_view(h@));
    while i < h.len()
        invariant
            i <= h@.len(),
            score_of(scores_view(h@), k@) == score_of(scores_view(h@).subrange(i as int, h@.len() as int), k@),
        decreases h.len() - i,
    {
        let ghost rest = scores_view(h@).subrange(i as int, h@.len() as int);
        assert(rest.drop_first() =~= scores_view(h@).subrange(i + 1, h@.len() as int));
        if str_eq(h[i].0.as_str(), k.as_str()) {
            return Some(h[i].1);
        }
        i = i + 1;
    }
    None
}

fn contains_str(v: &Vec<String>, x: &String) -> (b: bool)
    ensures
        b == views(v@).contains(x@),
{
    let mut i: usize = 0;
    while i < v.len()
        invariant
            i <= v@.len(),
            forall|j: int| 0 <= j < i ==> views(v@)[j] != x@,
        decreases v.len() - i,
    {
        if str_eq(v[i].as_str(), x.as_str()) {
            assert(views(v@)[i as int] == x@);
            return true;
        }
        i = i + 1;
    }
    false
}

fn remove_all_exec(v: &Vec<String>, x: &String) -> (r: Vec<String>)
    ensures
        views(r@) == remove_all(views(v@), x@),
{
    let mut r: Vec<String> = Vec::new();
    let mut i: usize = 0;
    while i < v.len()
        invariant
            i <= v@.len(),
            views(r@) == remove_all(views(v@).subrange(0, i as int), x@),
        decreases v.len() - i,
    {
        let ghost pre = views(v@).subrange(0, i as int);
        let ghost next = views(v@).subrange(0, i + 1);
        assert(next.drop_last() =~= pre);
        assert(next.last() == v@[i as int]@);
        if !str_eq(v[i].as_str(), x.as_str()) {
            push_clone(&mut r, &v[i]);
        }
        i = i + 1;
    }
    assert(views(v@).subrange(0, v@.len() as int) =~= views(v@));
    r
}

fn keep_scored_exec(v: &Vec<String>, h: &Vec<(String, i64)>) -> (r: Vec<String>)
    ensures
        views(r@) == keep_scored(views(v@), scores_view(h@)),
{
    let mut r: Vec<String> = Vec::new();
    let mut i: usize = 0;
    while i < v.len()
        invariant
            i <= v@.len(),
            views(r@) == keep_scored(views(v@).subrange(0, i as int), scores_view(h@)),
        decreases v.len() - i,
    {
        let ghost pre = views(v@).subrange(0, i as int);
        let ghost next = views(v@).subrange(0, i + 1);
        assert(next.drop_last() =~= pre);
        assert(next.last() == v@[i as int]@);
        if lookup_score(h, &v[i]).is_some() {
            push_clone(&mut r, &v[i]);
        }
        i = i + 1;
    }
    assert(views(v@).subrange(0, v@.len() as int) =~= views(v@));
    r
}

fn best_member_exec(ms: &Vec<String>, h: &Vec<(String, i64)>) -> (r: Option<(String, i64)>)
    ensures
        match r {
            Some((m, s)) => best_member(views(ms@), scores_view(h@)) == Some((m@, s as int)),
            None => best_member(views(ms@), scores_view(h@)) is None,
        },
{
    let mut best: Option<(usize, i64)> = None;
    let mut i: usize = 0;
    while i < ms.len()
        invariant
            i <= ms@.len(),
            match best {
                Some((k, s)) => k < i && best_member(views(ms@).subrange(0, i as int), scores_view(h@))
                    == Some((views(ms@)[k as int], s as int)),
                None => best_member(views(ms@).subrange(0, i as int), scores_view(h@)) is None,
            },
        decreases ms.len() - i,
    {
        let ghost pre = views(ms@).subrange(0, i as int);
        let ghost next = views(ms@).subrange(0, i + 1);
        assert(next.drop_last() =~= pre);
        assert(next.last() == ms@[i as int]@);
        match lookup_score(h, &ms[i]) {
            None => {},
            Some(s) => match best {
                None => {
                    best = Some((i, s));
                },
                Some((_, bs)) => {
                    if s > bs {
                        best = Some((i, s));
                    }
                },
            },
        }
        i = i + 1;
    }
    assert(views(ms@).subrange(0, ms@.len() as int) =~= views(ms@));
    match best {
        Some((k, s)) => Some((ms[k].clone(), s)),
        None => None,
    }
}

fn concat_members(a: &Vec<String>, b: &Vec<String>) -> (r: Vec<String>)
    ensures
        views(r@) == views(a@) + views(b@),
{
    let mut r: Vec<String> = Vec::new();
    let mut i: usize = 0;
    while i < a.len()
        invariant
            i <= a@.len(),
            views(r@) == views(a@).subrange(0, i as int),
        decreases a.len() - i,
    {
        push_clone(&mut r, &a[i]);
        i = i + 1;
        assert(views(r@) =~= views(a@).subrange(0, i as int));
    }
    let mut j: usize = 0;
    while j < b.len()
        invariant
            j <= b@.len(),
            views(r@) == views(a@) + views(b@).subrange(0, j as int),
        decreases b.len() - j,
    {
        push_clone(&mut r, &b[j]);
        j = j + 1;
        assert(views(r@) =~= views(a@) + views(b@).subrange(0, j as int));
    }
    assert(views(b@).subrange(0, b@.len() as int) =~= views(b@));
    r
}

impl BondState {
    /// Applies a membership update at `now_ms`; returns the newly active
    /// member when the active member changed.
    pub fn update_membership(&mut self, interface_health: &Vec<(String, i64)>, now_ms: i64) -> (r: Option<String>)
        ensures
            ({
                let (b2, m) = membership_update(bond_view(*old(self)), scores_view(interface_health@), now_ms as int);
                &&& bond_view(*final(self)) == b2
                &&& match r {
                    Some(x) => m == Some(x@),
                    None => m is None,
                }
            }),
            final(self).mode == old(self).mode,
            final(self).bond_interface == old(self).bond_interface,
    {
        let members = concat_members(&self.standby_members, &self.active_members);
        let best = best_member_exec(&members, interface_health);
        match best {
            None => None,
            Some((best_name, _)) => {
                let prev: Option<String> = if self.active_members.len() > 0 {
                    Some(self.active_members[0].clone())
                } else {
                    None
                };
                let same = match &prev {
                    Some(p) => str_eq(p.as_str(), best_name.as_str()),
                    None => false,
                };
                if same {
                    return None;
                }
                let ghost b0 = bond_view(*self);
                let mut active: Vec<String> = Vec::new();
                active.push(best_name.clone());
                assert(views(active@) =~= seq![best_name@]);
                self.active_members = active;
                match &prev {
                    Some(p) => {
                        if !contains_str(&self.standby_members, p) {
                            push_clone(&mut self.standby_members, p);
                        }
                    },
                    None => {},
                }
                self.standby_members = remove_all_exec(&self.standby_members, &best_name);
                self.failover_active = true;
                self.last_failover_ms = Some(now_ms);
                self.failed_members = keep_scored_exec(&self.failed_members, interface_health);
                Some(best_name)
            },
        }
    }
}

/// The bond groups the daemon manages, by name.
pub struct BondManager {
    bonds: Vec<BondState>,
}

/// The names of a list of bonds.
pub open spec fn bond_names(bs: Seq<BondState>) -> Seq<Seq<char>> {
    bs.map_values(|b: BondState| b.name@)
}

/// The index of the bond named `n`, if any.
pub open spec fn has_bond(bs: Seq<BondState>, n: Seq<char>) -> bool {
    exists|i: int| 0 <= i < bs.len() && bs[i].name@ == n
}

impl BondManager {
    /// The managed bonds.
    pub closed spec fn bonds_view(&self) -> Seq<BondState> {
        self.bonds@
    }

    /// No two bonds share a name.
    pub closed spec fn wf(&self) -> bool {
        forall|i: int, j: int| 0 <= i < j < self.bonds@.len() ==> self.bonds@[i].name@ != self.bonds@[j].name@
    }

    /// A manager with no bonds.
    pub fn new() -> (m: Self)
        ensures
            m.wf(),
            m.bonds_view().len() == 0,
    {
        BondManager { bonds: Vec::new() }
    }

    /// The managed bonds.
    pub fn bonds(&self) -> (r: &Vec<BondState>)
        ensures
            r@ == self.bonds_view(),
    {
        &self.bonds
    }

    fn find(&self, name: &str) -> (r: Option<usize>)
        ensures
            match r {
                Some(i) => i < self.bonds@.len() && self.bonds@[i as int].name@ == name@,
                None => !has_bond(self.bonds@, name@),
            },
    {
        let mut i: usize = 0;
        while i < self.bonds.len()
            invariant
                i <= self.bonds@.len(),
                forall|j: int| 0 <= j < i ==> self.bonds@[j].name@ != name@,
            decreases self.bonds.len() - i,
        {
            if str_eq(self.bonds[i].name.as_str(), name) {
                return Some(i);
            }
            i = i + 1;
        }
        None
    }

    /// Records a newly created bond group: no active member, every
    /// configured member on standby, no failover, and its bond interface.
    /// A group of the same name is replaced.
    pub fn register_bond(&mut self, config: &BondConfig, bond_interface: String)
        requires
            old(self).wf(),
        ensures
            final(self).wf(),
            has_bond(final(self).bonds_view(), config.name@),
            forall|i: int| 0 <= i < final(self).bonds_view().len() && final(self).bonds_view()[i].name@
                == config.name@ ==> {
                let b = final(self).bonds_view()[i];
                &&& b.mode == config.mode
                &&& b.active_members@.len() == 0
                &&& views(b.standby_members@) == views(config.members@)
                &&& b.failed_members@.len() == 0
                &&& !b.failover_active
                &&& b.last_failover_ms is None
                &&& b.bond_interface matches Some(s) && s@ == bond_interface@
            },
            forall|n: Seq<char>| n != config.name@ ==> (has_bond(final(self).bonds_view(), n) <==> has_bond(
                old(self).bonds_view(),
                n,
            )),
    {
        let mut standby: Vec<String> = Vec::new();
        let mut k: usize = 0;
        while k < config.members.len()
            invariant
                k <= config.members@.len(),
                views(standby@) == views(config.members@).subrange(0, k as int),
            decreases config.members.len() - k,
        {
            push_clone(&mut standby, &config.members[k]);
            k = k + 1;
            assert(views(standby@) =~= views(config.members@).subrange(0, k as int));
        }
        assert(views(config.members@).subrange(0, config.members@.len() as int) =~= views(config.members@));
        let state = BondState {
            name: config.name.clone(),
            mode: config.mode,
            active_members: Vec::new(),
            standby_members: standby,
            failed_members: Vec::new(),
            failover_active: false,
            last_failover_ms: None,
            bond_interface: Some(bond_interface),
        };
        match self.find(config.name.as_str()) {
            Some(i) => {
                let ghost old_b = self.bonds@;
                self.bonds.set(i, state);
                proof {
                    assert forall|n: Seq<char>| n != config.name@ implies (has_bond(self.bonds@, n) <==> has_bond(
                        old_b,
                        n,
                    )) by {
                        if has_bond(self.bonds@, n) {
                            let w = choose|j: int| 0 <= j < self.bonds@.len() && self.bonds@[j].name@ == n;
                            assert(old_b[w].name@ == n);
                        }
                        if has_bond(old_b, n) {
                            let w = choose|j: int| 0 <= j < old_b.len() && old_b[j].name@ == n;
                            assert(self.bonds@[w].name@ == n);
                        }
                    }
                    assert(self.bonds@[i as int].name@ == config.name@);
                }
            },
            None => {
                let ghost old_b = self.bonds@;
                self.bonds.push(state);
                proof {
                    assert forall|n: Seq<char>| n != config.name@ implies (has_bond(self.bonds@, n) <==> has_bond(
                        old_b,
                        n,
                    )) by {
                        if has_bond(self.bonds@, n) {
                            let w = choose|j: int| 0 <= j < self.bonds@.len() && self.bonds@[j].name@ == n;
                            assert(old_b[w].name@ == n);
                        }
                        if has_bond(old_b, n) {
                            let w = choose|j: int| 0 <= j < old_b.len() && old_b[j].name@ == n;
                            assert(self.bonds@[w].name@ == n);
                        }
                    }
                    assert(self.bonds@[old_b.len() as int].name@ == config.name@);
                }
            },
        }
    }

    /// Removes a bond group and returns its last state (whose members are
    /// to be released); `NotFound` if there is no group of that name.
    pub fn delete_bond(&mut self, name: &str) -> (r: Result<BondState, BondingError>)
        requires
            old(self).wf(),
        ensures
            final(self).wf(),
            r is Ok <==> has_bond(old(self).bonds_view(), name@),
            match r {
                Ok(b) => b.name@ == name@ && exists|i: int| 0 <= i < old(self).bonds_view().len()
                    && old(self).bonds_view()[i] == b && final(self).bonds_view() == old(self).bonds_view().remove(i),
                Err(BondingError::NotFound { name: n }) => n@ == name@ && final(self).bonds_view()
                    == old(self).bonds_view(),
                Err(_) => false,
            },
            !has_bond(final(self).bonds_view(), name@),
    {
        match self.find(name) {
            Some(i) => {
                let ghost old_b = self.bonds@;
                let b = self.bonds.remove(i);
                proof {
                    assert(self.bonds@ == old_b.remove(i as int));
                    if has_bond(self.bonds@, name@) {
                        let w = choose|j: int| 0 <= j < self.bonds@.len() && self.bonds@[j].name@ == name@;
                        if w < i {
                            assert(old_b[w].name@ == old_b[i as int].name@);
                        } else {
                            assert(old_b[w + 1].name@ == old_b[i as int].name@);
                        }
                    }
                }
                Ok(b)
            },
            None => Err(BondingError::NotFound { name: String::from_str(name) }),
        }
    }

    /// Updates the membership of the named bond from health scores at
    /// `now_ms`; returns the newly active member if it changed, `NotFound`
    /// if there is no group of that name. Other bonds are untouched.
    pub fn update_membership(
        &mut self,
        bond_name: &str,
        interface_health: &Vec<(String, i64)>,
        now_ms: i64,
    ) -> (r: Result<Option<String>, BondingError>)
        requires
            old(self).wf(),
        ensures
            final(self).wf(),
            final(self).bonds_view().len() == old(self).bonds_view().len(),
            r is Ok <==> has_bond(old(self).bonds_view(), bond_name@),
            match r {
                Ok(m) => exists|i: int| {
                    &&& 0 <= i < old(self).bonds_view().len()
                    &&& old(self).bonds_view()[i].name@ == bond_name@
                    &&& ({
                        let (b2, best) = membership_update(
                            bond_view(old(self).bonds_view()[i]),
                            scores_view(interface_health@),
                            now_ms as int,
                        );
                        &&& bond_view(final(self).bonds_view()[i]) == b2
                        &&& final(self).bonds_view()[i].mode == old(self).bonds_view()[i].mode
                        &&& final(self).bonds_view()[i].bond_interface == old(self).bonds_view()[i].bond_interface
                        &&& match m {
                            Some(x) => best == Some(x@),
                            None => best is None,
                        }
                    })
                    &&& forall|j: int| 0 <= j < old(self).bonds_view().len() && j != i ==> final(self).bonds_view()[j]
                        == old(self).bonds_view()[j]
                },
                Err(BondingError::NotFound { name: n }) => n@ == bond_name@ && final(self).bonds_view()
                    == old(self).bonds_view(),
                Err(_) => false,
            },
    {
        match self.find(bond_name) {
            Some(i) => {
                let ghost old_b = self.bonds@;
                let mut state = self.bonds.remove(i);
                let r = state.update_membership(interface_health, now_ms);
                self.bonds.insert(i, state);
                proof {
                    assert forall|j: int| 0 <= j < old_b.len() && j != i implies self.bonds@[j] == old_b[j] by {}
                    assert forall|a: int, b: int| 0 <= a < b < self.bonds@.len() implies self.bonds@[a].name@
                        != self.bonds@[b].name@ by {
                        assert(self.bonds@[a].name@ == old_b[a].name@);
                        assert(self.bonds@[b].name@ == old_b[b].name@);
                    }
                }
                Ok(r)
            },
            None => Err(BondingError::NotFound { name: String::from_str(bond_name) }),
        }
    }
}

// ---------------------------------------------------------------------------
// Laws
// ---------------------------------------------------------------------------

/// The healthiest member is one of the members, has a score, and no member
/// scores higher.
pub proof fn lemma_best_member_is_max(ms: Seq<Seq<char>>, h: Seq<(Seq<char>, int)>)
    ensures
        match best_member(ms, h) {
            Some((m, s)) => {
                &&& ms.contains(m)
                &&& score_of(h, m) == Some(s)
                &&& forall|i: int| 0 <= i < ms.len() && score_of(h, ms[i]) is Some ==> score_of(h, ms[i])->Some_0 <= s
            },
            None => forall|i: int| 0 <= i < ms.len() ==> score_of(h, ms[i]) is None,
        },
    decreases ms.len(),
{
    if ms.len() > 0 {
        let t = ms.drop_last();
        lemma_best_member_is_max(t, h);
        assert forall|i: int| 0 <= i < t.len() implies t[i] == ms[i] by {}
        match best_member(t, h) {
            Some((pm, ps)) => {
                let w = choose|i: int| 0 <= i < t.len() && t[i] == pm;
                assert(ms[w] == pm);
            },
            None => {},
        }
        assert(ms[ms.len() - 1] == ms.last());
    }
}

proof fn lemma_push_contains(s: Seq<Seq<char>>, e: Seq<char>, y: Seq<char>)
    ensures
        s.push(e).contains(y) <==> (s.contains(y) || e == y),
{
    let t = s.push(e);
    if t.contains(y) {
        let w = choose|i: int| 0 <= i < t.len() && t[i] == y;
        if w < s.len() {
            assert(s[w] == y);
        }
    }
    if s.contains(y) {
        let w = choose|i: int| 0 <= i < s.len() && s[i] == y;
        assert(t[w] == y);
    }
    if e == y {
        assert(t[s.len() as int] == y);
    }
}

proof fn lemma_remove_all_contains(s: Seq<Seq<char>>, x: Seq<char>, y: Seq<char>)
    ensures
        remove_all(s, x).contains(y) <==> (s.contains(y) && y != x),
    decreases s.len(),
{
    if s.len() > 0 {
        let t = s.drop_last();
        lemma_remove_all_contains(t, x, y);
        assert(t.push(s.last()) =~= s);
        lemma_push_contains(t, s.last(), y);
        if s.last() != x {
            lemma_push_contains(remove_all(t, x), s.last(), y);
        }
    }
}

/// After a failover to a new member, that member is the only active one
/// and is not on standby; it is the healthiest of the bond's members; and
/// no member of a bond with at most one active member is lost: the
/// members before and after are the same.
pub proof fn lemma_failover_keeps_members(b: BondView, h: Seq<(Seq<char>, int)>, now: int, m: Seq<char>)
    ensures
        ({
            let (b2, best) = membership_update(b, h, now);
            best is Some ==> {
                &&& b2.active == seq![best->Some_0]
                &&& !b2.standby.contains(best->Some_0)
                &&& score_of(h, best->Some_0) is Some
                &&& forall|i: int| 0 <= i < (b.standby + b.active).len() && score_of(h, (b.standby + b.active)[i]) is Some
                    ==> score_of(h, (b.standby + b.active)[i])->Some_0 <= score_of(h, best->Some_0)->Some_0
                &&& b.active.len() <= 1 ==> ((b2.active + b2.standby).contains(m) <==> (b.active + b.standby).contains(m))
            }
        }),
{
    let all = b.standby + b.active;
    lemma_best_member_is_max(all, h);
    let (b2, best) = membership_update(b, h, now);
    if let Some(x) = best {
        let prev = if b.active.len() > 0 { Some(b.active[0]) } else { None };
        let standby1 = match prev {
            Some(p) => if b.standby.contains(p) { b.standby } else { b.standby.push(p) },
            None => b.standby,
        };
        lemma_remove_all_contains(standby1, x, m);
        lemma_remove_all_contains(standby1, x, x);
        if b.active.len() <= 1 {
            let lhs = b2.active + b2.standby;
            let rhs = b.active + b.standby;
            assert(all.contains(x));
            // membership of m on each side
            assert(lhs.contains(m) <==> (m == x || b2.standby.contains(m))) by {
                if lhs.contains(m) {
                    let w = choose|i: int| 0 <= i < lhs.len() && lhs[i] == m;
                    if w >= 1 {
                        assert(b2.standby[w - 1] == m);
                    }
                }
                if m == x {
                    assert(lhs[0] == m);
                }
                if b2.standby.contains(m) {
                    let w = choose|i: int| 0 <= i < b2.standby.len() && b2.standby[i] == m;
                    assert(lhs[w + 1] == m);
                }
            }
            assert(rhs.contains(m) <==> (b.active.contains(m) || b.standby.contains(m))) by {
                if rhs.contains(m) {
                    let w = choose|i: int| 0 <= i < rhs.len() && rhs[i] == m;
                    if w < b.active.len() {
                        assert(b.active[w] == m);
                    } else {
                        assert(b.standby[w - b.active.len()] == m);
                    }
                }
                if b.active.contains(m) {
                    let w = choose|i: int| 0 <= i < b.active.len() && b.active[i] == m;
                    assert(rhs[w] == m);
                }
                if b.standby.contains(m) {
                    let w = choose|i: int| 0 <= i < b.standby.len() && b.standby[i] == m;
                    assert(rhs[w + b.active.len()] == m);
                }
            }
            assert(all.contains(x) ==> (b.active.contains(x) || b.standby.contains(x))) by {
                let w = choose|i: int| 0 <= i < all.len() && all[i] == x;
                if w < b.standby.len() {
                    assert(b.standby[w] == x);
                } else {
                    assert(b.active[w - b.standby.len()] == x);
                }
            }
            assert(standby1.contains(m) <==> (b.standby.contains(m) || (b.active.len() == 1 && m == b.active[0]))) by {
                if b.active.len() == 1 {
                    if !b.standby.contains(b.active[0]) {
                        assert(standby1 == b.standby.push(b.active[0]));
                        if standby1.contains(m) {
                            let w = choose|i: int| 0 <= i < standby1.len() && standby1[i] == m;
                            if w < b.standby.len() {
                                assert(b.standby[w] == m);
                            }
                        }
                        if b.standby.contains(m) {
                            let w = choose|i: int| 0 <= i < b.standby.len() && b.standby[i] == m;
                            assert(standby1[w] == m);
                        }
                        if m == b.active[0] {
                            assert(standby1[b.standby.len() as int] == m);
                        }
                    }
                }
            }
            assert(b.active.contains(m) <==> (b.active.len() == 1 && m == b.active[0])) by {
                if b.active.contains(m) {
                    let w = choose|i: int| 0 <= i < b.active.len() && b.active[i] == m;
                    assert(w == 0);
                }
                if b.active.len() == 1 && m == b.active[0] {
                    assert(b.active[0] == m);
                }
            }
        }
    }
}

proof fn lemma_push_no_duplicates(s: Seq<Seq<char>>, e: Seq<char>)
    requires
        s.no_duplicates(),
        !s.contains(e),
    ensures
        s.push(e).no_duplicates(),
{
    let t = s.push(e);
    assert forall|i: int, j: int| 0 <= i < t.len() && 0 <= j < t.len() && i != j implies t[i] != t[j] by {
        if i == s.len() {
            assert(s[j] == t[j]);
        } else if j == s.len() {
            assert(s[i] == t[i]);
        }
    }
}

proof fn lemma_remove_all_no_duplicates(s: Seq<Seq<char>>, x: Seq<char>)
    requires
        s.no_duplicates(),
    ensures
        remove_all(s, x).no_duplicates(),
    decreases s.len(),
{
    if s.len() > 0 {
        let t = s.drop_last();
        assert(t.no_duplicates()) by {
            assert forall|i: int, j: int| 0 <= i < t.len() && 0 <= j < t.len() && i != j implies t[i] != t[j] by {
                assert(t[i] == s[i] && t[j] == s[j]);
            }
        }
        lemma_remove_all_no_duplicates(t, x);
        if s.last() != x {
            lemma_remove_all_contains(t, x, s.last());
            if t.contains(s.last()) {
                let w = choose|i: int| 0 <= i < t.len() && t[i] == s.last();
                assert(s[w] == s[s.len() - 1]);
            }
            lemma_push_no_duplicates(remove_all(t, x), s.last());
        }
    }
}

/// A membership update never duplicates a member: a bond with at most one
/// active member and no member listed twice among its active and standby
/// members keeps it that way.
pub proof fn lemma_update_keeps_members_distinct(b: BondView, h: Seq<(Seq<char>, int)>, now: int)
    requires
        b.active.len() <= 1,
        (b.active + b.standby).no_duplicates(),
    ensures
        ({
            let b2 = membership_update(b, h, now).0;
            &&& b2.active.len() <= 1
            &&& (b2.active + b2.standby).no_duplicates()
        }),
{
    let all = b.active + b.standby;
    let (b2, best) = membership_update(b, h, now);
    if let Some(x) = best {
        let prev = if b.active.len() > 0 { Some(b.active[0]) } else { None };
        assert(b.standby.no_duplicates()) by {
            assert forall|i: int, j: int| 0 <= i < b.standby.len() && 0 <= j < b.standby.len() && i != j implies b.standby[i]
                != b.standby[j] by {
                assert(all[i + b.active.len()] == b.standby[i]);
                assert(all[j + b.active.len()] == b.standby[j]);
            }
        }
        let standby1 = match prev {
            Some(p) => if b.standby.contains(p) { b.standby } else { b.standby.push(p) },
            None => b.standby,
        };
        if let Some(p) = prev {
            if b.standby.contains(p) {
                let w = choose|i: int| 0 <= i < b.standby.len() && b.standby[i] == p;
                assert(all[w + 1] == all[0]);
            } else {
                lemma_push_no_duplicates(b.standby, p);
            }
        }
        lemma_remove_all_no_duplicates(standby1, x);
        lemma_remove_all_contains(standby1, x, x);
        let r = remove_all(standby1, x);
        let t = b2.active + b2.standby;
        assert(t =~= seq![x] + r);
        assert forall|i: int, j: int| 0 <= i < t.len() && 0 <= j < t.len() && i != j implies t[i] != t[j] by {
            if i == 0 {
                assert(t[j] == r[j - 1]);
            } else if j == 0 {
                assert(t[i] == r[i - 1]);
            } else {
                assert(t[i] == r[i - 1] && t[j] == r[j - 1]);
            }
        }
    }
}

} // verus!
