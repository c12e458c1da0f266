//! Route and policy-rule management: the `ip` invocations, and the ledger
//! of routes the daemon added (kept for rollback).

use vstd::prelude::*;

use crate::argv::{lit, push_lit, push_num, views};
use crate::text::{dec, dec_string, str_eq};

verus! {

/// A route entry managed by the daemon.
#[derive(Debug, Clone)]
pub struct ManagedRoute {
    pub destination: Option<String>,
    pub gateway: String,
    pub interface: String,
    pub metric: u32,
    pub table: Option<u32>,
}

/// Two routes are the same default route: same gateway, interface and
/// metric.
pub open spec fn same_route(a: ManagedRoute, b: ManagedRoute) -> bool {
    a.gateway@ == b.gateway@ && a.interface@ == b.interface@ && a.metric == b.metric
}

/// The route matches `(gateway, interface, metric)`.
pub open spec fn route_is(r: ManagedRoute, gw: Seq<char>, iface: Seq<char>, metric: u32) -> bool {
    r.gateway@ == gw && r.interface@ == iface && r.metric == metric
}

/// The routes of `s` that do not match `(gw, iface, metric)`.
pub open spec fn without_route(s: Seq<ManagedRoute>, gw: Seq<char>, iface: Seq<char>, metric: u32) -> Seq<ManagedRoute>
    decreases s.len(),
{
    if s.len() == 0 {
        Seq::empty()
    } else if route_is(s.last(), gw, iface, metric) {
        without_route(s.drop_last(), gw, iface, metric)
    } else {
        without_route(s.drop_last(), gw, iface, metric).push(s.last())
    }
}

/// The routes of `current` that match no route of `previous`. Against the
/// snapshot as `previous` these are the routes a rollback removes; with the
/// two swapped, the snapshot's routes that a rollback adds again.
pub open spec fn added_since(current: Seq<ManagedRoute>, previous: Seq<ManagedRoute>) -> Seq<ManagedRoute>
    decreases current.len(),
{
    if current.len() == 0 {
        Seq::empty()
    } else {
        let rest = added_since(current.drop_last(), previous);
        if exists|j: int| 0 <= j < previous.len() && same_route(previous[j], current.last()) {
            rest
        } else {
            rest.push(current.last())
        }
    }
}

fn route_matches(r: &ManagedRoute, gw: &str, iface: &str, metric: u32) -> (b: bool)
    ensures
        b == route_is(*r, gw@, iface@, metric),
{
    str_eq(r.gateway.as_str(), gw) && str_eq(r.interface.as_str(), iface) && r.metric == metric
}

fn copy_route(r: &ManagedRoute) -> (c: ManagedRoute)
    ensures
        c == *r,
{
    ManagedRoute {
        destination: match &r.destination {
            Some(d) => Some(d.clone()),
            None => None,
        },
        gateway: r.gateway.clone(),
        interface: r.interface.clone(),
        metric: r.metric,
        table: r.table,
    }
}

/// The routes a rollback removes: those in `current` that match no route
/// in `previous` by gateway, interface and metric, in order.
pub fn routes_to_roll_back(current: &Vec<ManagedRoute>, previous: &Vec<ManagedRoute>) -> (r: Vec<ManagedRoute>)
    ensures
        r@ == added_since(current@, previous@),
{
    let mut r: Vec<ManagedRoute> = Vec::new();
    let mut i: usize = 0;
    while i < current.len()
        invariant
            i <= current@.len(),
            r@ == added_since(current@.subrange(0, i as int), previous@),
        decreases current.len() - i,
    {
        let ghost pre = current@.subrange(0, i as int);
        let ghost next = current@.subrange(0, i + 1);
        assert(next.drop_last() =~= pre);
        assert(next.last() == current@[i as int]);
        let c = &current[i];
        let mut found = false;
        let mut j: usize = 0;
        while j < previous.len()
            invariant
                j <= previous@.len(),
                c == current@[i as int],
                found == exists|k: int| 0 <= k < j && same_route(previous@[k], *c),
            decreases previous.len() - j,
        {
            let p = &previous[j];
            if str_eq(p.gateway.as_str(), c.gateway.as_str()) && str_eq(p.interface.as_str(), c.interface.as_str())
                && p.metric == c.metric {
                found = true;
            }
            j = j + 1;
        }
        if !found {
            r.push(copy_route(c));
        }
        i = i + 1;
    }
    assert(current@.subrange(0, current@.len() as int) =~= current@);
    r
}

/// Every route a rollback removes was added since the snapshot, and every
/// route added since the snapshot is removed.
pub proof fn lemma_rollback_exact(current: Seq<ManagedRoute>, previous: Seq<ManagedRoute>, x: ManagedRoute)
    ensures
        added_since(current, previous).contains(x) <==> (current.contains(x) && !(exists|j: int|
            0 <= j < previous.len() && same_route(previous[j], x))),
    decreases current.len(),
{
    if current.len() > 0 {
        let t = current.drop_last();
        lemma_rollback_exact(t, previous, x);
        let rest = added_since(t, previous);
        assert(t.push(current.last()) =~= current);
        assert(current.contains(x) <==> (t.contains(x) || current.last() == x)) by {
            if current.contains(x) {
                let w = choose|i: int| 0 <= i < current.len() && current[i] == x;
                if w < t.len() {
                    assert(t[w] == x);
                }
            }
            if t.contains(x) {
                let w = choose|i: int| 0 <= i < t.len() && t[i] == x;
                assert(current[w] == x);
            }
            if current.last() == x {
                assert(current[current.len() - 1] == x);
            }
        }
        let pushed = rest.push(current.last());
        assert(pushed.contains(x) <==> (rest.contains(x) || current.last() == x)) by {
            if pushed.contains(x) {
                let w = choose|i: int| 0 <= i < pushed.len() && pushed[i] == x;
                if w < rest.len() {
                    assert(rest[w] == x);
                }
            }
            if rest.contains(x) {
                let w = choose|i: int| 0 <= i < rest.len() && rest[i] == x;
                assert(pushed[w] == x);
            }
            if current.last() == x {
                assert(pushed[rest.len() as int] == x);
            }
        }
    }
}

/// The routes a rollback adds again: those in `previous` (the snapshot)
/// that match no route in `current` by gateway, interface and metric, in
/// the snapshot's order.
pub fn routes_to_restore(current: &Vec<ManagedRoute>, previous: &Vec<ManagedRoute>) -> (r: Vec<ManagedRoute>)
    ensures
        r@ == added_since(previous@, current@),
{
    routes_to_roll_back(previous, current)
}

/// The gateway, interface and metric that identify a default route.
pub open spec fn route_key(r: ManagedRoute) -> (Seq<char>, Seq<char>, u32) {
    (r.gateway@, r.interface@, r.metric)
}

/// The keys of the routes of `s`.
pub open spec fn route_keys(s: Seq<ManagedRoute>) -> Set<(Seq<char>, Seq<char>, u32)> {
    Set::new(|k: (Seq<char>, Seq<char>, u32)| exists|i: int| 0 <= i < s.len() && route_key(s[i]) == k)
}

/// The recorded routes `s` after forgetting each route of `rs` in turn.
pub open spec fn forget_all(s: Seq<ManagedRoute>, rs: Seq<ManagedRoute>) -> Seq<ManagedRoute>
    decreases rs.len(),
{
    if rs.len() == 0 {
        s
    } else {
        let r = rs.last();
        without_route(forget_all(s, rs.drop_last()), r.gateway@, r.interface@, r.metric)
    }
}

proof fn lemma_keys_push(s: Seq<ManagedRoute>, x: ManagedRoute)
    ensures
        route_keys(s.push(x)) == route_keys(s).insert(route_key(x)),
{
    let t = s.push(x);
    assert forall|k: (Seq<char>, Seq<char>, u32)| route_keys(t).contains(k) implies route_keys(s).insert(
        route_key(x),
    ).contains(k) by {
        let i = choose|i: int| 0 <= i < t.len() && route_key(t[i]) == k;
        if i < s.len() {
            assert(route_key(s[i]) == k);
        }
    }
    assert forall|k: (Seq<char>, Seq<char>, u32)| route_keys(s).insert(route_key(x)).contains(k) implies route_keys(
        t,
    ).contains(k) by {
        if k == route_key(x) {
            assert(route_key(t[s.len() as int]) == k);
        } else {
            let i = choose|i: int| 0 <= i < s.len() && route_key(s[i]) == k;
            assert(route_key(t[i]) == k);
        }
    }
    assert(route_keys(t) =~= route_keys(s).insert(route_key(x)));
}

proof fn lemma_keys_concat(a: Seq<ManagedRoute>, b: Seq<ManagedRoute>)
    ensures
        route_keys(a + b) == route_keys(a).union(route_keys(b)),
    decreases b.len(),
{
    if b.len() == 0 {
        assert(a + b =~= a);
        assert(route_keys(b) =~= Set::empty());
        assert(route_keys(a).union(route_keys(b)) =~= route_keys(a));
    } else {
        let c = b.drop_last();
        lemma_keys_concat(a, c);
        assert(a + b =~= (a + c).push(b.last()));
        assert(b =~= c.push(b.last()));
        lemma_keys_push(a + c, b.last());
        lemma_keys_push(c, b.last());
        assert(route_keys(a + b) =~= route_keys(a).union(route_keys(b)));
    }
}

proof fn lemma_without_route_keys(s: Seq<ManagedRoute>, gw: Seq<char>, iface: Seq<char>, metric: u32)
    ensures
        route_keys(without_route(s, gw, iface, metric)) == route_keys(s).remove((gw, iface, metric)),
    decreases s.len(),
{
    if s.len() == 0 {
        assert(route_keys(s) =~= Set::empty());
        assert(route_keys(without_route(s, gw, iface, metric)) =~= Set::empty());
        assert(route_keys(s).remove((gw, iface, metric)) =~= Set::empty());
    } else {
        let t = s.drop_last();
        lemma_without_route_keys(t, gw, iface, metric);
        assert(s =~= t.push(s.last()));
        lemma_keys_push(t, s.last());
        if !route_is(s.last(), gw, iface, metric) {
            lemma_keys_push(without_route(t, gw, iface, metric), s.last());
        }
        assert(route_keys(without_route(s, gw, iface, metric)) =~= route_keys(s).remove((gw, iface, metric)));
    }
}

proof fn lemma_forget_all_keys(s: Seq<ManagedRoute>, rs: Seq<ManagedRoute>)
    ensures
        route_keys(forget_all(s, rs)) == route_keys(s).difference(route_keys(rs)),
    decreases rs.len(),
{
    if rs.len() == 0 {
        assert(route_keys(rs) =~= Set::empty());
        assert(route_keys(s).difference(route_keys(rs)) =~= route_keys(s));
    } else {
        let q = rs.drop_last();
        let r = rs.last();
        lemma_forget_all_keys(s, q);
        lemma_without_route_keys(forget_all(s, q), r.gateway@, r.interface@, r.metric);
        assert(rs =~= q.push(r));
        lemma_keys_push(q, r);
        assert(route_keys(forget_all(s, rs)) =~= route_keys(s).difference(route_keys(rs)));
    }
}

proof fn lemma_added_since_keys(a: Seq<ManagedRoute>, b: Seq<ManagedRoute>)
    ensures
        route_keys(added_since(a, b)) == route_keys(a).difference(route_keys(b)),
    decreases a.len(),
{
    if a.len() == 0 {
        assert(route_keys(a) =~= Set::empty());
        assert(route_keys(added_since(a, b)) =~= Set::empty());
        assert(route_keys(a).difference(route_keys(b)) =~= Set::empty());
    } else {
        let t = a.drop_last();
        let x = a.last();
        lemma_added_since_keys(t, b);
        assert(a =~= t.push(x));
        lemma_keys_push(t, x);
        let matched = exists|j: int| 0 <= j < b.len() && same_route(b[j], x);
        assert(matched <==> route_keys(b).contains(route_key(x))) by {
            if matched {
                let j = choose|j: int| 0 <= j < b.len() && same_route(b[j], x);
                assert(route_key(b[j]) == route_key(x));
            }
            if route_keys(b).contains(route_key(x)) {
                let j = choose|j: int| 0 <= j < b.len() && route_key(b[j]) == route_key(x);
                assert(same_route(b[j], x));
            }
        }
        if !matched {
            lemma_keys_push(added_since(t, b), x);
        }
        assert(route_keys(added_since(a, b)) =~= route_keys(a).difference(route_keys(b)));
    }
}

/// A rollback returns the ledger to its snapshot: from the routes
/// `current` recorded when the rollback starts, forgetting each route that
/// `routes_to_roll_back` names and then recording again each route that
/// `routes_to_restore` names (`readded`, as `record_default_route` records
/// them) leaves exactly the routes of the snapshot `previous`, by gateway,
/// interface and metric, whatever the changes in between added or deleted.
pub proof fn lemma_rollback_restores_snapshot(
    current: Seq<ManagedRoute>,
    previous: Seq<ManagedRoute>,
    readded: Seq<ManagedRoute>,
)
    requires
        readded.len() == added_since(previous, current).len(),
        forall|i: int|
            0 <= i < readded.len() ==> {
                let r = #[trigger] added_since(previous, current)[i];
                route_is(readded[i], r.gateway@, r.interface@, r.metric)
            },
    ensures
        route_keys(forget_all(current, added_since(current, previous)) + readded) == route_keys(previous),
{
    let restore = added_since(previous, current);
    lemma_keys_concat(forget_all(current, added_since(current, previous)), readded);
    lemma_forget_all_keys(current, added_since(current, previous));
    lemma_added_since_keys(current, previous);
    lemma_added_since_keys(previous, current);
    assert(route_keys(readded) =~= route_keys(restore)) by {
        assert forall|k: (Seq<char>, Seq<char>, u32)| route_keys(readded).contains(k) implies route_keys(
            restore,
        ).contains(k) by {
            let i = choose|i: int| 0 <= i < readded.len() && route_key(readded[i]) == k;
            assert(route_key(restore[i]) == k);
        }
        assert forall|k: (Seq<char>, Seq<char>, u32)| route_keys(restore).contains(k) implies route_keys(
            readded,
        ).contains(k) by {
            let i = choose|i: int| 0 <= i < restore.len() && route_key(restore[i]) == k;
            assert(route_key(readded[i]) == k);
        }
    }
    assert(route_keys(forget_all(current, added_since(current, previous)) + readded) =~= route_keys(previous));
}

/// The routes added by the daemon, for rollback.
pub struct RouteLedger {
    managed_routes: Vec<ManagedRoute>,
}

impl RouteLedger {
    /// The recorded routes, oldest first.
    pub closed spec fn routes(&self) -> Seq<ManagedRoute> {
        self.managed_routes@
    }

    /// An empty ledger.
    pub fn new() -> (l: Self)
        ensures
            l.routes().len() == 0,
    {
        RouteLedger { managed_routes: Vec::new() }
    }

    /// The recorded routes.
    pub fn managed_routes(&self) -> (r: &Vec<ManagedRoute>)
        ensures
            r@ == self.routes(),
    {
        &self.managed_routes
    }

    /// Records a default route (destination 0.0.0.0/0) that was added.
    pub fn record_default_route(&mut self, gateway: &str, interface: &str, metric: u32)
        ensures
            final(self).routes().len() == old(self).routes().len() + 1,
            final(self).routes().drop_last() == old(self).routes(),
            ({
                let r = final(self).routes().last();
                &&& route_is(r, gateway@, interface@, metric)
                &&& r.destination matches Some(d) && d@ == "0.0.0.0/0"@
                &&& r.table is None
            }),
    {
        self.managed_routes.push(ManagedRoute {
            destination: Some(String::from_str("0.0.0.0/0")),
            gateway: String::from_str(gateway),
            interface: String::from_str(interface),
            metric,
            table: None,
        });
        assert(self.managed_routes@.drop_last() =~= old(self).managed_routes@);
    }

    /// Forgets every recorded route with this gateway, interface and
    /// metric (after it was deleted).
    pub fn forget_default_route(&mut self, gateway: &str, interface: &str, metric: u32)
        ensures
            final(self).routes() == without_route(old(self).routes(), gateway@, interface@, metric),
    {
        let mut kept: Vec<ManagedRoute> = Vec::new();
        let mut i: usize = 0;
        while i < self.managed_routes.len()
            invariant
                i <= self.managed_routes@.len(),
                self.managed_routes@ == old(self).managed_routes@,
                kept@ == without_route(self.managed_routes@.subrange(0, i as int), gateway@, interface@, metric),
            decreases self.managed_routes.len() - i,
        {
            let ghost pre = self.managed_routes@.subrange(0, i as int);
            let ghost next = self.managed_routes@.subrange(0, i + 1);
            assert(next.drop_last() =~= pre);
            assert(next.last() == self.managed_routes@[i as int]);
            if !route_matches(&self.managed_routes[i], gateway, interface, metric) {
                kept.push(copy_route(&self.managed_routes[i]));
            }
            i = i + 1;
        }
        assert(self.managed_routes@.subrange(0, self.managed_routes@.len() as int) =~= self.managed_routes@);
        self.managed_routes = kept;
    }

    /// Forgets all recorded routes (after a commit).
    pub fn clear_managed_routes(&mut self)
        ensures
            final(self).routes().len() == 0,
    {
        self.managed_routes = Vec::new();
    }
}

/// `ip` arguments that delete a default route.
pub fn del_default_route_args(gateway: &str, interface: &str, metric: u32) -> (args: Vec<String>)
    ensures
        views(args@) == seq![
            "route"@,
            "del"@,
            "default"@,
            "via"@,
            gateway@,
            "dev"@,
            interface@,
            "metric"@,
            dec(metric as nat),
        ],
{
    let mut args: Vec<String> = Vec::new();
    push_lit(&mut args, "route");
    push_lit(&mut args, "del");
    push_lit(&mut args, "default");
    push_lit(&mut args, "via");
    push_lit(&mut args, gateway);
    push_lit(&mut args, "dev");
    push_lit(&mut args, interface);
    push_lit(&mut args, "metric");
    push_num(&mut args, metric as u64);
    args
}

/// `ip` arguments that add a policy rule: the firewall mark match (if
/// any) comes before the priority and table.
pub fn add_rule_args(priority: u32, fwmark: Option<u32>, table: u32) -> (args: Vec<String>)
    ensures
        views(args@) == seq!["rule"@, "add"@] + match fwmark {
            Some(m) => seq!["fwmark"@, dec(m as nat)],
            None => Seq::empty(),
        } + seq!["prio"@, dec(priority as nat), "table"@, dec(table as nat)],
{
    let mut args: Vec<String> = Vec::new();
    push_lit(&mut args, "rule");
    push_lit(&mut args, "add");
    match fwmark {
        Some(m) => {
            push_lit(&mut args, "fwmark");
            push_num(&mut args, m as u64);
        },
        None => {},
    }
    push_lit(&mut args, "prio");
    push_num(&mut args, priority as u64);
    push_lit(&mut args, "table");
    push_num(&mut args, table as u64);
    args
}

/// `ip` arguments that delete a policy rule.
pub fn del_rule_args(priority: u32, table: u32) -> (args: Vec<String>)
    ensures
        views(args@) == seq!["rule"@, "del"@, "prio"@, dec(priority as nat), "table"@, dec(table as nat)],
{
    let mut args: Vec<String> = Vec::new();
    push_lit(&mut args, "rule");
    push_lit(&mut args, "del");
    push_lit(&mut args, "prio");
    push_num(&mut args, priority as u64);
    push_lit(&mut args, "table");
    push_num(&mut args, table as u64);
    args
}

} // verus!
