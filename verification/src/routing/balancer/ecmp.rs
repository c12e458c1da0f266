//! Equal-cost multipath routing: several default routes of equal metric
//! so that the kernel spreads flows across interfaces.

use vstd::prelude::*;

use crate::argv::{lit, push_clone, push_lit, push_num, views};
use crate::config::{lookup, lookup_option};
use crate::error::{RoutingError, SysError, SysErrorKind};
use crate::routing::balancer::weighted::WeightedBalancer;
use crate::text::{dec_u32, dec_u8, push_str};

verus! {

/// A single ECMP route entry.
#[derive(Debug, Clone)]
pub struct EcmpRoute {
    pub gateway: String,
    pub interface: String,
    pub metric: u32,
    /// Weight of the route (1-255); higher carries more traffic.
    pub weight: u8,
}

/// Plans ECMP routing.
#[derive(Debug, Clone, Copy)]
pub struct EcmpRouter;

/// Routes as (gateway, interface, metric, weight).
pub open spec fn routes_view(rs: Seq<EcmpRoute>) -> Seq<(Seq<char>, Seq<char>, u32, u8)> {
    rs.map_values(|r: EcmpRoute| (r.gateway@, r.interface@, r.metric, r.weight))
}

/// The nexthop arguments of a list of routes, in order.
pub open spec fn nexthops(rs: Seq<EcmpRoute>) -> Seq<Seq<char>>
    decreases rs.len(),
{
    if rs.len() == 0 {
        Seq::empty()
    } else {
        let r = rs.last();
        nexthops(rs.drop_last()) + seq!["nexthop"@, "via"@, r.gateway@, "dev"@, r.interface@] + if r.weight > 1 {
            seq!["weight"@, dec_u8(r.weight)]
        } else {
            Seq::empty()
        }
    }
}

/// `ip` arguments that install the multipath default route: a plain route
/// for a single path (with its metric when positive), nexthops (with
/// weights above 1) for several.
pub open spec fn multipath_args(rs: Seq<EcmpRoute>) -> Seq<Seq<char>> {
    seq!["route"@, "replace"@, "default"@] + if rs.len() == 1 {
        seq!["via"@, rs[0].gateway@, "dev"@, rs[0].interface@] + if rs[0].metric > 0 {
            seq!["metric"@, dec_u32(rs[0].metric)]
        } else {
            Seq::empty()
        }
    } else {
        nexthops(rs)
    }
}

impl EcmpRouter {
    pub fn new() -> (r: Self) {
        EcmpRouter
    }

    /// `ip` arguments that install multipath default routing over `routes`;
    /// an error when there is no route.
    pub fn setup_args(&self, routes: &Vec<EcmpRoute>) -> (r: Result<Vec<String>, RoutingError>)
        ensures
            match r {
                Ok(args) => routes@.len() > 0 && views(args@) == multipath_args(routes@),
                Err(RoutingError::RouteModify(e)) => routes@.len() == 0 && e.kind == SysErrorKind::InvalidInput
                    && e.message@ == "no routes provided for ECMP"@,
                Err(_) => false,
            },
    {
        if routes.len() == 0 {
            return Err(
                RoutingError::RouteModify(SysError::new(SysErrorKind::InvalidInput, lit("no routes provided for ECMP"))),
            );
        }
        let mut args: Vec<String> = Vec::new();
        push_lit(&mut args, "route");
        push_lit(&mut args, "replace");
        push_lit(&mut args, "default");
        let ghost head = views(args@);
        if routes.len() == 1 {
            push_lit(&mut args, "via");
            push_clone(&mut args, &routes[0].gateway);
            push_lit(&mut args, "dev");
            push_clone(&mut args, &routes[0].interface);
            if routes[0].metric > 0 {
                push_lit(&mut args, "metric");
                push_num(&mut args, u64::from(routes[0].metric));
            }
        } else {
            // `done` counts the routes already emitted, as an `int`.
            let ghost mut done: int = 0;
            let mut i: usize = 0;
            while i < routes.len()
                invariant
                    done == i,
                    i <= routes@.len(),
                    routes@.len() > 1,
                    views(args@) == head + nexthops(routes@.take(done)),
                decreases routes.len() - i,
            {
                assert(routes@.take(done + 1).drop_last() =~= routes@.take(done));
                assert(routes@.take(done + 1).last() == routes@[done]);
                push_lit(&mut args, "nexthop");
                push_lit(&mut args, "via");
                push_clone(&mut args, &routes[i].gateway);
                push_lit(&mut args, "dev");
                push_clone(&mut args, &routes[i].interface);
                if routes[i].weight > 1 {
                    push_lit(&mut args, "weight");
                    push_num(&mut args, u64::from(routes[i].weight));
                }
                i = i + 1;
                proof {
                    done = done + 1;
                }
                assert(views(args@) =~= head + nexthops(routes@.take(done)));
            }
            assert(routes@.take(done) =~= routes@);
        }
        assert(views(args@) =~= multipath_args(routes@));
        Ok(args)
    }

    /// `ip` arguments that delete one ECMP default route.
    pub fn teardown_args(&self, route: &EcmpRoute) -> (args: Vec<String>)
        ensures
            views(args@) == seq!["route"@, "del"@, "default"@, "via"@, route.gateway@, "dev"@, route.interface@],
    {
        let mut args: Vec<String> = Vec::new();
        push_lit(&mut args, "route");
        push_lit(&mut args, "del");
        push_lit(&mut args, "default");
        push_lit(&mut args, "via");
        push_clone(&mut args, &route.gateway);
        push_lit(&mut args, "dev");
        push_clone(&mut args, &route.interface);
        args
    }

    /// The error reported when `ip route` fails.
    pub fn setup_failure(&self, stderr: &str) -> (e: RoutingError)
        ensures
            e matches RoutingError::RouteModify(s) && s.kind == SysErrorKind::Other && s.message@
                == "ip route failed: "@ + stderr@,
    {
        let mut m = lit("ip route failed: ");
        push_str(&mut m, stderr);
        RoutingError::RouteModify(SysError::new(SysErrorKind::Other, m))
    }
}

/// The routes over weighted interfaces: for each weighted interface, in
/// order, that has a gateway, a route through its first gateway with
/// metric 100 and the interface's weight.
pub open spec fn routes_spec(w: Seq<(Seq<char>, u8)>, g: Seq<(String, String)>) -> Seq<(Seq<char>, Seq<char>, u32, u8)>
    decreases w.len(),
{
    if w.len() == 0 {
        Seq::empty()
    } else {
        let prev = routes_spec(w.drop_last(), g);
        match lookup(g, w.last().0) {
            Some(gw) => prev.push((gw, w.last().0, 100u32, w.last().1)),
            None => prev,
        }
    }
}

// Route generation stands beside the route type it builds.
impl WeightedBalancer {
    /// ECMP routes for the weighted interfaces that have a gateway (the
    /// first one listed), in weight order, with metric 100 and their weight.
    pub fn generate_routes(&self, gateways: &Vec<(String, String)>) -> (rs: Vec<EcmpRoute>)
        ensures
            routes_view(rs@) == routes_spec(self.weights_view(), gateways@),
    {
        let weights = self.weights();
        let ghost w = self.weights_view();
        let mut rs: Vec<EcmpRoute> = Vec::new();
        let ghost mut done: int = 0;
        let mut i: usize = 0;
        while i < weights.len()
            invariant
                done == i,
                i <= weights@.len(),
                w == crate::routing::balancer::weighted::weights_view(weights@),
                routes_view(rs@) == routes_spec(w.take(done), gateways@),
            decreases weights.len() - i,
        {
            assert(w.take(done + 1).drop_last() =~= w.take(done));
            assert(w.take(done + 1).last() == w[done]);
            let name = &weights[i].0;
            match lookup_option(gateways, name.as_str()) {
                Some(gw) => {
                    let r = EcmpRoute { gateway: gw.clone(), interface: name.clone(), metric: 100, weight: weights[i].1 };
                    let ghost old_r = routes_view(rs@);
                    rs.push(r);
                    assert(routes_view(rs@) =~= old_r.push((gw@, name@, 100u32, weights@[done].1)));
                },
                None => {},
            }
            i = i + 1;
            proof {
                done = done + 1;
            }
        }
        assert(w.take(done) =~= w);
        rs
    }
}

} // verus!
