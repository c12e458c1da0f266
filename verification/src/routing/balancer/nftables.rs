//! Hash-based flow distribution with nftables: connections are marked by
//! a hash of their addresses, and each mark is routed through its own
//! table.

use vstd::prelude::*;

use crate::argv::{lit, push_lit, push_num, views};
use crate::routing::balancer::weighted::weights_view;
use crate::text::{dec, push_dec, push_str, str_eq};

verus! {

/// The highest firewall mark whose policy rule teardown removes.
pub const MAX_FLOW_MARK: u32 = 16;

/// Plans hash-based flow distribution.
#[derive(Debug, Clone, Copy)]
pub struct NftablesManager;

/// The firewall marks of the weighted interfaces that have a gateway, in
/// the order of the weight list and numbered `1..=k` without gaps.
pub open spec fn flow_marks(gw_names: Seq<Seq<char>>, w: Seq<(Seq<char>, u8)>) -> Seq<(Seq<char>, int)>
    decreases w.len(),
{
    if w.len() == 0 {
        Seq::empty()
    } else {
        let prev = flow_marks(gw_names, w.drop_last());
        if gw_names.contains(w.last().0) {
            prev.push((w.last().0, prev.len() as int + 1))
        } else {
            prev
        }
    }
}

/// The hash-based flow distribution ruleset over `n` interfaces.
pub open spec fn flow_ruleset(n: nat) -> Seq<char> {
    "# NetFusion flow-based balancing\n"@ + "table inet netfusion {\n"@ + "chain prerouting {\n"@
        + "type filter hook prerouting priority mangle; policy accept;\n"@ + "\n"@
        + "# Hash-based flow distribution\n"@ + "ct mark set jhash ip saddr ip daddr ip protocol mod "@
        + dec(n) + " offset 1\n"@ + "}\n"@ + "\n"@ + "chain output {\n"@
        + "type filter hook output priority mangle; policy accept;\n"@ + "\n"@
        + "ct mark set jhash ip saddr ip daddr ip protocol mod "@ + dec(n) + " offset 1\n"@ + "}\n"@
        + "}\n"@
}

/// The nftables ruleset and policy-rule marks for flow distribution.
pub struct FlowPlan {
    pub ruleset: String,
    pub marks: Vec<(String, u32)>,
}

pub open spec fn marks_view(m: Seq<(String, u32)>) -> Seq<(Seq<char>, int)> {
    m.map_values(|e: (String, u32)| (e.0@, e.1 as int))
}

impl NftablesManager {
    pub fn new() -> (r: Self) {
        NftablesManager
    }

    /// The flow distribution to set up: none with fewer than two gateways
    /// or fewer than two marked interfaces; otherwise the ruleset over the
    /// marked interfaces and their marks.
    pub fn plan(&self, gateways: &Vec<(String, String)>, weights: &Vec<(String, u8)>) -> (r: Option<FlowPlan>)
        requires
            weights@.len() < 0x1_0000_0000,
        ensures
            ({
                let names = gateways@.map_values(|e: (String, String)| e.0@);
                let m = flow_marks(names, weights_view(weights@));
                match r {
                    None => gateways@.len() < 2 || m.len() < 2,
                    Some(p) => gateways@.len() >= 2 && m.len() >= 2 && marks_view(p.marks@) == m && p.ruleset@
                        == flow_ruleset(m.len()),
                }
            }),
    {
        let ghost names = gateways@.map_values(|e: (String, String)| e.0@);
        if gateways.len() < 2 {
            return None;
        }
        let mut marks: Vec<(String, u32)> = Vec::new();
        let mut i: usize = 0;
        while i < weights.len()
            invariant
                i <= weights@.len(),
                weights@.len() < 0x1_0000_0000,
                names == gateways@.map_values(|e: (String, String)| e.0@),
                marks_view(marks@) == flow_marks(names, weights_view(weights@.take(i as int))),
                marks@.len() <= i,
            decreases weights.len() - i,
        {
            let ghost pre = weights_view(weights@.take(i as int));
            let ghost next = weights_view(weights@.take(i + 1));
            assert(next.drop_last() =~= pre);
            assert(next.last() == (weights@[i as int].0@, weights@[i as int].1));
            let name = &weights[i].0;
            let mut found = false;
            let mut g: usize = 0;
            while g < gateways.len()
                invariant
                    g <= gateways@.len(),
                    names == gateways@.map_values(|e: (String, String)| e.0@),
                    found == exists|k: int| 0 <= k < g && names[k] == name@,
                decreases gateways.len() - g,
            {
                assert(names[g as int] == gateways@[g as int].0@);
                if str_eq(gateways[g].0.as_str(), name.as_str()) {
                    found = true;
                }
                g = g + 1;
                assert(found == exists|k: int| 0 <= k < g && names[k] == name@) by {
                    if found && !(exists|k: int| 0 <= k < g - 1 && names[k] == name@) {
                        assert(names[g - 1] == name@);
                    }
                }
            }
            proof {
                if names.contains(name@) {
                    let k = choose|k: int| 0 <= k < names.len() && names[k] == name@;
                    assert(found);
                }
                if found {
                    let k = choose|k: int| 0 <= k < gateways@.len() && names[k] == name@;
                    assert(names.contains(name@));
                }
            }
            if found {
                let ghost old_m = marks_view(marks@);
                let mark: u32 = (marks.len() + 1) as u32;
                marks.push((name.clone(), mark));
                assert(marks_view(marks@) =~= old_m.push((name@, old_m.len() as int + 1)));
            }
            i = i + 1;
        }
        assert(weights@.take(weights@.len() as int) =~= weights@);
        if marks.len() < 2 {
            return None;
        }
        let n = marks.len() as u64;
        let mut rs = lit("# NetFusion flow-based balancing\n");
        push_str(&mut rs, "table inet netfusion {\n");
        push_str(&mut rs, "chain prerouting {\n");
        push_str(&mut rs, "type filter hook prerouting priority mangle; policy accept;\n");
        push_str(&mut rs, "\n");
        push_str(&mut rs, "# Hash-based flow distribution\n");
        push_str(&mut rs, "ct mark set jhash ip saddr ip daddr ip protocol mod ");
        push_dec(&mut rs, n);
        push_str(&mut rs, " offset 1\n");
        push_str(&mut rs, "}\n");
        push_str(&mut rs, "\n");
        push_str(&mut rs, "chain output {\n");
        push_str(&mut rs, "type filter hook output priority mangle; policy accept;\n");
        push_str(&mut rs, "\n");
        push_str(&mut rs, "ct mark set jhash ip saddr ip daddr ip protocol mod ");
        push_dec(&mut rs, n);
        push_str(&mut rs, " offset 1\n");
        push_str(&mut rs, "}\n");
        push_str(&mut rs, "}\n");
        assert(rs@ =~= flow_ruleset(marks@.len() as nat));
        Some(FlowPlan { ruleset: rs, marks })
    }

    /// `nft` arguments that delete the balancing table.
    pub fn teardown_table_args(&self) -> (args: Vec<String>)
        ensures
            views(args@) == seq!["delete"@, "table"@, "inet"@, "netfusion"@],
    {
        let mut args: Vec<String> = Vec::new();
        push_lit(&mut args, "delete");
        push_lit(&mut args, "table");
        push_lit(&mut args, "inet");
        push_lit(&mut args, "netfusion");
        args
    }

    /// `ip` arguments that route packets with firewall mark `mark` through
    /// the table of the same number.
    pub fn mark_rule_args(&self, add: bool, mark: u32) -> (args: Vec<String>)
        ensures
            views(args@) == seq!["rule"@, if add { "add"@ } else { "del"@ }, "fwmark"@, dec(mark as nat), "table"@, dec(mark as nat)],
    {
        let mut args: Vec<String> = Vec::new();
        push_lit(&mut args, "rule");
        if add {
            push_lit(&mut args, "add");
        } else {
            push_lit(&mut args, "del");
        }
        push_lit(&mut args, "fwmark");
        push_num(&mut args, mark as u64);
        push_lit(&mut args, "table");
        push_num(&mut args, mark as u64);
        args
    }
}

} // verus!
