//! DSCP (Differentiated Services Code Point) classification and the
//! nftables script that tags outgoing traffic.

use vstd::prelude::*;

use crate::argv::{lit, push_lit, views};
use crate::error::CoreError;
use crate::text::{dec, push_dec, push_str, seq_contains, str_contains};

verus! {

/// DSCP traffic classes aligned with RFC 2474 / RFC 4594.
#[derive(Debug, Clone, Copy, PartialEq, Eq, Structural)]
pub enum DscpClass {
    /// Low-latency data (voice, video): EF (46).
    Realtime,
    /// Interactive data (gaming, remote desktop): AF41 (34).
    Interactive,
    /// Streaming media: AF31 (26).
    Streaming,
    /// Bulk data (downloads, backups): AF21 (18).
    Bulk,
    /// Standard best effort: CS0 (0).
    BestEffort,
    /// Background / scavenger: CS1 (8).
    Background,
}

/// The DSCP code point of a class.
pub open spec fn dscp_value(c: DscpClass) -> u8 {
    match c {
        DscpClass::Realtime => 46,
        DscpClass::Interactive => 34,
        DscpClass::Streaming => 26,
        DscpClass::Bulk => 18,
        DscpClass::BestEffort => 0,
        DscpClass::Background => 8,
    }
}

impl Default for DscpClass {
    fn default() -> (r: Self)
        ensures
            r == DscpClass::BestEffort,
    {
        DscpClass::BestEffort
    }
}

impl DscpClass {
    /// The DSCP value (0-63).
    pub fn value(self) -> (v: u8)
        ensures
            v == dscp_value(self),
            v < 64,
    {
        match self {
            DscpClass::Realtime => 46,
            DscpClass::Interactive => 34,
            DscpClass::Streaming => 26,
            DscpClass::Bulk => 18,
            DscpClass::BestEffort => 0,
            DscpClass::Background => 8,
        }
    }

    /// The per-hop behaviour name of the class.
    pub fn name(self) -> (s: &'static str)
        ensures
            s@ == match self {
                DscpClass::Realtime => "EF"@,
                DscpClass::Interactive => "AF41"@,
                DscpClass::Streaming => "AF31"@,
                DscpClass::Bulk => "AF21"@,
                DscpClass::BestEffort => "CS0"@,
                DscpClass::Background => "CS1"@,
            },
    {
        match self {
            DscpClass::Realtime => "EF",
            DscpClass::Interactive => "AF41",
            DscpClass::Streaming => "AF31",
            DscpClass::Bulk => "AF21",
            DscpClass::BestEffort => "CS0",
            DscpClass::Background => "CS1",
        }
    }
}

/// A single traffic classification rule.
#[derive(Debug, Clone, Copy)]
pub struct TrafficRule {
    pub protocol: &'static str,
    pub dport: Option<u16>,
    pub dport_range: Option<(u16, u16)>,
    pub class: DscpClass,
    pub description: &'static str,
}

impl Default for TrafficRule {
    fn default() -> (r: Self)
        ensures
            r.protocol@ == ""@,
            r.dport is None,
            r.dport_range is None,
            r.class == DscpClass::BestEffort,
            r.description@ == ""@,
    {
        TrafficRule {
            protocol: "",
            dport: None,
            dport_range: None,
            class: DscpClass::BestEffort,
            description: "",
        }
    }
}

/// `r` is the rule `(protocol, dport, dport_range, class, description)`.
pub open spec fn rule_is(
    r: TrafficRule,
    protocol: Seq<char>,
    dport: Option<u16>,
    range: Option<(u16, u16)>,
    class: DscpClass,
    description: Seq<char>,
) -> bool {
    &&& r.protocol@ == protocol
    &&& r.dport == dport
    &&& r.dport_range == range
    &&& r.class == class
    &&& r.description@ == description
}

/// The built-in classification table, in order.
pub open spec fn default_rules_spec(rs: Seq<TrafficRule>) -> bool {
    &&& rs.len() == 8
    &&& rule_is(rs[0], "udp"@, Some(5060), None, DscpClass::Realtime, "SIP signaling"@)
    &&& rule_is(rs[1], "udp"@, None, Some((16384, 32768)), DscpClass::Realtime, "RTP media"@)
    &&& rule_is(rs[2], "udp"@, None, Some((27000, 27100)), DscpClass::Interactive, "Steam gaming"@)
    &&& rule_is(rs[3], "tcp"@, None, Some((1935, 1935)), DscpClass::Streaming, "RTMP streaming"@)
    &&& rule_is(rs[4], "udp"@, Some(53), None, DscpClass::Interactive, "DNS resolution"@)
    &&& rule_is(rs[5], "tcp"@, Some(53), None, DscpClass::Interactive, "DNS over TCP"@)
    &&& rule_is(rs[6], "tcp"@, Some(443), None, DscpClass::BestEffort, "HTTPS traffic"@)
    &&& rule_is(rs[7], "tcp"@, Some(80), None, DscpClass::Bulk, "HTTP traffic"@)
}

fn port_rule(
    protocol: &'static str,
    port: u16,
    class: DscpClass,
    description: &'static str,
) -> (r: TrafficRule)
    ensures
        rule_is(r, protocol@, Some(port), None, class, description@),
{
    TrafficRule { protocol, dport: Some(port), dport_range: None, class, description }
}

fn range_rule(
    protocol: &'static str,
    start: u16,
    end: u16,
    class: DscpClass,
    description: &'static str,
) -> (r: TrafficRule)
    ensures
        rule_is(r, protocol@, None, Some((start, end)), class, description@),
{
    TrafficRule { protocol, dport: None, dport_range: Some((start, end)), class, description }
}

/// The default traffic classification rules: SIP and RTP as real-time,
/// Steam gaming and DNS as interactive, RTMP as streaming, HTTPS as best
/// effort and HTTP as bulk.
pub fn default_classification_rules() -> (v: Vec<TrafficRule>)
    ensures
        default_rules_spec(v@),
{
    let mut v: Vec<TrafficRule> = Vec::new();
    v.push(port_rule("udp", 5060, DscpClass::Realtime, "SIP signaling"));
    v.push(range_rule("udp", 16384, 32768, DscpClass::Realtime, "RTP media"));
    v.push(range_rule("udp", 27000, 27100, DscpClass::Interactive, "Steam gaming"));
    v.push(range_rule("tcp", 1935, 1935, DscpClass::Streaming, "RTMP streaming"));
    v.push(port_rule("udp", 53, DscpClass::Interactive, "DNS resolution"));
    v.push(port_rule("tcp", 53, DscpClass::Interactive, "DNS over TCP"));
    v.push(port_rule("tcp", 443, DscpClass::BestEffort, "HTTPS traffic"));
    v.push(port_rule("tcp", 80, DscpClass::Bulk, "HTTP traffic"));
    v
}

/// The opening of the tagging script: shebang, comment, table and chain.
pub open spec fn script_header() -> Seq<char> {
    "#!/usr/sbin/nft -f\n"@ + "# NetFusion DSCP tagging rules\n\n"@ + "table inet netfusion {\n"@
        + "  chain dscp_tagger {\n"@ + "    type filter hook output priority 0; policy accept;\n\n"@
}

/// The closing of the tagging script.
pub open spec fn script_footer() -> Seq<char> {
    "  }\n"@ + "}\n"@
}

/// The port match of a rule: a single port, else a range, else nothing.
pub open spec fn port_match(r: TrafficRule) -> Seq<char> {
    match r.dport {
        Some(p) => "dport "@ + dec(p as nat) + " "@,
        None => match r.dport_range {
            Some((a, b)) => "dport "@ + dec(a as nat) + "-"@ + dec(b as nat) + " "@,
            None => Seq::empty(),
        },
    }
}

/// The script line of one rule: its protocol's port match, then the DSCP
/// value to set, with the description as a comment.
pub open spec fn rule_line(r: TrafficRule) -> Seq<char> {
    "    "@ + r.protocol@ + " "@ + port_match(r) + "ip dscp set "@ + dec(dscp_value(r.class) as nat) + " # "@
        + r.description@ + "\n"@
}

/// The lines of a list of rules, in order.
pub open spec fn rule_lines(rs: Seq<TrafficRule>) -> Seq<char>
    decreases rs.len(),
{
    if rs.len() == 0 {
        Seq::empty()
    } else {
        rule_lines(rs.drop_last()) + rule_line(rs.last())
    }
}

/// The whole tagging script for a list of rules.
pub open spec fn nftables_script(rs: Seq<TrafficRule>) -> Seq<char> {
    script_header() + rule_lines(rs) + script_footer()
}

fn push_rule_line(s: &mut String, r: &TrafficRule)
    ensures
        final(s)@ == old(s)@ + rule_line(*r),
{
    let ghost s0 = s@;
    push_str(s, "    ");
    push_str(s, r.protocol);
    push_str(s, " ");
    let ghost s1 = s@;
    match r.dport {
        Some(port) => {
            push_str(s, "dport ");
            push_dec(s, port as u64);
            push_str(s, " ");
        },
        None => match r.dport_range {
            Some((start, end)) => {
                push_str(s, "dport ");
                push_dec(s, start as u64);
                push_str(s, "-");
                push_dec(s, end as u64);
                push_str(s, " ");
            },
            None => {},
        },
    }
    assert(s@ =~= s1 + port_match(*r));
    push_str(s, "ip dscp set ");
    push_dec(s, r.class.value() as u64);
    push_str(s, " # ");
    push_str(s, r.description);
    push_str(s, "\n");
    assert(s@ =~= s0 + rule_line(*r));
}

/// Generates the nftables script that tags each rule's traffic with its
/// class's DSCP value, ready to be loaded with `nft -f`.
pub fn generate_nftables_rules(_interface: &str, rules: &[TrafficRule]) -> (script: String)
    ensures
        script@ == nftables_script(rules@),
{
    let mut script = String::new();
    push_str(&mut script, "#!/usr/sbin/nft -f\n");
    push_str(&mut script, "# NetFusion DSCP tagging rules\n\n");
    push_str(&mut script, "table inet netfusion {\n");
    push_str(&mut script, "  chain dscp_tagger {\n");
    push_str(&mut script, "    type filter hook output priority 0; policy accept;\n\n");
    assert(script@ =~= script_header());
    let mut i: usize = 0;
    while i < rules.len()
        invariant
            i <= rules@.len(),
            script@ == script_header() + rule_lines(rules@.subrange(0, i as int)),
        decreases rules.len() - i,
    {
        push_rule_line(&mut script, &rules[i]);
        proof {
            let pre = rules@.subrange(0, i as int);
            let next = rules@.subrange(0, i + 1);
            assert(next.drop_last() =~= pre);
            assert(next.last() == rules@[i as int]);
        }
        i = i + 1;
        assert(script@ =~= script_header() + rule_lines(rules@.subrange(0, i as int)));
    }
    assert(rules@.subrange(0, rules@.len() as int) =~= rules@);
    push_str(&mut script, "  }\n");
    push_str(&mut script, "}\n");
    assert(script@ =~= nftables_script(rules@));
    script
}

/// The file the tagging script is written to before `nft -f` loads it.
pub fn dscp_script_path(interface: &str) -> (p: String)
    ensures
        p@ == "/tmp/netfusion_dscp_"@ + interface@ + ".nft"@,
{
    let mut p = lit("/tmp/netfusion_dscp_");
    push_str(&mut p, interface);
    push_str(&mut p, ".nft");
    p
}

/// The error when `nft` rejects the tagging script.
pub fn apply_dscp_failure(interface: &str, stderr: &str) -> (e: CoreError)
    ensures
        e matches CoreError::Internal(m) && m@ == "Failed to apply DSCP rules on "@ + interface@ + ": "@ + stderr@,
{
    let mut m = lit("Failed to apply DSCP rules on ");
    push_str(&mut m, interface);
    push_str(&mut m, ": ");
    push_str(&mut m, stderr);
    CoreError::Internal(m)
}

/// `nft` arguments that delete the tagging table.
pub fn remove_dscp_args() -> (args: Vec<String>)
    ensures
        views(args@) == seq!["delete"@, "table"@, "inet"@, "netfusion"@],
{
    let mut args: Vec<String> = Vec::new();
    push_lit(&mut args, "delete");
    push_lit(&mut args, "table");
    push_lit(&mut args, "inet");
    push_lit(&mut args, "netfusion");
    args
}

/// Whether a failed table deletion only means the table was not there.
pub fn removal_failure_is_benign(stderr: &str) -> (b: bool)
    ensures
        b == seq_contains(stderr@, "No such file"@),
{
    str_contains(stderr, "No such file")
}

/// `sysctl` arguments that enable ECN for TCP.
pub fn enable_ecn_args() -> (args: Vec<String>)
    ensures
        views(args@) == seq!["-w"@, "net.ipv4.tcp_ecn=2"@],
{
    let mut args: Vec<String> = Vec::new();
    push_lit(&mut args, "-w");
    push_lit(&mut args, "net.ipv4.tcp_ecn=2");
    args
}

/// The error when `sysctl` fails to enable ECN.
pub fn enable_ecn_failure(stderr: &str) -> (e: CoreError)
    ensures
        e matches CoreError::Internal(m) && m@ == "Failed to enable ECN: "@ + stderr@,
{
    let mut m = lit("Failed to enable ECN: ");
    push_str(&mut m, stderr);
    CoreError::Internal(m)
}

/// The number of line breaks in `s`.
pub open spec fn line_breaks(s: Seq<char>) -> nat
    decreases s.len(),
{
    if s.len() == 0 {
        0
    } else {
        line_breaks(s.drop_last()) + if s.last() == '\n' {
            1nat
        } else {
            0nat
        }
    }
}

/// `s` holds no line break.
pub open spec fn single_line(s: Seq<char>) -> bool {
    forall|i: int| 0 <= i < s.len() ==> s[i] != '\n'
}

proof fn lemma_line_breaks_concat(a: Seq<char>, b: Seq<char>)
    ensures
        line_breaks(a + b) == line_breaks(a) + line_breaks(b),
    decreases b.len(),
{
    if b.len() == 0 {
        assert(a + b =~= a);
    } else {
        lemma_line_breaks_concat(a, b.drop_last());
        assert((a + b).drop_last() =~= a + b.drop_last());
        assert((a + b).last() == b.last());
    }
}

proof fn lemma_single_line_no_breaks(s: Seq<char>)
    requires
        single_line(s),
    ensures
        line_breaks(s) == 0,
    decreases s.len(),
{
    if s.len() > 0 {
        assert(s.last() == s[s.len() - 1]);
        lemma_single_line_no_breaks(s.drop_last());
    }
}

proof fn lemma_dec_single_line(n: nat)
    ensures
        single_line(dec(n)),
    decreases n,
{
    if n >= 10 {
        lemma_dec_single_line(n / 10);
        let d = dec(n / 10);
        assert forall|i: int| 0 <= i < dec(n).len() implies dec(n)[i] != '\n' by {
            if i < d.len() {
                assert(dec(n)[i] == d[i]);
            }
        }
    }
}

proof fn lemma_rule_line_breaks(r: TrafficRule)
    requires
        single_line(r.protocol@),
        single_line(r.description@),
    ensures
        line_breaks(rule_line(r)) == 1,
{
    reveal_strlit("    ");
    reveal_strlit(" ");
    reveal_strlit("dport ");
    reveal_strlit("-");
    reveal_strlit("ip dscp set ");
    reveal_strlit(" # ");
    reveal_strlit("\n");
    lemma_dec_single_line(dscp_value(r.class) as nat);
    let pm = port_match(r);
    match r.dport {
        Some(p) => {
            lemma_dec_single_line(p as nat);
            lemma_single_line_no_breaks(dec(p as nat));
            lemma_line_breaks_concat("dport "@, dec(p as nat));
            lemma_line_breaks_concat("dport "@ + dec(p as nat), " "@);
        },
        None => match r.dport_range {
            Some((a, b)) => {
                lemma_dec_single_line(a as nat);
                lemma_dec_single_line(b as nat);
                lemma_single_line_no_breaks(dec(a as nat));
                lemma_single_line_no_breaks(dec(b as nat));
                lemma_line_breaks_concat("dport "@, dec(a as nat));
                lemma_line_breaks_concat("dport "@ + dec(a as nat), "-"@);
                lemma_line_breaks_concat("dport "@ + dec(a as nat) + "-"@, dec(b as nat));
                lemma_line_breaks_concat("dport "@ + dec(a as nat) + "-"@ + dec(b as nat), " "@);
            },
            None => {},
        },
    }
    lemma_single_line_no_breaks("    "@);
    lemma_single_line_no_breaks(" "@);
    lemma_single_line_no_breaks("dport "@);
    lemma_single_line_no_breaks("-"@);
    lemma_single_line_no_breaks("ip dscp set "@);
    lemma_single_line_no_breaks(" # "@);
    lemma_single_line_no_breaks(r.protocol@);
    lemma_single_line_no_breaks(r.description@);
    lemma_single_line_no_breaks(dec(dscp_value(r.class) as nat));
    assert(line_breaks(Seq::<char>::empty()) == 0);
    assert(line_breaks("\n"@) == 1) by {
        assert("\n"@.drop_last() =~= Seq::<char>::empty());
    }
    let x1 = "    "@ + r.protocol@;
    let x2 = x1 + " "@;
    let x3 = x2 + pm;
    let x4 = x3 + "ip dscp set "@;
    let x5 = x4 + dec(dscp_value(r.class) as nat);
    let x6 = x5 + " # "@;
    let x7 = x6 + r.description@;
    let x8 = x7 + "\n"@;
    lemma_line_breaks_concat("    "@, r.protocol@);
    lemma_line_breaks_concat(x1, " "@);
    lemma_line_breaks_concat(x2, pm);
    lemma_line_breaks_concat(x3, "ip dscp set "@);
    lemma_line_breaks_concat(x4, dec(dscp_value(r.class) as nat));
    lemma_line_breaks_concat(x5, " # "@);
    lemma_line_breaks_concat(x6, r.description@);
    lemma_line_breaks_concat(x7, "\n"@);
    assert(rule_line(r) == x8);
}

proof fn lemma_rule_lines_concat(a: Seq<TrafficRule>, b: Seq<TrafficRule>)
    ensures
        rule_lines(a + b) == rule_lines(a) + rule_lines(b),
    decreases b.len(),
{
    if b.len() == 0 {
        assert(a + b =~= a);
        assert(rule_lines(a) + rule_lines(b) =~= rule_lines(a));
    } else {
        lemma_rule_lines_concat(a, b.drop_last());
        assert((a + b).drop_last() =~= a + b.drop_last());
        assert((a + b).last() == b.last());
        assert(rule_lines(a + b) =~= rule_lines(a) + rule_lines(b));
    }
}

proof fn lemma_rule_lines_breaks(rs: Seq<TrafficRule>)
    requires
        forall|k: int| 0 <= k < rs.len() ==> single_line(rs[k].protocol@) && single_line(rs[k].description@),
    ensures
        line_breaks(rule_lines(rs)) == rs.len(),
    decreases rs.len(),
{
    if rs.len() > 0 {
        let t = rs.drop_last();
        assert forall|k: int| 0 <= k < t.len() implies single_line(t[k].protocol@) && single_line(
            t[k].description@,
        ) by {
            assert(t[k] == rs[k]);
        }
        lemma_rule_lines_breaks(t);
        assert(rs.last() == rs[rs.len() - 1]);
        lemma_rule_line_breaks(rs.last());
        lemma_line_breaks_concat(rule_lines(t), rule_line(rs.last()));
    }
}

/// The tagging script has one line per rule, in order, whatever the
/// rule's class: for each rule `i`, the script is the header, the lines of
/// the rules before it (exactly `i` lines), the line of rule `i` (which
/// sets its class's DSCP value), the lines of the rules after it, and the
/// footer; and between header and footer there are exactly as many lines
/// as rules (for protocols and descriptions of one line each).
pub proof fn lemma_one_line_per_rule(rs: Seq<TrafficRule>, i: int)
    requires
        0 <= i < rs.len(),
        forall|k: int| 0 <= k < rs.len() ==> single_line(rs[k].protocol@) && single_line(rs[k].description@),
    ensures
        nftables_script(rs) == script_header() + rule_lines(rs.take(i)) + rule_line(rs[i]) + rule_lines(
            rs.skip(i + 1),
        ) + script_footer(),
        line_breaks(rule_lines(rs.take(i))) == i,
        line_breaks(rule_lines(rs)) == rs.len(),
        rule_line(rs[i]).len() > 0 && rule_line(rs[i]).last() == '\n',
        seq_contains(rule_line(rs[i]), "ip dscp set "@ + dec(dscp_value(rs[i].class) as nat) + " # "@),
{
    let a = rs.take(i);
    let b = rs.skip(i + 1);
    assert(rs =~= a + seq![rs[i]] + b);
    lemma_rule_lines_concat(a + seq![rs[i]], b);
    lemma_rule_lines_concat(a, seq![rs[i]]);
    assert(seq![rs[i]].drop_last() =~= Seq::<TrafficRule>::empty());
    assert(rule_lines(seq![rs[i]].drop_last()) == Seq::<char>::empty());
    assert(seq![rs[i]].last() == rs[i]);
    assert(Seq::<char>::empty() + rule_line(rs[i]) =~= rule_line(rs[i]));
    assert(rule_lines(seq![rs[i]]) =~= rule_line(rs[i]));
    assert(nftables_script(rs) =~= script_header() + rule_lines(a) + rule_line(rs[i]) + rule_lines(b)
        + script_footer());
    assert forall|k: int| 0 <= k < a.len() implies single_line(a[k].protocol@) && single_line(a[k].description@) by {
        assert(a[k] == rs[k]);
    }
    lemma_rule_lines_breaks(a);
    lemma_rule_lines_breaks(rs);
    let r = rs[i];
    let head = "    "@ + r.protocol@ + " "@ + port_match(r);
    let mid = "ip dscp set "@ + dec(dscp_value(r.class) as nat) + " # "@;
    let tail = r.description@ + "\n"@;
    assert(rule_line(r) =~= head + mid + tail);
    reveal_strlit("\n");
    assert((head + mid + tail).last() == tail.last());
    assert((head + mid + tail).subrange(head.len() as int, (head.len() + mid.len()) as int) =~= mid);
    assert(crate::text::occurs_at(rule_line(r), mid, head.len() as int));
}

} // verus!
