//! Health probing: choosing what to ping, reading `ping`'s summary lines,
//! and tracking traffic counters between probes.
//!
//! The numbers in `ping`'s output are decimal fractions; this module finds
//! their text, and the caller reads them as floating-point values.

use vstd::prelude::*;

use crate::argv::{lit, push_clone, push_lit, views};
use crate::assoc::{as_map, find_key, set_key, unique_keys};
use crate::text::{
    chars_contain, chars_of, ends_with_at, lines, lines_chars, seq_contains, seq_ends_with, slice_chars, split_chars,
    split_on,
    string_of, strip_suffixes, strip_suffixes_chars, trim, trim_chars,
};

verus! {

/// `ping` arguments for one probe: four echo requests, two seconds of
/// timeout each, 0.2 s apart.
pub fn ping_args(target: &String) -> (args: Vec<String>)
    ensures
        views(args@) == seq!["-c"@, "4"@, "-W"@, "2"@, "-i"@, "0.2"@, target@],
{
    let mut args: Vec<String> = Vec::new();
    push_lit(&mut args, "-c");
    push_lit(&mut args, "4");
    push_lit(&mut args, "-W");
    push_lit(&mut args, "2");
    push_lit(&mut args, "-i");
    push_lit(&mut args, "0.2");
    push_clone(&mut args, target);
    args
}

/// What to ping for an interface: its gateway, else the first configured
/// target, else nothing.
pub fn probe_target(gateway: &Option<String>, targets: &Vec<String>) -> (t: Option<String>)
    ensures
        match t {
            Some(s) => match gateway {
                Some(g) => s@ == g@,
                None => targets@.len() > 0 && s@ == targets@[0]@,
            },
            None => gateway is None && targets@.len() == 0,
        },
{
    match gateway {
        Some(g) => Some(g.clone()),
        None => if targets.len() > 0 {
            Some(targets[0].clone())
        } else {
            None
        },
    }
}

/// The first of `parts` that contains `p`.
pub open spec fn first_containing(parts: Seq<Seq<char>>, p: Seq<char>) -> Option<Seq<char>>
    decreases parts.len(),
{
    if parts.len() == 0 {
        None
    } else if seq_contains(parts[0], p) {
        Some(parts[0])
    } else {
        first_containing(parts.drop_first(), p)
    }
}

/// The loss figure of a line such as
/// `4 packets transmitted, 3 received, 25% packet loss, time 3005ms`: the
/// first comma-separated part that mentions `packet loss`, trimmed, when
/// it ends in `% packet loss`, without that ending, trimmed again.
pub open spec fn loss_text(line: Seq<char>) -> Option<Seq<char>> {
    match first_containing(split_on(line, ','), "packet loss"@) {
        Some(part) => {
            let t = trim(part);
            if seq_ends_with(t, "% packet loss"@) {
                Some(trim(t.subrange(0, t.len() - 13)))
            } else {
                None
            }
        },
        None => None,
    }
}

/// Whether a line carries the round-trip summary.
pub open spec fn is_rtt_line(line: Seq<char>) -> bool {
    seq_contains(line, "rtt min/avg/max/mdev"@) || seq_contains(line, "round-trip min/avg/max"@)
}

/// The average and deviation figures of a line such as
/// `rtt min/avg/max/mdev = 1.234/2.345/3.456/0.567 ms`: after the first
/// `=`, the second `/`-separated field trimmed, and the fourth without its
/// trailing ` ms`; when the line has that shape.
pub open spec fn rtt_texts(line: Seq<char>) -> Option<(Seq<char>, Seq<char>)> {
    if is_rtt_line(line) && split_on(line, '=').len() >= 2 && split_on(split_on(line, '=')[1], '/').len() >= 4 {
        let parts = split_on(split_on(line, '=')[1], '/');
        Some((trim(parts[1]), strip_suffixes(parts[3], " ms"@)))
    } else {
        None
    }
}

/// The figures found on one line of `ping` output.
#[derive(Debug)]
pub struct PingLine {
    /// Packet loss, in percent.
    pub loss: Option<String>,
    /// Average round-trip time, in milliseconds.
    pub rtt_avg: Option<String>,
    /// Round-trip deviation, in milliseconds.
    pub rtt_mdev: Option<String>,
}

pub open spec fn opt_view(o: Option<String>) -> Option<Seq<char>> {
    match o {
        Some(s) => Some(s@),
        None => None,
    }
}

/// What one line of output holds.
pub open spec fn line_matches(l: PingLine, line: Seq<char>) -> bool {
    &&& opt_view(l.loss) == loss_text(line)
    &&& match rtt_texts(line) {
        Some((avg, mdev)) => opt_view(l.rtt_avg) == Some(avg) && opt_view(l.rtt_mdev) == Some(mdev),
        None => l.rtt_avg is None && l.rtt_mdev is None,
    }
}

fn first_containing_exec(parts: &Vec<Vec<char>>, p: &Vec<char>) -> (r: Option<usize>)
    ensures
        match r {
            Some(i) => i < parts@.len() && first_containing(parts@.map_values(|v: Vec<char>| v@), p@) == Some(
                parts@[i as int]@,
            ),
            None => first_containing(parts@.map_values(|v: Vec<char>| v@), p@) is None,
        },
{
    let ghost ps = parts@.map_values(|v: Vec<char>| v@);
    assert(ps.subrange(0, ps.len() as int) =~= ps);
    let mut i: usize = 0;
    while i < parts.len()
        invariant
            i <= parts@.len(),
            ps == parts@.map_values(|v: Vec<char>| v@),
            first_containing(ps, p@) == first_containing(ps.subrange(i as int, ps.len() as int), p@),
        decreases parts.len() - i,
    {
        assert(ps.subrange(i as int, ps.len() as int)[0] == parts@[i as int]@);
        assert(ps.subrange(i as int, ps.len() as int).drop_first() =~= ps.subrange(i + 1, ps.len() as int));
        if chars_contain(&parts[i], p) {
            return Some(i);
        }
        i = i + 1;
    }
    None
}

fn loss_of(line: &Vec<char>) -> (r: Option<String>)
    ensures
        opt_view(r) == loss_text(line@),
{
    let parts = split_chars(line, ',');
    assert(parts@.map_values(|v: Vec<char>| v@) =~= split_on(line@, ','));
    let key = chars_of("packet loss");
    match first_containing_exec(&parts, &key) {
        Some(i) => {
            let t = trim_chars(&parts[i]);
            let suffix = chars_of("% packet loss");
            proof {
                reveal_strlit("% packet loss");
            }
            assert(t@.take(t@.len() as int) =~= t@);
            if ends_with_at(&t, t.len(), &suffix) {
                let body = slice_chars(&t, 0, t.len() - suffix.len());
                let v = trim_chars(&body);
                Some(string_of(&v))
            } else {
                None
            }
        },
        None => None,
    }
}

fn rtt_of(line: &Vec<char>) -> (r: (Option<String>, Option<String>))
    ensures
        match rtt_texts(line@) {
            Some((avg, mdev)) => opt_view(r.0) == Some(avg) && opt_view(r.1) == Some(mdev),
            None => r.0 is None && r.1 is None,
        },
{
    let k1 = chars_of("rtt min/avg/max/mdev");
    let k2 = chars_of("round-trip min/avg/max");
    if !(chars_contain(line, &k1) || chars_contain(line, &k2)) {
        return (None, None);
    }
    let eq = split_chars(line, '=');
    if eq.len() < 2 {
        return (None, None);
    }
    let parts = split_chars(&eq[1], '/');
    if parts.len() < 4 {
        return (None, None);
    }
    let avg = trim_chars(&parts[1]);
    let ms = chars_of(" ms");
    proof {
        reveal_strlit(" ms");
    }
    let mdev = strip_suffixes_chars(&parts[3], &ms);
    (Some(string_of(&avg)), Some(string_of(&mdev)))
}

/// The figures on each line of `ping` output, line by line.
pub fn ping_lines(output: &str) -> (r: Vec<PingLine>)
    ensures
        r@.len() == lines(output@).len(),
        forall|i: int| 0 <= i < r@.len() ==> line_matches(#[trigger] r@[i], lines(output@)[i]),
{
    let chars = chars_of(output);
    let ls = lines_chars(&chars);
    let mut r: Vec<PingLine> = Vec::new();
    let mut i: usize = 0;
    while i < ls.len()
        invariant
            i <= ls@.len(),
            ls@.len() == lines(output@).len(),
            chars@ == output@,
            forall|j: int| 0 <= j < ls@.len() ==> #[trigger] ls@[j]@ == lines(chars@)[j],
            r@.len() == i,
            forall|j: int| 0 <= j < i ==> line_matches(#[trigger] r@[j], lines(output@)[j]),
        decreases ls.len() - i,
    {
        let loss = loss_of(&ls[i]);
        let (rtt_avg, rtt_mdev) = rtt_of(&ls[i]);
        r.push(PingLine { loss, rtt_avg, rtt_mdev });
        i = i + 1;
    }
    r
}

// ---------------------------------------------------------------------------
// Traffic between probes
// ---------------------------------------------------------------------------

/// Traffic on an interface since its previous probe.
#[derive(Debug, Clone, Copy, PartialEq, Eq)]
pub struct TrafficDelta {
    /// Bytes received since then (0 if the counter went back).
    pub rx_bytes: u64,
    /// Bytes transmitted since then (0 if the counter went back).
    pub tx_bytes: u64,
    /// Time since the previous probe of any interface, in nanoseconds.
    pub elapsed_ns: u64,
}

/// Tracks the byte counters of each interface between probes.
pub struct ThroughputTracker {
    last_rx: Vec<(String, u64)>,
    last_tx: Vec<(String, u64)>,
    /// Time of the last probe, in nanoseconds on a monotonic clock.
    last_time_ns: Option<u64>,
}

pub open spec fn sat_sub(a: u64, b: u64) -> u64 {
    if a >= b { (a - b) as u64 } else { 0 }
}

impl ThroughputTracker {
    pub closed spec fn wf(&self) -> bool {
        unique_keys(self.last_rx@) && unique_keys(self.last_tx@)
    }

    /// Last received-bytes counter per interface.
    pub closed spec fn last_rx_map(&self) -> Map<Seq<char>, u64> {
        as_map(self.last_rx@)
    }

    /// Last transmitted-bytes counter per interface.
    pub closed spec fn last_tx_map(&self) -> Map<Seq<char>, u64> {
        as_map(self.last_tx@)
    }

    /// Time of the last probe.
    pub closed spec fn last_time(&self) -> Option<u64> {
        self.last_time_ns
    }

    /// A tracker that has seen nothing.
    pub fn new() -> (t: Self)
        ensures
            t.wf(),
            t.last_rx_map() == Map::<Seq<char>, u64>::empty(),
            t.last_tx_map() == Map::<Seq<char>, u64>::empty(),
            t.last_time() is None,
    {
        ThroughputTracker { last_rx: Vec::new(), last_tx: Vec::new(), last_time_ns: None }
    }

    /// Records an interface's counters at time `now_ns`; returns the
    /// traffic since the previous probe when the interface was seen before
    /// and time has passed since.
    pub fn estimate(&mut self, name: &str, rx_bytes: u64, tx_bytes: u64, now_ns: u64) -> (d: Option<TrafficDelta>)
        requires
            old(self).wf(),
        ensures
            final(self).wf(),
            final(self).last_rx_map() == old(self).last_rx_map().insert(name@, rx_bytes),
            final(self).last_tx_map() == old(self).last_tx_map().insert(name@, tx_bytes),
            final(self).last_time() == Some(now_ns),
            d == (match old(self).last_time() {
                Some(t) => if old(self).last_rx_map().dom().contains(name@) && old(self).last_tx_map().dom().contains(
                    name@,
                ) && now_ns > t {
                    Some(
                        TrafficDelta {
                            rx_bytes: sat_sub(rx_bytes, old(self).last_rx_map()[name@]),
                            tx_bytes: sat_sub(tx_bytes, old(self).last_tx_map()[name@]),
                            elapsed_ns: (now_ns - t) as u64,
                        },
                    )
                } else {
                    None
                },
                None => None,
            }),
    {
        let mut d: Option<TrafficDelta> = None;
        match self.last_time_ns {
            Some(t) => match (find_key(&self.last_rx, name), find_key(&self.last_tx, name)) {
                (Some(i), Some(j)) => {
                    proof {
                        crate::assoc::lemma_as_map_index(self.last_rx@, i as int);
                        crate::assoc::lemma_as_map_index(self.last_tx@, j as int);
                    }
                    if now_ns > t {
                        d = Some(
                            TrafficDelta {
                                rx_bytes: rx_bytes.saturating_sub(self.last_rx[i].1),
                                tx_bytes: tx_bytes.saturating_sub(self.last_tx[j].1),
                                elapsed_ns: now_ns - t,
                            },
                        );
                    }
                },
                _ => {},
            },
            None => {},
        }
        set_key(&mut self.last_rx, name, rx_bytes);
        set_key(&mut self.last_tx, name, tx_bytes);
        self.last_time_ns = Some(now_ns);
        d
    }
}

} // verus!
