//! Interface details beyond what the link scan gives: speed and duplex
//! from ethtool, the driver from sysfs, and wireless signal data from
//! sysfs or `iw`.

use vstd::prelude::*;

use crate::argv::{lit, push_clone, push_lit, views};
use crate::text::{
    chars_of, chars_start_with, lines, lines_chars, parse_i8, parse_i8_chars, parse_unsigned, parse_unsigned_chars,
    push_str, seq_starts_with, slice_chars, string_of, strip_suffixes, strip_suffixes_chars, trim, trim_chars, words,
    words_chars,
};
use crate::types::Duplex;

verus! {

/// The duplex setting ethtool reports.
#[derive(Debug, Clone, Copy, PartialEq, Eq)]
pub enum EthtoolDuplex {
    Full,
    Half,
    Unknown,
    /// A value this library does not know.
    Other,
}

/// One link-mode attribute ethtool reports.
#[derive(Debug, Clone, Copy, PartialEq, Eq)]
pub enum LinkModeAttr {
    /// Link speed in Mbps.
    Speed(u32),
    Duplex(EthtoolDuplex),
    /// Any other attribute.
    Other,
}

/// Speed and duplex after reading `attrs` in order: a positive speed
/// replaces the speed, a duplex attribute replaces the duplex (an unknown
/// value clears it).
pub open spec fn link_mode_spec(attrs: Seq<LinkModeAttr>) -> (Option<u64>, Option<Duplex>)
    decreases attrs.len(),
{
    if attrs.len() == 0 {
        (None, None)
    } else {
        let (speed, duplex) = link_mode_spec(attrs.drop_last());
        match attrs.last() {
            LinkModeAttr::Speed(s) => if s > 0 { (Some(s as u64), duplex) } else { (speed, duplex) },
            LinkModeAttr::Duplex(d) => (
                speed,
                match d {
                    EthtoolDuplex::Full => Some(Duplex::Full),
                    EthtoolDuplex::Half => Some(Duplex::Half),
                    EthtoolDuplex::Unknown => Some(Duplex::Unknown),
                    EthtoolDuplex::Other => None,
                },
            ),
            LinkModeAttr::Other => (speed, duplex),
        }
    }
}

/// Reads the speed and duplex from ethtool's link-mode attributes.
pub fn link_mode(attrs: &Vec<LinkModeAttr>) -> (r: (Option<u64>, Option<Duplex>))
    ensures
        r == link_mode_spec(attrs@),
{
    let mut speed: Option<u64> = None;
    let mut duplex: Option<Duplex> = None;
    let mut i: usize = 0;
    while i < attrs.len()
        invariant
            i <= attrs@.len(),
            (speed, duplex) == link_mode_spec(attrs@.take(i as int)),
        decreases attrs.len() - i,
    {
        assert(attrs@.take(i + 1).drop_last() =~= attrs@.take(i as int));
        match attrs[i] {
            LinkModeAttr::Speed(s) => {
                if s > 0 {
                    speed = Some(s as u64);
                }
            },
            LinkModeAttr::Duplex(d) => {
                duplex = match d {
                    EthtoolDuplex::Full => Some(Duplex::Full),
                    EthtoolDuplex::Half => Some(Duplex::Half),
                    EthtoolDuplex::Unknown => Some(Duplex::Unknown),
                    EthtoolDuplex::Other => None,
                };
            },
            LinkModeAttr::Other => {},
        }
        i = i + 1;
    }
    assert(attrs@.take(attrs@.len() as int) =~= attrs@);
    (speed, duplex)
}

/// A path under an interface's sysfs directory.
pub fn sysfs_path(interface: &str, leaf: &str) -> (p: String)
    ensures
        p@ == "/sys/class/net/"@ + interface@ + "/"@ + leaf@,
{
    let mut p = lit("/sys/class/net/");
    push_str(&mut p, interface);
    push_str(&mut p, "/");
    push_str(&mut p, leaf);
    p
}

/// `iw` arguments that query a wireless interface.
pub fn iw_info_args(interface: &String) -> (args: Vec<String>)
    ensures
        views(args@) == seq!["dev"@, interface@, "info"@],
{
    let mut args: Vec<String> = Vec::new();
    push_lit(&mut args, "dev");
    push_clone(&mut args, interface);
    push_lit(&mut args, "info");
    args
}

fn chars_are(v: &Vec<char>, s: &str) -> (b: bool)
    ensures
        b == (v@ == s@),
{
    let p = chars_of(s);
    let b = v.len() == p.len() && chars_start_with(v, &p);
    assert(b ==> v@.subrange(0, p@.len() as int) =~= v@);
    assert(v@ == s@ ==> v@.subrange(0, p@.len() as int) =~= v@);
    b
}

// ---------------------------------------------------------------------------
// Legacy wireless statistics
// ---------------------------------------------------------------------------

/// Signal and noise levels (dBm) after reading the lines of a legacy
/// sysfs `wireless` file: a line whose first two words are
/// `Signal.level` or `Noise.level` and a valid `i8` sets that level.
pub open spec fn legacy_levels(ls: Seq<Seq<char>>) -> (Option<int>, Option<int>)
    decreases ls.len(),
{
    if ls.len() == 0 {
        (None, None)
    } else {
        let (signal, noise) = legacy_levels(ls.drop_last());
        let p = words(ls.last());
        if p.len() >= 2 && p[0] == "Signal.level"@ && parse_i8(p[1]) is Some {
            (parse_i8(p[1]), noise)
        } else if p.len() >= 2 && p[0] == "Noise.level"@ && parse_i8(p[1]) is Some {
            (signal, parse_i8(p[1]))
        } else {
            (signal, noise)
        }
    }
}

pub open spec fn i8_view(o: Option<i8>) -> Option<int> {
    match o {
        Some(v) => Some(v as int),
        None => None,
    }
}

/// Reads the signal and noise levels of a legacy sysfs `wireless` file.
pub fn parse_legacy_wireless(content: &str) -> (r: (Option<i8>, Option<i8>))
    ensures
        (i8_view(r.0), i8_view(r.1)) == legacy_levels(lines(content@)),
{
    let chars = chars_of(content);
    let ls = lines_chars(&chars);
    let ghost lv = lines(content@);
    let mut signal: Option<i8> = None;
    let mut noise: Option<i8> = None;
    let mut i: usize = 0;
    while i < ls.len()
        invariant
            i <= ls@.len(),
            ls@.len() == lv.len(),
            lv == lines(content@),
            forall|j: int| 0 <= j < ls@.len() ==> #[trigger] ls@[j]@ == lv[j],
            (i8_view(signal), i8_view(noise)) == legacy_levels(lv.take(i as int)),
        decreases ls.len() - i,
    {
        assert(lv.take(i + 1).drop_last() =~= lv.take(i as int));
        assert(lv.take(i + 1).last() == ls@[i as int]@);
        let p = words_chars(&ls[i]);
        if p.len() >= 2 {
            let level = parse_i8_chars(&p[1]);
            if chars_are(&p[0], "Signal.level") && level.is_some() {
                signal = level;
            } else if chars_are(&p[0], "Noise.level") && level.is_some() {
                noise = level;
            }
        }
        i = i + 1;
    }
    assert(lv.take(lv.len() as int) =~= lv);
    (signal, noise)
}

// ---------------------------------------------------------------------------
// iw
// ---------------------------------------------------------------------------

/// What `iw dev <name> info` tells.
#[derive(Debug)]
pub struct IwInfo {
    pub ssid: Option<String>,
    pub frequency_mhz: Option<u32>,
    pub signal_dbm: Option<i8>,
}

/// (ssid, frequency, signal) as read so far.
pub type IwView = (Option<Seq<char>>, Option<nat>, Option<int>);

/// One line of `iw` output read into what was read so far: on the trimmed
/// line, `ssid <name>` sets a non-empty trimmed name, `channel <n> ...`
/// sets the frequency from its first word when that is a valid `u32`, and
/// `signal: <n> dBm` sets a valid `i8` signal.
pub open spec fn iw_line(acc: IwView, line: Seq<char>) -> IwView {
    let t = trim(line);
    let ssid = if seq_starts_with(t, "ssid "@) && trim(t.subrange(5, t.len() as int)).len() > 0 {
        Some(trim(t.subrange(5, t.len() as int)))
    } else {
        acc.0
    };
    let freq = if seq_starts_with(t, "channel "@) && words(t.subrange(8, t.len() as int)).len() > 0 && parse_unsigned(
        words(t.subrange(8, t.len() as int))[0],
        0xffff_ffff,
    ) is Some {
        parse_unsigned(words(t.subrange(8, t.len() as int))[0], 0xffff_ffff)
    } else {
        acc.1
    };
    let signal = if seq_starts_with(t, "signal: "@) && parse_i8(strip_suffixes(t.subrange(8, t.len() as int), " dBm"@))
        is Some {
        parse_i8(strip_suffixes(t.subrange(8, t.len() as int), " dBm"@))
    } else {
        acc.2
    };
    (ssid, freq, signal)
}

/// The lines of `iw` output read in order.
pub open spec fn iw_lines(ls: Seq<Seq<char>>) -> IwView
    decreases ls.len(),
{
    if ls.len() == 0 {
        (None, None, None)
    } else {
        iw_line(iw_lines(ls.drop_last()), ls.last())
    }
}

pub open spec fn iw_view(i: IwInfo) -> IwView {
    (
        match i.ssid {
            Some(s) => Some(s@),
            None => None,
        },
        match i.frequency_mhz {
            Some(f) => Some(f as nat),
            None => None,
        },
        i8_view(i.signal_dbm),
    )
}

fn rest_after(t: &Vec<char>, prefix: &str) -> (r: Option<Vec<char>>)
    ensures
        match r {
            Some(v) => seq_starts_with(t@, prefix@) && v@ == t@.subrange(prefix@.len() as int, t@.len() as int),
            None => !seq_starts_with(t@, prefix@),
        },
{
    let p = chars_of(prefix);
    if chars_start_with(t, &p) {
        Some(slice_chars(t, p.len(), t.len()))
    } else {
        None
    }
}

/// Reads the SSID, frequency and signal from `iw dev <name> info` output.
pub fn parse_iw_info(output: &str) -> (r: IwInfo)
    ensures
        iw_view(r) == iw_lines(lines(output@)),
{
    let chars = chars_of(output);
    let ls = lines_chars(&chars);
    let ghost lv = lines(output@);
    let mut info = IwInfo { ssid: None, frequency_mhz: None, signal_dbm: None };
    let mut i: usize = 0;
    proof {
        reveal_strlit("ssid ");
        reveal_strlit("channel ");
        reveal_strlit("signal: ");
    }
    while i < ls.len()
        invariant
            i <= ls@.len(),
            ls@.len() == lv.len(),
            lv == lines(output@),
            forall|j: int| 0 <= j < ls@.len() ==> #[trigger] ls@[j]@ == lv[j],
            iw_view(info) == iw_lines(lv.take(i as int)),
            "ssid "@.len() == 5,
            "channel "@.len() == 8,
            "signal: "@.len() == 8,
        decreases ls.len() - i,
    {
        assert(lv.take(i + 1).drop_last() =~= lv.take(i as int));
        assert(lv.take(i + 1).last() == ls@[i as int]@);
        let t = trim_chars(&ls[i]);
        match rest_after(&t, "ssid ") {
            Some(rest) => {
                let v = trim_chars(&rest);
                if v.len() > 0 {
                    info.ssid = Some(string_of(&v));
                }
            },
            None => {},
        }
        match rest_after(&t, "channel ") {
            Some(rest) => {
                let ws = words_chars(&rest);
                if ws.len() > 0 {
                    match parse_unsigned_chars(&ws[0], 0xffff_ffff) {
                        Some(f) => {
                            info.frequency_mhz = Some(f as u32);
                        },
                        None => {},
                    }
                }
            },
            None => {},
        }
        match rest_after(&t, "signal: ") {
            Some(rest) => {
                let dbm = chars_of(" dBm");
                proof {
                    reveal_strlit(" dBm");
                }
                let s = strip_suffixes_chars(&rest, &dbm);
                match parse_i8_chars(&s) {
                    Some(v) => {
                        info.signal_dbm = Some(v);
                    },
                    None => {},
                }
            },
            None => {},
        }
        i = i + 1;
    }
    assert(lv.take(lv.len() as int) =~= lv);
    info
}

} // verus!
