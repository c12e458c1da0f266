//! The text the terminal interface shows: titles, status lines, help,
//! labels, and which events are highlighted how.

use vstd::prelude::*;

use crate::argv::lit;
use crate::text::{dec, push_dec, push_str, seq_contains, str_contains};
use crate::types::LinkState;

verus! {

/// Tab titles, in order.
pub open spec fn tab_names() -> Seq<Seq<char>> {
    seq!["Dashboard"@, "Interfaces"@, "Bonds"@, "Logs"@]
}

/// Tab titles, in order.
pub fn tab_names_list() -> (v: Vec<String>)
    ensures
        v@.map_values(|s: String| s@) == tab_names(),
{
    let v = vec![lit("Dashboard"), lit("Interfaces"), lit("Bonds"), lit("Logs")];
    assert(v@.map_values(|s: String| s@) =~= tab_names());
    v
}

/// An uptime as hours, minutes and seconds, leaving out leading zero
/// units: `1h 2m 3s`, `2m 3s`, `3s`.
pub open spec fn uptime_text(secs: nat) -> Seq<char> {
    let h = secs / 3600;
    let m = secs % 3600 / 60;
    let s = secs % 60;
    if h > 0 {
        dec(h) + "h "@ + dec(m) + "m "@ + dec(s) + "s"@
    } else if m > 0 {
        dec(m) + "m "@ + dec(s) + "s"@
    } else {
        dec(s) + "s"@
    }
}

/// Formats seconds as a human-readable uptime.
pub fn format_uptime(secs: u64) -> (t: String)
    ensures
        t@ == uptime_text(secs as nat),
{
    let h = secs / 3600;
    let m = secs % 3600 / 60;
    let s = secs % 60;
    let mut t = String::new();
    if h > 0 {
        push_dec(&mut t, h);
        push_str(&mut t, "h ");
        push_dec(&mut t, m);
        push_str(&mut t, "m ");
    } else if m > 0 {
        push_dec(&mut t, m);
        push_str(&mut t, "m ");
    }
    push_dec(&mut t, s);
    push_str(&mut t, "s");
    assert(t@ =~= uptime_text(secs as nat));
    t
}

/// The key help shown for a tab.
pub open spec fn help_spec(tab: usize) -> Seq<char> {
    if tab == 0 || tab == 2 {
        "q:quit | ←/→:tabs | r:refresh"@
    } else if tab == 1 {
        "q:quit | ←/→:tabs | ↑↓/jk:select | r:refresh"@
    } else if tab == 3 {
        "q:quit | ←/→:tabs | jk/↑↓:scroll | g:top | G:bottom | PgUp/PgDn"@
    } else {
        "q:quit | ←/→:tabs"@
    }
}

/// The key help shown for a tab.
pub fn help_text(tab: usize) -> (t: &'static str)
    ensures
        t@ == help_spec(tab),
{
    if tab == 0 || tab == 2 {
        "q:quit | ←/→:tabs | r:refresh"
    } else if tab == 1 {
        "q:quit | ←/→:tabs | ↑↓/jk:select | r:refresh"
    } else if tab == 3 {
        "q:quit | ←/→:tabs | jk/↑↓:scroll | g:top | G:bottom | PgUp/PgDn"
    } else {
        "q:quit | ←/→:tabs"
    }
}

/// The title line, with a loading mark while a fetch is in flight.
pub fn title_text(is_loading: bool) -> (t: &'static str)
    ensures
        t@ == if is_loading { " NetFusion ⟳ Loading..."@ } else { " NetFusion"@ },
{
    if is_loading {
        " NetFusion ⟳ Loading..."
    } else {
        " NetFusion"
    }
}

/// The status bar: the last refresh time, the event count when there are
/// events, and the help for the tab.
pub open spec fn status_bar_spec(last_refresh: Option<Seq<char>>, events: nat, tab: usize) -> Seq<char> {
    (match last_refresh {
        Some(t) => "Last: "@ + t + " | "@,
        None => Seq::empty(),
    }) + (if events > 0 { "Events: "@ + dec(events) + " | "@ } else { Seq::empty() }) + help_spec(tab)
}

/// The status bar text; `last_refresh` is the formatted time of the last
/// refresh.
pub fn status_bar_text(last_refresh: Option<&str>, events: usize, tab: usize) -> (t: String)
    ensures
        t@ == status_bar_spec(
            match last_refresh {
                Some(s) => Some(s@),
                None => None,
            },
            events as nat,
            tab,
        ),
{
    let mut t = String::new();
    proof {
        assert(t@ == Seq::<char>::empty());
    }
    match last_refresh {
        Some(s) => {
            push_str(&mut t, "Last: ");
            push_str(&mut t, s);
            push_str(&mut t, " | ");
        },
        None => {},
    }
    if events > 0 {
        push_str(&mut t, "Events: ");
        push_dec(&mut t, events as u64);
        push_str(&mut t, " | ");
    }
    push_str(&mut t, help_text(tab));
    assert(t@ =~= status_bar_spec(
        match last_refresh {
            Some(s) => Some(s@),
            None => None,
        },
        events as nat,
        tab,
    ));
    t
}

/// What the dashboard's system line says of the daemon's status.
#[derive(Debug, Clone)]
pub struct StatusSummary {
    pub total_interfaces: usize,
    pub active_bonds: usize,
    pub connected_tunnels: usize,
    pub uptime_secs: u64,
    pub failover_active: bool,
    pub active_profile: Option<String>,
}

/// The dashboard's system line: the counts, the uptime, then whether
/// failover is active and the profile; without a status, whether the
/// daemon is connected.
pub open spec fn system_line_spec(status: Option<StatusSummary>, connected: bool) -> Seq<char> {
    match status {
        Some(st) => "Interfaces: "@ + dec(st.total_interfaces as nat) + " | Bonds: "@ + dec(st.active_bonds as nat)
            + " | Tunnels: "@ + dec(st.connected_tunnels as nat) + " | Uptime: "@ + uptime_text(
            st.uptime_secs as nat,
        ) + (if st.failover_active { " | Failover Active"@ } else { Seq::empty() }) + match st.active_profile {
            Some(p) => " | Profile: "@ + p@,
            None => Seq::empty(),
        },
        None => if !connected {
            "Disconnected from daemon"@
        } else {
            "Loading system status..."@
        },
    }
}

/// The dashboard's system line.
pub fn system_line(status: &Option<StatusSummary>, connected: bool) -> (t: String)
    ensures
        t@ == system_line_spec(*status, connected),
{
    match status {
        Some(st) => {
            let mut t = lit("Interfaces: ");
            push_dec(&mut t, st.total_interfaces as u64);
            push_str(&mut t, " | Bonds: ");
            push_dec(&mut t, st.active_bonds as u64);
            push_str(&mut t, " | Tunnels: ");
            push_dec(&mut t, st.connected_tunnels as u64);
            push_str(&mut t, " | Uptime: ");
            let up = format_uptime(st.uptime_secs);
            push_str(&mut t, up.as_str());
            if st.failover_active {
                push_str(&mut t, " | Failover Active");
            }
            match &st.active_profile {
                Some(p) => {
                    push_str(&mut t, " | Profile: ");
                    push_str(&mut t, p.as_str());
                },
                None => {},
            }
            assert(t@ =~= system_line_spec(*status, connected));
            t
        },
        None => if !connected {
            lit("Disconnected from daemon")
        } else {
            lit("Loading system status...")
        },
    }
}

/// How a log line is highlighted.
#[derive(Debug, Clone, Copy, PartialEq, Eq)]
pub enum LogColor {
    Green,
    Red,
    Yellow,
    White,
}

/// The highlight of an event by its description: links coming up and
/// connections are green; links going down, errors and failovers red;
/// health changes yellow.
pub open spec fn log_color_spec(desc: Seq<char>) -> LogColor {
    if seq_contains(desc, "Up"@) || seq_contains(desc, "connected"@) {
        LogColor::Green
    } else if seq_contains(desc, "Down"@) || seq_contains(desc, "error"@) || seq_contains(desc, "Failover"@) {
        LogColor::Red
    } else if seq_contains(desc, "health"@) || seq_contains(desc, "Health"@) {
        LogColor::Yellow
    } else {
        LogColor::White
    }
}

/// The highlight of an event by its description.
pub fn log_color(desc: &str) -> (c: LogColor)
    ensures
        c == log_color_spec(desc@),
{
    if str_contains(desc, "Up") || str_contains(desc, "connected") {
        LogColor::Green
    } else if str_contains(desc, "Down") || str_contains(desc, "error") || str_contains(desc, "Failover") {
        LogColor::Red
    } else if str_contains(desc, "health") || str_contains(desc, "Health") {
        LogColor::Yellow
    } else {
        LogColor::White
    }
}

/// The label of a link state in the interface table.
pub fn link_state_label(s: LinkState) -> (t: &'static str)
    ensures
        t@ == match s {
            LinkState::Up => "UP"@,
            LinkState::Down => "DOWN"@,
            LinkState::Unknown => "???"@,
        },
{
    match s {
        LinkState::Up => "UP",
        LinkState::Down => "DOWN",
        LinkState::Unknown => "???",
    }
}

/// The speed column: `N Mbps`, or `-` when unknown.
pub fn speed_label(speed_mbps: Option<u64>) -> (t: String)
    ensures
        t@ == match speed_mbps {
            Some(s) => dec(s as nat) + " Mbps"@,
            None => "-"@,
        },
{
    match speed_mbps {
        Some(s) => {
            let mut t = String::new();
            push_dec(&mut t, s);
            push_str(&mut t, " Mbps");
            assert(t@ =~= dec(s as nat) + " Mbps"@);
            t
        },
        None => lit("-"),
    }
}

/// The events the log view draws: from the scroll position, the view's
/// height and five more, as a range of positions.
pub fn visible_log_range(len: usize, scroll: usize, height: usize) -> (r: (usize, usize))
    ensures
        r.0 == if scroll <= len { scroll } else { len },
        r.1 == if r.0 + height + 5 <= len { r.0 + height + 5 } else { len as int },
{
    let start = if scroll <= len { scroll } else { len };
    let room = len - start;
    let end = if height <= room && room - height >= 5 { start + height + 5 } else { len };
    (start, end)
}

/// The lines shown when no bond is configured.
pub open spec fn no_bonds_lines() -> Seq<Seq<char>> {
    seq![
        "No bonds configured."@,
        ""@,
        "Add bonds to /etc/netfusion/netfusion.toml:"@,
        ""@,
        "  [[bonds]]"@,
        "  name = \"netfusion0\""@,
        "  mode = \"active_backup\""@,
    ]
}

/// The lines shown when no bond is configured.
pub fn no_bonds_text() -> (v: Vec<String>)
    ensures
        v@.map_values(|s: String| s@) == no_bonds_lines(),
{
    let v = vec![
        lit("No bonds configured."),
        lit(""),
        lit("Add bonds to /etc/netfusion/netfusion.toml:"),
        lit(""),
        lit("  [[bonds]]"),
        lit("  name = \"netfusion0\""),
        lit("  mode = \"active_backup\""),
    ];
    assert(v@.map_values(|s: String| s@) =~= no_bonds_lines());
    v
}

} // verus!
