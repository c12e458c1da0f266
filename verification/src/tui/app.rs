//! Application state of the terminal interface: tabs, selection, log
//! scrolling, the redraw flag, and the rolling buffers of events and
//! health samples.
//!
//! The state is generic over what the daemon reports: the system status
//! `St`, interfaces `I`, events `E`, bonds `B`, tunnels `T`, and health
//! samples `S`.

use std::collections::VecDeque;

use vstd::prelude::*;

use crate::rolling::{keep_last, push_all_bounded, push_bounded};

verus! {

/// Number of tabs (dashboard, interfaces, bonds, logs).
pub const TAB_COUNT: usize = 4;

/// Tab index of the interfaces tab.
pub const TAB_INTERFACES: usize = 1;

/// Tab index of the logs tab.
pub const TAB_LOGS: usize = 3;

/// Events kept in the rolling buffer.
pub const MAX_EVENTS: usize = 100;

/// Health samples kept for the trend line.
pub const MAX_HEALTH_SAMPLES: usize = 60;

/// Lines one log scroll step moves.
pub const LOG_SCROLL_STEP: usize = 3;

/// The main application state.
pub struct App<St, I, E, B, T, S> {
    /// Whether the app should keep running.
    pub running: bool,
    /// Current system status.
    pub status: Option<St>,
    /// Discovered interfaces.
    pub interfaces: Vec<I>,
    /// Recent events (rolling buffer).
    pub events: VecDeque<E>,
    /// Selected tab (0 dashboard, 1 interfaces, 2 bonds, 3 logs).
    pub selected_tab: usize,
    /// Whether we are connected to the daemon.
    pub connected: bool,
    /// Last error message.
    pub error: Option<String>,
    /// Set when data changes; consumed by the render loop.
    pub dirty: bool,
    /// True while a data fetch is in flight.
    pub is_loading: bool,
    /// Rolling health score history for the trend line.
    pub health_history: VecDeque<S>,
    /// Bond states.
    pub bonds: Vec<B>,
    /// Tunnel states.
    pub tunnels: Vec<T>,
    /// Scroll position of the interfaces table.
    pub interface_scroll_pos: usize,
    /// Scroll position of the log list.
    pub log_scroll_pos: usize,
    /// Cursor within the interface list.
    pub selected_interface_idx: usize,
    /// Viewport height of the interfaces table (set while rendering).
    pub interface_view_height: u16,
    /// Viewport height of the log area (set while rendering).
    pub log_view_height: u16,
}

/// `a` and `b` hold the same data and the same viewport sizes: only the
/// navigation, the redraw flag, the running flag and the error may differ.
pub open spec fn same_data<St, I, E, B, T, S>(a: App<St, I, E, B, T, S>, b: App<St, I, E, B, T, S>) -> bool {
    &&& a.status == b.status
    &&& a.interfaces == b.interfaces
    &&& a.events == b.events
    &&& a.connected == b.connected
    &&& a.is_loading == b.is_loading
    &&& a.health_history == b.health_history
    &&& a.bonds == b.bonds
    &&& a.tunnels == b.tunnels
    &&& a.interface_scroll_pos == b.interface_scroll_pos
    &&& a.interface_view_height == b.interface_view_height
    &&& a.log_view_height == b.log_view_height
}

/// The furthest the log can scroll: the events that do not fit the view.
pub open spec fn log_max_scroll<St, I, E, B, T, S>(a: App<St, I, E, B, T, S>) -> int {
    let h = a.log_view_height as int;
    if a.events@.len() > h { a.events@.len() - h } else { 0 }
}

pub open spec fn min_int(x: int, y: int) -> int {
    if x <= y { x } else { y }
}

pub open spec fn saturating_sub(x: int, y: int) -> int {
    if x >= y { x - y } else { 0 }
}

/// The state after moving to the next tab.
pub open spec fn next_tab_spec<St, I, E, B, T, S>(a: App<St, I, E, B, T, S>) -> App<St, I, E, B, T, S> {
    App { selected_tab: ((a.selected_tab + 1) % 4) as usize, dirty: true, ..a }
}

/// The state after moving to the previous tab.
pub open spec fn prev_tab_spec<St, I, E, B, T, S>(a: App<St, I, E, B, T, S>) -> App<St, I, E, B, T, S> {
    App { selected_tab: if a.selected_tab == 0 { 3 } else { (a.selected_tab - 1) as usize }, dirty: true, ..a }
}

/// The state after moving the interface cursor up.
pub open spec fn select_up_spec<St, I, E, B, T, S>(a: App<St, I, E, B, T, S>) -> App<St, I, E, B, T, S> {
    if a.selected_interface_idx > 0 {
        App { selected_interface_idx: (a.selected_interface_idx - 1) as usize, dirty: true, ..a }
    } else {
        a
    }
}

/// The state after moving the interface cursor down.
pub open spec fn select_down_spec<St, I, E, B, T, S>(a: App<St, I, E, B, T, S>) -> App<St, I, E, B, T, S> {
    if a.selected_interface_idx + 1 < a.interfaces@.len() {
        App { selected_interface_idx: (a.selected_interface_idx + 1) as usize, dirty: true, ..a }
    } else {
        a
    }
}

/// The state after scrolling the log up by `step` lines.
pub open spec fn scroll_up_spec<St, I, E, B, T, S>(a: App<St, I, E, B, T, S>, step: int) -> App<St, I, E, B, T, S> {
    App { log_scroll_pos: saturating_sub(a.log_scroll_pos as int, step) as usize, dirty: true, ..a }
}

/// The state after scrolling the log down by `step` lines.
pub open spec fn scroll_down_spec<St, I, E, B, T, S>(a: App<St, I, E, B, T, S>, step: int) -> App<St, I, E, B, T, S> {
    App { log_scroll_pos: min_int(a.log_scroll_pos + step, log_max_scroll(a)) as usize, dirty: true, ..a }
}

/// The state after jumping to the top of the log.
pub open spec fn scroll_top_spec<St, I, E, B, T, S>(a: App<St, I, E, B, T, S>) -> App<St, I, E, B, T, S> {
    App { log_scroll_pos: 0, dirty: true, ..a }
}

/// The state after jumping to the last page of the log.
pub open spec fn scroll_bottom_spec<St, I, E, B, T, S>(a: App<St, I, E, B, T, S>) -> App<St, I, E, B, T, S> {
    App { log_scroll_pos: log_max_scroll(a) as usize, dirty: true, ..a }
}

/// `min(pos + step, max)` without overflow.
fn advance(pos: usize, step: usize, max: usize) -> (r: usize)
    ensures
        r == min_int(pos + step, max as int),
{
    if pos >= max || max - pos <= step {
        max
    } else {
        pos + step
    }
}

impl<St, I, E, B, T, S> App<St, I, E, B, T, S> {
    /// A fresh state: running, disconnected, on the dashboard, with no data.
    pub fn new() -> (a: Self)
        ensures
            a.running,
            a.status is None,
            a.interfaces@.len() == 0,
            a.events@.len() == 0,
            a.selected_tab == 0,
            !a.connected,
            a.error is None,
            !a.dirty,
            !a.is_loading,
            a.health_history@.len() == 0,
            a.bonds@.len() == 0,
            a.tunnels@.len() == 0,
            a.interface_scroll_pos == 0,
            a.log_scroll_pos == 0,
            a.selected_interface_idx == 0,
            a.interface_view_height == 0,
            a.log_view_height == 0,
    {
        App {
            running: true,
            status: None,
            interfaces: Vec::new(),
            events: VecDeque::with_capacity(MAX_EVENTS),
            selected_tab: 0,
            connected: false,
            error: None,
            dirty: false,
            is_loading: false,
            health_history: VecDeque::with_capacity(MAX_HEALTH_SAMPLES),
            bonds: Vec::new(),
            tunnels: Vec::new(),
            interface_scroll_pos: 0,
            log_scroll_pos: 0,
            selected_interface_idx: 0,
            interface_view_height: 0,
            log_view_height: 0,
        }
    }

    /// Moves to the next tab, wrapping around after the last.
    pub fn next_tab(&mut self)
        requires
            old(self).selected_tab < usize::MAX,
        ensures
            *final(self) == next_tab_spec(*old(self)),
    {
        self.selected_tab = (self.selected_tab + 1) % TAB_COUNT;
        self.mark_dirty();
    }

    /// Moves to the previous tab, wrapping around before the first.
    pub fn prev_tab(&mut self)
        ensures
            *final(self) == prev_tab_spec(*old(self)),
    {
        self.selected_tab = if self.selected_tab == 0 {
            TAB_COUNT - 1
        } else {
            self.selected_tab - 1
        };
        self.mark_dirty();
    }

    /// Adds an event, dropping the oldest beyond the last 100.
    pub fn push_event(&mut self, event: E)
        ensures
            final(self).events@ == keep_last(old(self).events@.push(event), MAX_EVENTS as nat),
            final(self).running == old(self).running,
            final(self).status == old(self).status,
            final(self).interfaces == old(self).interfaces,
            final(self).selected_tab == old(self).selected_tab,
            final(self).connected == old(self).connected,
            final(self).error == old(self).error,
            final(self).dirty == old(self).dirty,
            final(self).is_loading == old(self).is_loading,
            final(self).health_history == old(self).health_history,
            final(self).bonds == old(self).bonds,
            final(self).tunnels == old(self).tunnels,
            final(self).interface_scroll_pos == old(self).interface_scroll_pos,
            final(self).log_scroll_pos == old(self).log_scroll_pos,
            final(self).selected_interface_idx == old(self).selected_interface_idx,
            final(self).interface_view_height == old(self).interface_view_height,
            final(self).log_view_height == old(self).log_view_height,
    {
        push_bounded(&mut self.events, event, MAX_EVENTS);
    }

    /// Marks the state as needing a redraw.
    pub fn mark_dirty(&mut self)
        ensures
            *final(self) == (App { dirty: true, ..*old(self) }),
    {
        self.dirty = true;
    }

    /// Consumes the redraw flag: whether a redraw is needed.
    pub fn take_dirty(&mut self) -> (d: bool)
        ensures
            d == old(self).dirty,
            *final(self) == (App { dirty: false, ..*old(self) }),
    {
        let d = self.dirty;
        self.dirty = false;
        d
    }

    /// Adds a health sample, dropping the oldest beyond the last 60.
    pub fn push_health_sample(&mut self, score: S)
        ensures
            final(self).health_history@ == keep_last(
                old(self).health_history@.push(score),
                MAX_HEALTH_SAMPLES as nat,
            ),
            final(self).running == old(self).running,
            final(self).status == old(self).status,
            final(self).interfaces == old(self).interfaces,
            final(self).events == old(self).events,
            final(self).selected_tab == old(self).selected_tab,
            final(self).connected == old(self).connected,
            final(self).error == old(self).error,
            final(self).dirty == old(self).dirty,
            final(self).is_loading == old(self).is_loading,
            final(self).bonds == old(self).bonds,
            final(self).tunnels == old(self).tunnels,
            final(self).interface_scroll_pos == old(self).interface_scroll_pos,
            final(self).log_scroll_pos == old(self).log_scroll_pos,
            final(self).selected_interface_idx == old(self).selected_interface_idx,
            final(self).interface_view_height == old(self).interface_view_height,
            final(self).log_view_height == old(self).log_view_height,
    {
        push_bounded(&mut self.health_history, score, MAX_HEALTH_SAMPLES);
    }

    /// Moves the interface cursor up, if it can move.
    pub fn select_interface_up(&mut self)
        ensures
            *final(self) == select_up_spec(*old(self)),
    {
        if self.selected_interface_idx > 0 {
            self.selected_interface_idx = self.selected_interface_idx - 1;
            self.mark_dirty();
        }
    }

    /// Moves the interface cursor down, if an interface follows.
    pub fn select_interface_down(&mut self)
        ensures
            *final(self) == select_down_spec(*old(self)),
    {
        if self.interfaces.len() > 0 && self.selected_interface_idx < self.interfaces.len() - 1 {
            self.selected_interface_idx = self.selected_interface_idx + 1;
            self.mark_dirty();
        }
    }

    /// Scrolls the log up by three lines, stopping at the top.
    pub fn scroll_logs_up(&mut self)
        ensures
            *final(self) == scroll_up_spec(*old(self), 3),
    {
        self.log_scroll_pos = self.log_scroll_pos.saturating_sub(LOG_SCROLL_STEP);
        self.mark_dirty();
    }

    fn max_log_scroll(&self) -> (m: usize)
        ensures
            m == log_max_scroll(*self),
    {
        self.events.len().saturating_sub(self.log_view_height as usize)
    }

    /// Scrolls the log down by three lines, no further than the last page.
    pub fn scroll_logs_down(&mut self)
        ensures
            *final(self) == scroll_down_spec(*old(self), 3),
    {
        let max = self.max_log_scroll();
        self.log_scroll_pos = advance(self.log_scroll_pos, LOG_SCROLL_STEP, max);
        self.mark_dirty();
    }

    /// Scrolls the log up by a page, stopping at the top.
    pub fn scroll_logs_page_up(&mut self)
        ensures
            *final(self) == scroll_up_spec(*old(self), old(self).log_view_height as int),
    {
        let step = self.log_view_height as usize;
        self.log_scroll_pos = self.log_scroll_pos.saturating_sub(step);
        self.mark_dirty();
    }

    /// Scrolls the log down by a page, no further than the last page.
    pub fn scroll_logs_page_down(&mut self)
        ensures
            *final(self) == scroll_down_spec(*old(self), old(self).log_view_height as int),
    {
        let max = self.max_log_scroll();
        let step = self.log_view_height as usize;
        self.log_scroll_pos = advance(self.log_scroll_pos, step, max);
        self.mark_dirty();
    }

    /// Jumps to the top of the log.
    pub fn scroll_logs_top(&mut self)
        ensures
            *final(self) == scroll_top_spec(*old(self)),
    {
        self.log_scroll_pos = 0;
        self.mark_dirty();
    }

    /// Jumps to the last page of the log.
    pub fn scroll_logs_bottom(&mut self)
        ensures
            *final(self) == scroll_bottom_spec(*old(self)),
    {
        let max = self.max_log_scroll();
        self.log_scroll_pos = max;
        self.mark_dirty();
    }

    /// Takes a new system status and its overall health sample, if any.
    pub fn apply_status(&mut self, status: St, sample: Option<S>)
        ensures
            final(self).status == Some(status),
            final(self).health_history@ == match sample {
                Some(s) => keep_last(old(self).health_history@.push(s), MAX_HEALTH_SAMPLES as nat),
                None => old(self).health_history@,
            },
            final(self).dirty,
            final(self).running == old(self).running,
            final(self).interfaces == old(self).interfaces,
            final(self).events == old(self).events,
            final(self).selected_tab == old(self).selected_tab,
            final(self).connected == old(self).connected,
            final(self).error == old(self).error,
            final(self).is_loading == old(self).is_loading,
            final(self).bonds == old(self).bonds,
            final(self).tunnels == old(self).tunnels,
            final(self).interface_scroll_pos == old(self).interface_scroll_pos,
            final(self).log_scroll_pos == old(self).log_scroll_pos,
            final(self).selected_interface_idx == old(self).selected_interface_idx,
            final(self).interface_view_height == old(self).interface_view_height,
            final(self).log_view_height == old(self).log_view_height,
    {
        match sample {
            Some(s) => self.push_health_sample(s),
            None => {},
        }
        self.status = Some(status);
        self.mark_dirty();
    }

    /// Takes a new interface list and the overall health samples of its
    /// interfaces (in list order); the cursor stays on the list.
    pub fn apply_interfaces(&mut self, interfaces: Vec<I>, samples: Vec<S>)
        ensures
            final(self).interfaces == interfaces,
            final(self).selected_interface_idx == if old(self).selected_interface_idx >= interfaces@.len() {
                saturating_sub(interfaces@.len() as int, 1) as usize
            } else {
                old(self).selected_interface_idx
            },
            final(self).health_history@ == if samples@.len() == 0 {
                old(self).health_history@
            } else {
                keep_last(old(self).health_history@ + samples@, MAX_HEALTH_SAMPLES as nat)
            },
            final(self).dirty,
            final(self).running == old(self).running,
            final(self).status == old(self).status,
            final(self).events == old(self).events,
            final(self).selected_tab == old(self).selected_tab,
            final(self).connected == old(self).connected,
            final(self).error == old(self).error,
            final(self).is_loading == old(self).is_loading,
            final(self).bonds == old(self).bonds,
            final(self).tunnels == old(self).tunnels,
            final(self).interface_scroll_pos == old(self).interface_scroll_pos,
            final(self).log_scroll_pos == old(self).log_scroll_pos,
            final(self).interface_view_height == old(self).interface_view_height,
            final(self).log_view_height == old(self).log_view_height,
    {
        self.interfaces = interfaces;
        if self.selected_interface_idx >= self.interfaces.len() {
            self.selected_interface_idx = self.interfaces.len().saturating_sub(1);
        }
        push_all_bounded(&mut self.health_history, samples, MAX_HEALTH_SAMPLES);
        self.mark_dirty();
    }

    /// Takes new bond states.
    pub fn apply_bonds(&mut self, bonds: Vec<B>)
        ensures
            *final(self) == (App { bonds, dirty: true, ..*old(self) }),
    {
        self.bonds = bonds;
        self.mark_dirty();
    }

    /// Takes new tunnel states.
    pub fn apply_tunnels(&mut self, tunnels: Vec<T>)
        ensures
            *final(self) == (App { tunnels, dirty: true, ..*old(self) }),
    {
        self.tunnels = tunnels;
        self.mark_dirty();
    }

    /// Adds a batch of events, in order, to the rolling buffer.
    pub fn apply_events(&mut self, events: Vec<E>)
        ensures
            final(self).events@ == if events@.len() == 0 {
                old(self).events@
            } else {
                keep_last(old(self).events@ + events@, MAX_EVENTS as nat)
            },
            final(self).running == old(self).running,
            final(self).status == old(self).status,
            final(self).interfaces == old(self).interfaces,
            final(self).selected_tab == old(self).selected_tab,
            final(self).connected == old(self).connected,
            final(self).error == old(self).error,
            final(self).dirty == old(self).dirty,
            final(self).is_loading == old(self).is_loading,
            final(self).health_history == old(self).health_history,
            final(self).bonds == old(self).bonds,
            final(self).tunnels == old(self).tunnels,
            final(self).interface_scroll_pos == old(self).interface_scroll_pos,
            final(self).log_scroll_pos == old(self).log_scroll_pos,
            final(self).selected_interface_idx == old(self).selected_interface_idx,
            final(self).interface_view_height == old(self).interface_view_height,
            final(self).log_view_height == old(self).log_view_height,
    {
        push_all_bounded(&mut self.events, events, MAX_EVENTS);
    }

    /// Sets whether a fetch is in flight.
    pub fn set_loading(&mut self, loading: bool)
        ensures
            *final(self) == (App { is_loading: loading, dirty: true, ..*old(self) }),
    {
        self.is_loading = loading;
        self.mark_dirty();
    }

    /// Records an error message.
    pub fn set_error(&mut self, err: String)
        ensures
            *final(self) == (App { error: Some(err), dirty: true, ..*old(self) }),
    {
        self.error = Some(err);
        self.mark_dirty();
    }
}

/// Moving to the next tab and back returns to the same tab.
pub proof fn lemma_tab_round_trip<St, I, E, B, T, S>(a: App<St, I, E, B, T, S>)
    requires
        a.selected_tab < TAB_COUNT,
    ensures
        prev_tab_spec(next_tab_spec(a)).selected_tab == a.selected_tab,
        next_tab_spec(prev_tab_spec(a)).selected_tab == a.selected_tab,
        next_tab_spec(a).selected_tab < TAB_COUNT,
        prev_tab_spec(a).selected_tab < TAB_COUNT,
{
}

/// Four steps to the next tab come back to the start.
pub proof fn lemma_tab_cycle<St, I, E, B, T, S>(a: App<St, I, E, B, T, S>)
    requires
        a.selected_tab < TAB_COUNT,
    ensures
        next_tab_spec(next_tab_spec(next_tab_spec(next_tab_spec(a)))).selected_tab == a.selected_tab,
{
}

/// The log never scrolls past its last page, and scrolling up never
/// moves down.
pub proof fn lemma_log_scroll_bounded<St, I, E, B, T, S>(a: App<St, I, E, B, T, S>, step: int)
    requires
        step >= 0,
        a.events@.len() <= usize::MAX,
    ensures
        scroll_down_spec(a, step).log_scroll_pos <= log_max_scroll(a),
        scroll_bottom_spec(a).log_scroll_pos == log_max_scroll(a),
        scroll_up_spec(a, step).log_scroll_pos <= a.log_scroll_pos,
        log_max_scroll(a) <= a.events@.len(),
{
}

/// The interface cursor stays on the list.
pub proof fn lemma_cursor_in_list<St, I, E, B, T, S>(a: App<St, I, E, B, T, S>)
    requires
        a.selected_interface_idx < a.interfaces@.len(),
    ensures
        select_down_spec(a).selected_interface_idx < a.interfaces@.len(),
        select_up_spec(a).selected_interface_idx < a.interfaces@.len(),
{
}

} // verus!
