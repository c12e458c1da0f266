//! Key bindings of the terminal interface.
//!
//! `q` quits, left/right (or `h`/`l`) switch tabs, `r` clears the error.
//! On the interfaces tab up/down (or `k`/`j`) move the cursor; on the logs
//! tab they scroll, PageUp/PageDown scroll a page, `g` jumps to the top
//! (Ctrl-g and `G` to the bottom).

use vstd::prelude::*;

use crate::tui::app::{
    next_tab_spec, prev_tab_spec, scroll_bottom_spec, scroll_down_spec, scroll_top_spec, scroll_up_spec,
    select_down_spec, select_up_spec, App, TAB_INTERFACES, TAB_LOGS,
};

verus! {

/// A key, as far as the bindings tell keys apart.
#[derive(Debug, Clone, Copy, PartialEq, Eq)]
pub enum KeyCode {
    Char(char),
    Left,
    Right,
    Up,
    Down,
    PageUp,
    PageDown,
    /// Tab.
    Tab,
    /// Shift+Tab.
    BackTab,
    Other,
}

/// A key event.
#[derive(Debug, Clone, Copy)]
pub struct KeyPress {
    pub code: KeyCode,
    /// Whether the key went down (repeats and releases are ignored).
    pub is_press: bool,
    /// Whether Control was held.
    pub control: bool,
}

/// What a key does.
#[derive(Debug, Clone, Copy, PartialEq, Eq)]
pub enum KeyAction {
    Quit,
    NextTab,
    PrevTab,
    ClearError,
    SelectUp,
    SelectDown,
    ScrollUp,
    ScrollDown,
    PageUp,
    PageDown,
    ScrollTop,
    ScrollBottom,
    Ignore,
}

/// The action bound to `key` on tab `tab`.
pub open spec fn binding(key: KeyPress, tab: usize) -> KeyAction {
    if !key.is_press {
        KeyAction::Ignore
    } else {
        match key.code {
            KeyCode::Char('q') => KeyAction::Quit,
            KeyCode::Right | KeyCode::Char('l') | KeyCode::Tab => KeyAction::NextTab,
            KeyCode::Left | KeyCode::Char('h') | KeyCode::BackTab => KeyAction::PrevTab,
            KeyCode::Char('r') => KeyAction::ClearError,
            KeyCode::Up | KeyCode::Char('k') => if tab == 1 {
                KeyAction::SelectUp
            } else if tab == 3 {
                KeyAction::ScrollUp
            } else {
                KeyAction::Ignore
            },
            KeyCode::Down | KeyCode::Char('j') => if tab == 1 {
                KeyAction::SelectDown
            } else if tab == 3 {
                KeyAction::ScrollDown
            } else {
                KeyAction::Ignore
            },
            KeyCode::PageUp => if tab == 3 { KeyAction::PageUp } else { KeyAction::Ignore },
            KeyCode::PageDown => if tab == 3 { KeyAction::PageDown } else { KeyAction::Ignore },
            KeyCode::Char('g') => if tab != 3 {
                KeyAction::Ignore
            } else if key.control {
                KeyAction::ScrollBottom
            } else {
                KeyAction::ScrollTop
            },
            KeyCode::Char('G') => if tab == 3 { KeyAction::ScrollBottom } else { KeyAction::Ignore },
            _ => KeyAction::Ignore,
        }
    }
}

/// The state after `action`.
pub open spec fn after_action<St, I, E, B, T, S>(a: App<St, I, E, B, T, S>, action: KeyAction) -> App<
    St,
    I,
    E,
    B,
    T,
    S,
> {
    match action {
        KeyAction::Quit => App { running: false, ..a },
        KeyAction::NextTab => next_tab_spec(a),
        KeyAction::PrevTab => prev_tab_spec(a),
        KeyAction::ClearError => App { error: None, ..a },
        KeyAction::SelectUp => select_up_spec(a),
        KeyAction::SelectDown => select_down_spec(a),
        KeyAction::ScrollUp => scroll_up_spec(a, 3),
        KeyAction::ScrollDown => scroll_down_spec(a, 3),
        KeyAction::PageUp => scroll_up_spec(a, a.log_view_height as int),
        KeyAction::PageDown => scroll_down_spec(a, a.log_view_height as int),
        KeyAction::ScrollTop => scroll_top_spec(a),
        KeyAction::ScrollBottom => scroll_bottom_spec(a),
        KeyAction::Ignore => a,
    }
}

/// The action bound to a key on the given tab.
pub fn key_action(key: &KeyPress, tab: usize) -> (a: KeyAction)
    ensures
        a == binding(*key, tab),
{
    if !key.is_press {
        return KeyAction::Ignore;
    }
    match key.code {
        KeyCode::Char('q') => KeyAction::Quit,
        KeyCode::Right | KeyCode::Char('l') | KeyCode::Tab => KeyAction::NextTab,
        KeyCode::Left | KeyCode::Char('h') | KeyCode::BackTab => KeyAction::PrevTab,
        KeyCode::Char('r') => KeyAction::ClearError,
        KeyCode::Up | KeyCode::Char('k') => if tab == TAB_INTERFACES {
            KeyAction::SelectUp
        } else if tab == TAB_LOGS {
            KeyAction::ScrollUp
        } else {
            KeyAction::Ignore
        },
        KeyCode::Down | KeyCode::Char('j') => if tab == TAB_INTERFACES {
            KeyAction::SelectDown
        } else if tab == TAB_LOGS {
            KeyAction::ScrollDown
        } else {
            KeyAction::Ignore
        },
        KeyCode::PageUp => if tab == TAB_LOGS { KeyAction::PageUp } else { KeyAction::Ignore },
        KeyCode::PageDown => if tab == TAB_LOGS { KeyAction::PageDown } else { KeyAction::Ignore },
        KeyCode::Char('g') => if tab != TAB_LOGS {
            KeyAction::Ignore
        } else if key.control {
            KeyAction::ScrollBottom
        } else {
            KeyAction::ScrollTop
        },
        KeyCode::Char('G') => if tab == TAB_LOGS { KeyAction::ScrollBottom } else { KeyAction::Ignore },
        _ => KeyAction::Ignore,
    }
}

/// Applies a key to the interface state.
pub fn handle_key<St, I, E, B, T, S>(app: &mut App<St, I, E, B, T, S>, key: &KeyPress)
    requires
        binding(*key, old(app).selected_tab) == KeyAction::NextTab ==> old(app).selected_tab < usize::MAX,
    ensures
        *final(app) == after_action(*old(app), binding(*key, old(app).selected_tab)),
{
    match key_action(key, app.selected_tab) {
        KeyAction::Quit => {
            app.running = false;
        },
        KeyAction::NextTab => app.next_tab(),
        KeyAction::PrevTab => app.prev_tab(),
        KeyAction::ClearError => {
            app.error = None;
        },
        KeyAction::SelectUp => app.select_interface_up(),
        KeyAction::SelectDown => app.select_interface_down(),
        KeyAction::ScrollUp => app.scroll_logs_up(),
        KeyAction::ScrollDown => app.scroll_logs_down(),
        KeyAction::PageUp => app.scroll_logs_page_up(),
        KeyAction::PageDown => app.scroll_logs_page_down(),
        KeyAction::ScrollTop => app.scroll_logs_top(),
        KeyAction::ScrollBottom => app.scroll_logs_bottom(),
        KeyAction::Ignore => {},
    }
}

/// On the interfaces tab, a press of up (or `k`) moves the interface
/// cursor one entry toward the top and a press of down (or `j`) one entry
/// toward the bottom, each stopping at the end of the list and keeping the
/// tab; so down then up, from any entry but the last, comes back to the
/// same entry. On the logs tab, up never scrolls further down and down
/// never further up.
pub proof fn lemma_arrow_keys_move_cursor<St, I, E, B, T, S>(a: App<St, I, E, B, T, S>, up: KeyPress, down: KeyPress)
    requires
        a.interfaces@.len() <= usize::MAX,
        a.events@.len() <= usize::MAX,
        up.is_press,
        up.code == KeyCode::Up || up.code == KeyCode::Char('k'),
        down.is_press,
        down.code == KeyCode::Down || down.code == KeyCode::Char('j'),
    ensures
        a.selected_tab == TAB_INTERFACES ==> ({
            let a_up = after_action(a, binding(up, a.selected_tab));
            let a_down = after_action(a, binding(down, a.selected_tab));
            &&& a_up.selected_interface_idx == if a.selected_interface_idx > 0 {
                a.selected_interface_idx - 1
            } else {
                a.selected_interface_idx as int
            }
            &&& a_down.selected_interface_idx == if a.selected_interface_idx + 1 < a.interfaces@.len() {
                a.selected_interface_idx + 1
            } else {
                a.selected_interface_idx as int
            }
            &&& a_up.selected_tab == a.selected_tab && a_down.selected_tab == a.selected_tab
            &&& a.selected_interface_idx + 1 < a.interfaces@.len() ==> after_action(
                a_down,
                binding(up, a_down.selected_tab),
            ).selected_interface_idx == a.selected_interface_idx
        }),
        a.selected_tab == TAB_LOGS ==> ({
            let a_up = after_action(a, binding(up, a.selected_tab));
            let a_down = after_action(a, binding(down, a.selected_tab));
            &&& a_up.log_scroll_pos <= a.log_scroll_pos
            &&& a.log_scroll_pos <= crate::tui::app::log_max_scroll(a) ==> a_down.log_scroll_pos >= a.log_scroll_pos
            &&& a_up.selected_interface_idx == a.selected_interface_idx
            &&& a_down.selected_interface_idx == a.selected_interface_idx
        }),
{
    if up.code == KeyCode::Up {
        assert(binding(up, TAB_INTERFACES) == KeyAction::SelectUp);
        assert(binding(up, TAB_LOGS) == KeyAction::ScrollUp);
    } else {
        assert(binding(up, TAB_INTERFACES) == KeyAction::SelectUp);
        assert(binding(up, TAB_LOGS) == KeyAction::ScrollUp);
    }
    if down.code == KeyCode::Down {
        assert(binding(down, TAB_INTERFACES) == KeyAction::SelectDown);
        assert(binding(down, TAB_LOGS) == KeyAction::ScrollDown);
    } else {
        assert(binding(down, TAB_INTERFACES) == KeyAction::SelectDown);
        assert(binding(down, TAB_LOGS) == KeyAction::ScrollDown);
    }
    crate::tui::app::lemma_log_scroll_bounded(a, 3);
}

} // verus!
