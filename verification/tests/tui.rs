use netfusion::tui::app::App;
use netfusion::tui::keys::{handle_key, key_action, KeyAction, KeyCode, KeyPress};
use netfusion::tui::view::{
    format_uptime, help_text, log_color, speed_label, status_bar_text, system_line, title_text, visible_log_range,
    LogColor, StatusSummary,
};
use netfusion::types::LinkState;

type TestApp = App<u32, String, String, String, String, u64>;

fn press(code: KeyCode) -> KeyPress {
    KeyPress { code, is_press: true, control: false }
}

#[test]
fn tabs_wrap_around() {
    let mut app = TestApp::new();
    app.prev_tab();
    assert_eq!(app.selected_tab, 3);
    app.next_tab();
    assert_eq!(app.selected_tab, 0);
    for _ in 0..4 {
        app.next_tab();
    }
    assert_eq!(app.selected_tab, 0);
    assert!(app.take_dirty());
    assert!(!app.take_dirty());
}

#[test]
fn event_buffer_keeps_last_hundred() {
    let mut app = TestApp::new();
    for i in 0..150 {
        app.push_event(format!("event {}", i));
    }
    assert_eq!(app.events.len(), 100);
    assert_eq!(app.events.front().unwrap(), "event 50");
    assert_eq!(app.events.back().unwrap(), "event 149");
}

#[test]
fn health_history_keeps_last_sixty() {
    let mut app = TestApp::new();
    app.apply_interfaces(vec!["eth0".into()], (0..100).collect());
    assert_eq!(app.health_history.len(), 60);
    assert_eq!(*app.health_history.front().unwrap(), 40);
    app.apply_status(9, Some(500));
    assert_eq!(*app.health_history.back().unwrap(), 500);
    assert_eq!(app.status, Some(9));
}

#[test]
fn cursor_stays_on_the_interface_list() {
    let mut app = TestApp::new();
    app.apply_interfaces(vec!["a".into(), "b".into(), "c".into()], vec![]);
    app.select_interface_down();
    app.select_interface_down();
    app.select_interface_down();
    assert_eq!(app.selected_interface_idx, 2);
    app.apply_interfaces(vec!["a".into()], vec![]);
    assert_eq!(app.selected_interface_idx, 0);
    app.select_interface_up();
    assert_eq!(app.selected_interface_idx, 0);
}

#[test]
fn log_scrolling_is_bounded() {
    let mut app = TestApp::new();
    app.apply_events((0..30).map(|i| i.to_string()).collect());
    app.log_view_height = 10;
    app.scroll_logs_down();
    assert_eq!(app.log_scroll_pos, 3);
    app.scroll_logs_page_down();
    assert_eq!(app.log_scroll_pos, 13);
    app.scroll_logs_page_down();
    assert_eq!(app.log_scroll_pos, 20);
    app.scroll_logs_up();
    assert_eq!(app.log_scroll_pos, 17);
    app.scroll_logs_page_up();
    assert_eq!(app.log_scroll_pos, 7);
    app.scroll_logs_top();
    assert_eq!(app.log_scroll_pos, 0);
    app.scroll_logs_bottom();
    assert_eq!(app.log_scroll_pos, 20);
}

#[test]
fn key_bindings() {
    assert_eq!(key_action(&press(KeyCode::Char('q')), 0), KeyAction::Quit);
    assert_eq!(key_action(&press(KeyCode::Right), 2), KeyAction::NextTab);
    assert_eq!(key_action(&press(KeyCode::Char('h')), 2), KeyAction::PrevTab);
    assert_eq!(key_action(&press(KeyCode::Down), 1), KeyAction::SelectDown);
    assert_eq!(key_action(&press(KeyCode::Char('j')), 3), KeyAction::ScrollDown);
    assert_eq!(key_action(&press(KeyCode::Down), 0), KeyAction::Ignore);
    assert_eq!(key_action(&KeyPress { code: KeyCode::Char('g'), is_press: true, control: true }, 3), KeyAction::ScrollBottom);
    assert_eq!(key_action(&press(KeyCode::Char('g')), 3), KeyAction::ScrollTop);
    assert_eq!(key_action(&KeyPress { code: KeyCode::Char('q'), is_press: false, control: false }, 0), KeyAction::Ignore);

    let mut app = TestApp::new();
    app.error = Some("boom".into());
    handle_key(&mut app, &press(KeyCode::Char('r')));
    assert!(app.error.is_none());
    handle_key(&mut app, &press(KeyCode::Char('l')));
    assert_eq!(app.selected_tab, 1);
    handle_key(&mut app, &press(KeyCode::Char('q')));
    assert!(!app.running);
}

#[test]
fn view_texts() {
    assert_eq!(format_uptime(3723), "1h 2m 3s");
    assert_eq!(format_uptime(125), "2m 5s");
    assert_eq!(format_uptime(7), "7s");
    assert_eq!(format_uptime(3600), "1h 0m 0s");
    assert_eq!(help_text(1), "q:quit | ←/→:tabs | ↑↓/jk:select | r:refresh");
    assert_eq!(title_text(false), " NetFusion");
    assert_eq!(status_bar_text(Some("12:00:00"), 3, 0), "Last: 12:00:00 | Events: 3 | q:quit | ←/→:tabs | r:refresh");
    assert_eq!(status_bar_text(None, 0, 9), "q:quit | ←/→:tabs");
    assert_eq!(speed_label(Some(1000)), "1000 Mbps");
    assert_eq!(speed_label(None), "-");
    assert_eq!(netfusion::tui::view::link_state_label(LinkState::Unknown), "???");
}

#[test]
fn system_line_text() {
    let st = StatusSummary {
        total_interfaces: 3,
        active_bonds: 1,
        connected_tunnels: 0,
        uptime_secs: 65,
        failover_active: true,
        active_profile: Some("gaming".into()),
    };
    assert_eq!(
        system_line(&Some(st), true),
        "Interfaces: 3 | Bonds: 1 | Tunnels: 0 | Uptime: 1m 5s | Failover Active | Profile: gaming"
    );
    assert_eq!(system_line(&None, false), "Disconnected from daemon");
    assert_eq!(system_line(&None, true), "Loading system status...");
}

#[test]
fn log_colors_and_window() {
    assert_eq!(log_color("Interface eth0 is up"), LogColor::White);
    assert_eq!(log_color("Tunnel t connected"), LogColor::Green);
    assert_eq!(log_color("Failover on b -> eth1"), LogColor::Red);
    assert_eq!(log_color("Interface eth0 health: 50.0"), LogColor::Yellow);
    assert_eq!(visible_log_range(100, 10, 20), (10, 35));
    assert_eq!(visible_log_range(30, 10, 20), (10, 30));
    assert_eq!(visible_log_range(5, 10, 20), (5, 5));
}

#[test]
fn tab_and_shift_tab_switch_tabs() {
    let mut app = TestApp::new();
    handle_key(&mut app, &press(KeyCode::Tab));
    assert_eq!(app.selected_tab, 1);
    handle_key(&mut app, &press(KeyCode::BackTab));
    handle_key(&mut app, &press(KeyCode::BackTab));
    assert_eq!(app.selected_tab, 3);
    assert_eq!(key_action(&press(KeyCode::Tab), 3), KeyAction::NextTab);
    assert_eq!(key_action(&press(KeyCode::BackTab), 1), KeyAction::PrevTab);
}
