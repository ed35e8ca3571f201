use llama_hud::app::ConfigField;
use llama_hud::layout::{chart_window, config_tooltip, footer_text, log_window_start, slot_bar_width, visible_panels, Panel};

#[test]
fn panels_follow_toggles() {
    assert_eq!(visible_panels(true, true, true), vec![Panel::Stats, Panel::Slots, Panel::Logs]);
    assert_eq!(visible_panels(false, true, false), vec![Panel::Slots]);
    assert_eq!(visible_panels(true, false, true), vec![Panel::Stats, Panel::Logs]);
    assert_eq!(visible_panels(false, false, false), vec![Panel::Stats]);
}

#[test]
fn footer_shows_toggle_states() {
    assert_eq!(
        footer_text(true, false, true, false),
        " 1=stats(on)  2=slots(off)  3=detail(on)  4=logs(off)  ↑↓=select  q=quit"
    );
}

#[test]
fn windows_show_the_latest_points() {
    assert_eq!(log_window_start(100, 30), 70);
    assert_eq!(log_window_start(10, 30), 0);
    assert_eq!(chart_window(200, 50, 80), (50, 150));
    assert_eq!(chart_window(40, 50, 80), (40, 0));
    assert_eq!(slot_bar_width(100), 55);
    assert_eq!(slot_bar_width(50), 10);
    assert_eq!(slot_bar_width(0), 10);
}

#[test]
fn editor_tooltips() {
    assert_eq!(config_tooltip(ConfigField::SlotsPollMs), "How often to poll /slots endpoint in milliseconds");
    assert!(config_tooltip(ConfigField::Theme).starts_with("← → cycle: default, nord"));
}
