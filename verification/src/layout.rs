//! Screen layout decisions: which panels show, what the footer and the
//! editor say, and which part of the logs and charts is visible.

use vstd::prelude::*;
use crate::app::ConfigField;

verus! {

/// A panel of the dashboard body.
#[derive(Clone, Copy, Debug, PartialEq, Eq, Structural)]
pub enum Panel {
    Stats,
    Slots,
    Logs,
}

/// The panels shown, top to bottom: stats, slots and logs as toggled on;
/// the stats panel alone when all are off.
pub open spec fn spec_visible_panels(stats: bool, slots: bool, logs: bool) -> Seq<Panel> {
    let s = if stats { seq![Panel::Stats] } else { Seq::empty() };
    let s = if slots { s.push(Panel::Slots) } else { s };
    let s = if logs { s.push(Panel::Logs) } else { s };
    if s.len() == 0 { seq![Panel::Stats] } else { s }
}

/// The panels shown (see `spec_visible_panels`).
pub fn visible_panels(stats: bool, slots: bool, logs: bool) -> (r: Vec<Panel>)
    ensures
        r@ == spec_visible_panels(stats, slots, logs),
{
    let mut r: Vec<Panel> = Vec::new();
    if stats {
        r.push(Panel::Stats);
    }
    if slots {
        r.push(Panel::Slots);
    }
    if logs {
        r.push(Panel::Logs);
    }
    if r.len() == 0 {
        r.push(Panel::Stats);
    }
    assert(r@ =~= spec_visible_panels(stats, slots, logs));
    r
}

/// `"on"` or `"off"`.
pub open spec fn on_off(b: bool) -> Seq<char> {
    if b { seq!['o', 'n'] } else { seq!['o', 'f', 'f'] }
}

fn on_off_str(b: bool) -> (r: &'static str)
    ensures
        r@ == on_off(b),
{
    proof {
        reveal_strlit("on");
        reveal_strlit("off");
    }
    if b {
        assert("on"@ =~= on_off(b));
        "on"
    } else {
        assert("off"@ =~= on_off(b));
        "off"
    }
}

/// The footer line: the view toggles with their states, then the other keys.
pub open spec fn spec_footer_text(stats: bool, slots: bool, detail: bool, logs: bool) -> Seq<char> {
    " 1=stats("@ + on_off(stats) + ")  2=slots("@ + on_off(slots) + ")  3=detail("@ + on_off(detail)
        + ")  4=logs("@ + on_off(logs) + ")  ↑↓=select  q=quit"@
}

/// The footer line (see `spec_footer_text`).
pub fn footer_text(stats: bool, slots: bool, detail: bool, logs: bool) -> (r: String)
    ensures
        r@ == spec_footer_text(stats, slots, detail, logs),
{
    let mut r = String::from_str(" 1=stats(");
    r.append(on_off_str(stats));
    r.append(")  2=slots(");
    r.append(on_off_str(slots));
    r.append(")  3=detail(");
    r.append(on_off_str(detail));
    r.append(")  4=logs(");
    r.append(on_off_str(logs));
    r.append(")  ↑↓=select  q=quit");
    r
}

/// Index of the first log line shown when `height` lines fit: the last
/// `height` lines are shown.
pub fn log_window_start(len: usize, height: usize) -> (r: usize)
    ensures
        r == (if len > height { len - height } else { 0 }),
{
    if len > height {
        len - height
    } else {
        0
    }
}

/// Points shown in a chart `width` points wide fed by two histories of
/// `a` and `b` points, and the blank points before them.
pub fn chart_window(width: usize, a: usize, b: usize) -> (r: (usize, usize))
    ensures
        r.0 <= width && r.0 <= a && r.0 <= b,
        r.0 == width || r.0 == a || r.0 == b,
        r.1 == width - r.0,
{
    let n = if width < a { width } else { a };
    let n = if n < b { n } else { b };
    (n, width - n)
}

/// Width of a slot's progress bar in a list `area_width` cells wide: what is
/// left after 45 cells of text, at least 10.
pub fn slot_bar_width(area_width: usize) -> (r: usize)
    ensures
        r == (if area_width >= 55 { area_width - 45 } else { 10 }),
{
    let rest = area_width.saturating_sub(45);
    if rest > 10 { rest } else { 10 }
}

/// Help text shown in the editor for each field.
pub open spec fn spec_config_tooltip(field: ConfigField) -> Seq<char> {
    match field {
        ConfigField::Url => "Base URL of the llama-server HTTP API (e.g. http://127.0.0.1:8080)"@,
        ConfigField::TmuxSession => "Tmux session name to tail logs from (leave empty to disable)"@,
        ConfigField::SlotsPollMs => "How often to poll /slots endpoint in milliseconds"@,
        ConfigField::MetricsPollMs => "How often to poll /metrics endpoint in milliseconds"@,
        ConfigField::ChartHistory => "Number of data points to keep in chart history"@,
        ConfigField::Theme => "← → cycle: default, nord, gruvbox, catppuccin, dracula, tokyo-night, kanagawa, onedark, horizon, flexoki"@,
    }
}

/// Help text shown in the editor for `field` (see `spec_config_tooltip`).
pub fn config_tooltip(field: ConfigField) -> (r: &'static str)
    ensures
        r@ == spec_config_tooltip(field),
{
    match field {
        ConfigField::Url => "Base URL of the llama-server HTTP API (e.g. http://127.0.0.1:8080)",
        ConfigField::TmuxSession => "Tmux session name to tail logs from (leave empty to disable)",
        ConfigField::SlotsPollMs => "How often to poll /slots endpoint in milliseconds",
        ConfigField::MetricsPollMs => "How often to poll /metrics endpoint in milliseconds",
        ConfigField::ChartHistory => "Number of data points to keep in chart history",
        ConfigField::Theme => "← → cycle: default, nord, gruvbox, catppuccin, dracula, tokyo-night, kanagawa, onedark, horizon, flexoki",
    }
}

} // verus!
