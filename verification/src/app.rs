//! Application state: the slots table, metric histories, log buffer, view
//! toggles and the configuration editor, with the transitions that polls,
//! log lines and key presses cause.

use std::collections::VecDeque;
use std::time::Instant;
use vstd::prelude::*;
use crate::config::AppConfig;
use crate::metrics::PrometheusMetrics;
use crate::parser::{parse_prompt_expected_total, spec_prompt_expected_total};
use crate::slot_state::{compute_next_slot, next_slot, sat_sub, Slot, SlotPhase};
use crate::slots::SlotSnapshot;
use crate::text::{
    chars_of, decimal, parse_unsigned, parse_unsigned_chars, pop_char, push_char, push_decimal, trim_range,
    string_from_chars, trim_ws, u64_to_string,
};

verus! {

#[verifier::external_type_specification]
#[verifier::external_body]
pub struct ExInstant(Instant);

/// Reads the monotonic clock (`Instant::now`).
#[verifier::external_body]
fn clock_now() -> Instant {
    Instant::now()
}

/// Time elapsed since `epoch` on the monotonic clock (`Instant::elapsed`).
/// Nothing is promised of the value: it depends on the time of the call.
#[verifier::external_body]
fn elapsed_since(epoch: &Instant) -> std::time::Duration {
    epoch.elapsed()
}

/// Whole nanoseconds of a duration (`Duration::as_nanos`), truncated to 64
/// bits. Nothing is stated of the value: a `Duration` is opaque here.
#[verifier::external_body]
fn duration_nanos(d: &std::time::Duration) -> u64 {
    d.as_nanos() as u64
}

/// Connection state of the server.
#[derive(PartialEq, Eq)]
pub enum ServerState {
    Unknown,
    Running,
    Error(String),
}

/// Field of the configuration editor.
#[derive(Clone, Copy, Debug, PartialEq, Eq, Structural)]
pub enum ConfigField {
    Url,
    TmuxSession,
    SlotsPollMs,
    MetricsPollMs,
    ChartHistory,
    Theme,
}

/// Text being edited in the configuration editor, one buffer per field.
pub struct ConfigEdits {
    pub url: String,
    pub tmux_session: String,
    pub slots_poll_ms: String,
    pub metrics_poll_ms: String,
    pub chart_history: String,
    pub theme: String,
}

impl ConfigEdits {
    /// The editor buffers for the settings `c`.
    pub open spec fn from_config_view(c: ConfigView) -> EditsView {
        EditsView {
            url: c.url,
            tmux_session: match c.tmux_session {
                Some(s) => s,
                None => Seq::<char>::empty(),
            },
            slots_poll_ms: decimal(c.slots_poll_ms as nat),
            metrics_poll_ms: decimal(c.metrics_poll_ms as nat),
            chart_history: decimal(c.chart_history as nat),
            theme: c.theme,
        }
    }

    /// The editor buffers for `cfg`: the URL and theme as they are, the tmux
    /// session or an empty text, and the numbers in base ten.
    pub fn from_config(cfg: &AppConfig) -> (r: ConfigEdits)
        ensures
            r.url@ == cfg.url@,
            r.tmux_session@ == (match cfg.tmux_session {
                Some(s) => s@,
                None => Seq::<char>::empty(),
            }),
            r.slots_poll_ms@ == decimal(cfg.slots_poll_ms as nat),
            r.metrics_poll_ms@ == decimal(cfg.metrics_poll_ms as nat),
            r.chart_history@ == decimal(cfg.chart_history as nat),
            r.theme@ == cfg.theme@,
    {
        ConfigEdits {
            url: cfg.url.clone(),
            tmux_session: match &cfg.tmux_session {
                Some(s) => s.clone(),
                None => String::new(),
            },
            slots_poll_ms: u64_to_string(cfg.slots_poll_ms),
            metrics_poll_ms: u64_to_string(cfg.metrics_poll_ms),
            chart_history: u64_to_string(cfg.chart_history as u64),
            theme: cfg.theme.clone(),
        }
    }
}

// ------------------------------------------------------------ slot tables

/// Slot ids strictly increase along the table.
pub open spec fn sorted_ids(s: Seq<Slot>) -> bool {
    forall|i: int, j: int| 0 <= i < j < s.len() ==> s[i].id < s[j].id
}

/// Some slot of the table has id `id`.
pub open spec fn has_id(s: Seq<Slot>, id: u32) -> bool {
    exists|i: int| 0 <= i < s.len() && s[i].id == id
}

/// The table as a map from slot id to slot.
pub open spec fn slot_map(s: Seq<Slot>) -> Map<u32, Slot> {
    Map::new(|id: u32| has_id(s, id), |id: u32| s[choose|i: int| 0 <= i < s.len() && s[i].id == id])
}

/// The entry of `id` in the table, if any.
pub open spec fn lookup(s: Seq<Slot>, id: u32) -> Option<Slot> {
    slot_map(s).get(id)
}

proof fn lemma_slot_map_at(s: Seq<Slot>, i: int)
    requires
        sorted_ids(s),
        0 <= i < s.len(),
    ensures
        slot_map(s).dom().contains(s[i].id),
        slot_map(s)[s[i].id] == s[i],
        lookup(s, s[i].id) == Some(s[i]),
{
    let id = s[i].id;
    assert(has_id(s, id));
    let j = choose|j: int| 0 <= j < s.len() && s[j].id == id;
    if j < i {
        assert(s[j].id < s[i].id);
    } else if j > i {
        assert(s[i].id < s[j].id);
    }
}

proof fn lemma_update_slot_table(s: Seq<Slot>, i: int, x: Slot)
    requires
        sorted_ids(s),
        0 <= i < s.len(),
        x.id == s[i].id,
    ensures
        sorted_ids(s.update(i, x)),
        slot_map(s.update(i, x)) == slot_map(s).insert(x.id, x),
{
    let t = s.update(i, x);
    assert forall|a: int, b: int| 0 <= a < b < t.len() implies t[a].id < t[b].id by {
        assert(s[a].id < s[b].id);
    }
    assert forall|id: u32| has_id(t, id) == (has_id(s, id) || id == x.id) by {
        if has_id(s, id) {
            let j = choose|j: int| 0 <= j < s.len() && s[j].id == id;
            assert(t[j].id == id);
        }
        if has_id(t, id) {
            let j = choose|j: int| 0 <= j < t.len() && t[j].id == id;
            if j != i {
                assert(s[j].id == id);
            }
        }
    }
    assert forall|id: u32| #[trigger] slot_map(t).dom().contains(id) implies slot_map(t)[id] == slot_map(s).insert(x.id, x)[id] by {
        let j = choose|j: int| 0 <= j < t.len() && t[j].id == id;
        lemma_slot_map_at(t, j);
        if j != i {
            assert(t[j] == s[j]);
            lemma_slot_map_at(s, j);
        }
    }
    assert(slot_map(t) =~= slot_map(s).insert(x.id, x));
}

proof fn lemma_insert_slot_table(s: Seq<Slot>, pos: int, x: Slot)
    requires
        sorted_ids(s),
        0 <= pos <= s.len(),
        forall|j: int| 0 <= j < pos ==> s[j].id < x.id,
        forall|j: int| pos <= j < s.len() ==> x.id < s[j].id,
    ensures
        sorted_ids(s.insert(pos, x)),
        slot_map(s.insert(pos, x)) == slot_map(s).insert(x.id, x),
{
    let t = s.insert(pos, x);
    assert forall|a: int, b: int| 0 <= a < b < t.len() implies t[a].id < t[b].id by {
        if b < pos {
            assert(s[a].id < s[b].id);
        } else if b == pos {
        } else if a < pos {
            assert(t[b] == s[b - 1]);
        } else if a == pos {
            assert(t[b] == s[b - 1]);
        } else {
            assert(s[a - 1].id < s[b - 1].id);
        }
    }
    assert forall|id: u32| has_id(t, id) == (has_id(s, id) || id == x.id) by {
        if has_id(s, id) {
            let j = choose|j: int| 0 <= j < s.len() && s[j].id == id;
            if j < pos {
                assert(t[j].id == id);
            } else {
                assert(t[j + 1].id == id);
            }
        }
        if id == x.id {
            assert(t[pos].id == id);
        }
        if has_id(t, id) {
            let j = choose|j: int| 0 <= j < t.len() && t[j].id == id;
            if j < pos {
                assert(s[j].id == id);
            } else if j > pos {
                assert(s[j - 1].id == id);
            }
        }
    }
    assert forall|id: u32| #[trigger] slot_map(t).dom().contains(id) implies slot_map(t)[id] == slot_map(s).insert(x.id, x)[id] by {
        let j = choose|j: int| 0 <= j < t.len() && t[j].id == id;
        lemma_slot_map_at(t, j);
        if j < pos {
            assert(t[j] == s[j]);
            lemma_slot_map_at(s, j);
        } else if j > pos {
            assert(t[j] == s[j - 1]);
            lemma_slot_map_at(s, j - 1);
        }
    }
    assert(slot_map(t) =~= slot_map(s).insert(x.id, x));
}

/// Position where `id` is or would be inserted in a sorted table, and whether
/// it is there.
fn find_slot(s: &Vec<Slot>, id: u32) -> (r: (usize, bool))
    requires
        sorted_ids(s@),
    ensures
        r.0 <= s.len(),
        forall|j: int| 0 <= j < r.0 ==> s@[j].id < id,
        r.1 ==> r.0 < s.len() && s@[r.0 as int].id == id,
        !r.1 ==> forall|j: int| r.0 <= j < s.len() ==> id < s@[j].id,
        r.1 == has_id(s@, id),
{
    let mut i: usize = 0;
    while i < s.len() && s[i].id < id
        invariant
            i <= s.len(),
            sorted_ids(s@),
            forall|j: int| 0 <= j < i ==> s@[j].id < id,
        decreases s.len() - i,
    {
        i = i + 1;
    }
    let found = i < s.len() && s[i].id == id;
    proof {
        if !found {
            assert forall|j: int| i <= j < s.len() implies id < s@[j].id by {
                if j > i {
                    assert(s@[i as int].id < s@[j].id);
                }
            }
            if has_id(s@, id) {
                let j = choose|j: int| 0 <= j < s.len() && s@[j].id == id;
                assert(false);
            }
        }
    }
    (i, found)
}


/// Whether some snapshot of the batch is for slot `id`.
fn batch_has(snaps: &Vec<SlotSnapshot>, id: u32) -> (r: bool)
    ensures
        r == batch_ids(snaps@).contains(id),
{
    let mut i: usize = 0;
    while i < snaps.len()
        invariant
            i <= snaps.len(),
            forall|j: int| 0 <= j < i ==> snaps@[j].id != id,
        decreases snaps.len() - i,
    {
        if snaps[i].id == id {
            return true;
        }
        i = i + 1;
    }
    false
}

/// The slots of a sorted table whose ids occur in the batch, in order.
fn retain_batch(slots: Vec<Slot>, snaps: &Vec<SlotSnapshot>) -> (r: Vec<Slot>)
    requires
        sorted_ids(slots@),
    ensures
        sorted_ids(r@),
        slot_map(r@) == slot_map(slots@).restrict(batch_ids(snaps@)),
{
    let ghost orig = slots@;
    let ghost ids = batch_ids(snaps@);
    let mut rest = slots;
    let mut kept: Vec<Slot> = Vec::new();
    let ghost mut i: int = 0;
    assert(orig.take(0) =~= Seq::<Slot>::empty());
    assert(slot_map(kept@) =~= slot_map(orig.take(0)).restrict(ids));
    while rest.len() > 0
        invariant
            0 <= i <= orig.len(),
            rest@ == orig.skip(i),
            sorted_ids(orig),
            sorted_ids(kept@),
            ids == batch_ids(snaps@),
            slot_map(kept@) == slot_map(orig.take(i)).restrict(ids),
            forall|a: int, b: int| 0 <= a < kept@.len() && i <= b < orig.len() ==> kept@[a].id < orig[b].id,
        decreases rest.len(),
    {
        let s = rest.remove(0);
        let ghost prefix = orig.take(i);
        proof {
            assert(s == orig[i]);
            assert(orig.take(i + 1) =~= prefix.insert(i, s));
            assert(sorted_ids(prefix));
            lemma_insert_slot_table(prefix, i, s);
            assert(rest@ =~= orig.skip(i + 1));
        }
        if batch_has(snaps, s.id) {
            let ghost before = kept@;
            kept.push(s);
            proof {
                assert(kept@ =~= before.insert(before.len() as int, s));
                lemma_insert_slot_table(before, before.len() as int, s);
                assert(slot_map(kept@) =~= slot_map(orig.take(i + 1)).restrict(ids));
            }
        } else {
            proof {
                assert(slot_map(kept@) =~= slot_map(orig.take(i + 1)).restrict(ids));
            }
        }
        proof {
            i = i + 1;
        }
    }
    assert(orig.take(i) =~= orig);
    kept
}


// ------------------------------------------------------------- key input

/// A key press, as the dashboard distinguishes them.
#[derive(Clone, Copy, Debug, PartialEq, Eq, Structural)]
pub enum Key {
    Char(char),
    Up,
    Down,
    Left,
    Right,
    Enter,
    Esc,
    Tab,
    BackTab,
    Backspace,
    Other,
}

/// What a key press asks of the caller beyond the state change.
#[derive(Clone, Copy, Debug, PartialEq, Eq, Structural)]
pub enum KeyEffect {
    Nothing,
    /// The settings were replaced by the edited ones: write them to the
    /// configuration file, and hand the new base URL to the pollers when
    /// `url_changed`.
    SaveConfig { url_changed: bool },
}

/// The selectable themes, in cycling order.
pub open spec fn theme_names() -> Seq<Seq<char>> {
    seq![
        seq!['d', 'e', 'f', 'a', 'u', 'l', 't'],
        seq!['n', 'o', 'r', 'd'],
        seq!['g', 'r', 'u', 'v', 'b', 'o', 'x'],
        seq!['c', 'a', 't', 'p', 'p', 'u', 'c', 'c', 'i', 'n'],
        seq!['d', 'r', 'a', 'c', 'u', 'l', 'a'],
        seq!['t', 'o', 'k', 'y', 'o', '-', 'n', 'i', 'g', 'h', 't'],
        seq!['k', 'a', 'n', 'a', 'g', 'a', 'w', 'a'],
        seq!['o', 'n', 'e', 'd', 'a', 'r', 'k'],
        seq!['h', 'o', 'r', 'i', 'z', 'o', 'n'],
        seq!['f', 'l', 'e', 'x', 'o', 'k', 'i'],
    ]
}

/// Index of the first theme named `t` at or after `i`.
pub open spec fn theme_index_from(t: Seq<char>, i: int) -> Option<int>
    decreases 10 - i,
{
    if i < 0 || i >= 10 {
        None
    } else if theme_names()[i] == t {
        Some(i)
    } else {
        theme_index_from(t, i + 1)
    }
}

/// The theme after (`forward`) or before the one named `t` in the cycle;
/// `None` when `t` is not a theme name.
pub open spec fn cycle_theme(t: Seq<char>, forward: bool) -> Option<Seq<char>> {
    match theme_index_from(t, 0) {
        None => None,
        Some(p) => Some(
            theme_names()[if forward {
                (p + 1) % 10
            } else if p == 0 {
                9
            } else {
                p - 1
            }],
        ),
    }
}

/// The field after `f` in the editor (wrapping around).
pub open spec fn next_field(f: ConfigField) -> ConfigField {
    match f {
        ConfigField::Url => ConfigField::TmuxSession,
        ConfigField::TmuxSession => ConfigField::SlotsPollMs,
        ConfigField::SlotsPollMs => ConfigField::MetricsPollMs,
        ConfigField::MetricsPollMs => ConfigField::ChartHistory,
        ConfigField::ChartHistory => ConfigField::Theme,
        ConfigField::Theme => ConfigField::Url,
    }
}

/// The field before `f` in the editor (wrapping around).
pub open spec fn prev_field(f: ConfigField) -> ConfigField {
    match f {
        ConfigField::Url => ConfigField::Theme,
        ConfigField::TmuxSession => ConfigField::Url,
        ConfigField::SlotsPollMs => ConfigField::TmuxSession,
        ConfigField::MetricsPollMs => ConfigField::SlotsPollMs,
        ConfigField::ChartHistory => ConfigField::MetricsPollMs,
        ConfigField::Theme => ConfigField::ChartHistory,
    }
}

/// The buffers with the one of field `f` replaced by `op` of it.
pub open spec fn edit_field(e: EditsView, f: ConfigField, op: spec_fn(Seq<char>) -> Seq<char>) -> EditsView {
    match f {
        ConfigField::Url => EditsView { url: op(e.url), ..e },
        ConfigField::TmuxSession => EditsView { tmux_session: op(e.tmux_session), ..e },
        ConfigField::SlotsPollMs => EditsView { slots_poll_ms: op(e.slots_poll_ms), ..e },
        ConfigField::MetricsPollMs => EditsView { metrics_poll_ms: op(e.metrics_poll_ms), ..e },
        ConfigField::ChartHistory => EditsView { chart_history: op(e.chart_history), ..e },
        ConfigField::Theme => EditsView { theme: op(e.theme), ..e },
    }
}

/// `s` without its last character (unchanged when empty).
pub open spec fn drop_last_char(s: Seq<char>) -> Seq<char> {
    if s.len() > 0 {
        s.drop_last()
    } else {
        s
    }
}

/// The settings the editor buffers describe: URL and theme as typed, the tmux
/// session unless empty, and each number that parses (otherwise the one in
/// force).
pub open spec fn edited_config(c: ConfigView, e: EditsView) -> ConfigView {
    ConfigView {
        url: e.url,
        tmux_session: if e.tmux_session.len() == 0 { None } else { Some(e.tmux_session) },
        slots_poll_ms: match parse_unsigned(e.slots_poll_ms, u64::MAX as nat) {
            Some(n) => n as u64,
            None => c.slots_poll_ms,
        },
        metrics_poll_ms: match parse_unsigned(e.metrics_poll_ms, u64::MAX as nat) {
            Some(n) => n as u64,
            None => c.metrics_poll_ms,
        },
        chart_history: match parse_unsigned(e.chart_history, usize::MAX as nat) {
            Some(n) => n as usize,
            None => c.chart_history,
        },
        theme: e.theme,
    }
}

/// The table with every slot's `selected` flag set to whether it is `sel`.
pub open spec fn with_selection(s: Seq<Slot>, sel: Option<u32>) -> Seq<Slot> {
    Seq::new(s.len(), |i: int| Slot { selected: sel == Some(s[i].id), ..s[i] })
}

/// Position of slot `id` in the table.
pub open spec fn index_of_id(s: Seq<Slot>, id: u32) -> int {
    choose|i: int| 0 <= i < s.len() && s[i].id == id
}

/// Position of the current selection (the first slot when none).
pub open spec fn selection_index(s: Seq<Slot>, sel: Option<u32>) -> int {
    match sel {
        Some(x) => index_of_id(s, x),
        None => 0,
    }
}

/// The slot after the selection, cycling in id order.
pub open spec fn next_selected(s: Seq<Slot>, sel: Option<u32>) -> u32 {
    s[(selection_index(s, sel) + 1) % (s.len() as int)].id
}

/// The slot before the selection, cycling in id order.
pub open spec fn prev_selected(s: Seq<Slot>, sel: Option<u32>) -> u32 {
    let p = selection_index(s, sel);
    s[if p == 0 { s.len() - 1 } else { p - 1 }].id
}

/// The state with `sel` selected and the slot detail shown.
pub open spec fn select(v: AppView, sel: u32) -> AppView {
    AppView {
        show_slot_detail: true,
        selected_slot: Some(sel),
        slots: with_selection(v.slots, Some(sel)),
        ..v
    }
}

/// Effect of a key press while the configuration editor is open.
pub open spec fn spec_config_key(v: AppView, key: Key) -> (AppView, KeyEffect) {
    let e = v.config_edits;
    match key {
        Key::Esc => (AppView { theme: v.config.theme, show_config: false, ..v }, KeyEffect::Nothing),
        Key::Char(c) => if c == 'q' {
            (AppView { theme: v.config.theme, show_config: false, ..v }, KeyEffect::Nothing)
        } else {
            (
                AppView { config_edits: edit_field(e, v.config_field, |s: Seq<char>| s.push(c)), ..v },
                KeyEffect::Nothing,
            )
        },
        Key::Enter => {
            let cfg = edited_config(v.config, e);
            (
                AppView { config: cfg, theme: cfg.theme, show_config: false, ..v },
                KeyEffect::SaveConfig { url_changed: v.config.url != e.url },
            )
        },
        Key::Left => if v.config_field == ConfigField::Theme {
            match cycle_theme(e.theme, false) {
                Some(t) => (
                    AppView { config_edits: EditsView { theme: t, ..e }, theme: t, ..v },
                    KeyEffect::Nothing,
                ),
                None => (v, KeyEffect::Nothing),
            }
        } else {
            (v, KeyEffect::Nothing)
        },
        Key::Right => if v.config_field == ConfigField::Theme {
            match cycle_theme(e.theme, true) {
                Some(t) => (
                    AppView { config_edits: EditsView { theme: t, ..e }, theme: t, ..v },
                    KeyEffect::Nothing,
                ),
                None => (v, KeyEffect::Nothing),
            }
        } else {
            (v, KeyEffect::Nothing)
        },
        Key::Down | Key::Tab => (
            AppView { config_field: next_field(v.config_field), ..v },
            KeyEffect::Nothing,
        ),
        Key::Up | Key::BackTab => (
            AppView { config_field: prev_field(v.config_field), ..v },
            KeyEffect::Nothing,
        ),
        Key::Backspace => (
            AppView { config_edits: edit_field(e, v.config_field, |s: Seq<char>| drop_last_char(s)), ..v },
            KeyEffect::Nothing,
        ),
        Key::Other => (v, KeyEffect::Nothing),
    }
}

/// Effect of a key press on the dashboard. With the editor open the key goes
/// to the editor. Otherwise: `q`/`Q` quit; `1`, `2`, `4` toggle the stats,
/// slots and log views; `3` toggles the slot detail, selecting the first slot
/// when it opens with nothing selected; Down/Up select the next/previous slot
/// and show the detail; Esc opens the editor on the settings in force and
/// clears the selection.
pub open spec fn spec_handle_key(v: AppView, key: Key) -> (AppView, KeyEffect) {
    if v.show_config {
        spec_config_key(v, key)
    } else {
        (
            match key {
                Key::Char(c) => if c == 'q' || c == 'Q' {
                    AppView { running: false, ..v }
                } else if c == '1' {
                    AppView { show_stats: !v.show_stats, ..v }
                } else if c == '2' {
                    AppView { show_slots: !v.show_slots, ..v }
                } else if c == '3' {
                    if !v.show_slot_detail && v.selected_slot is None && v.slots.len() > 0 {
                        select(v, v.slots[0].id)
                    } else {
                        AppView { show_slot_detail: !v.show_slot_detail, ..v }
                    }
                } else if c == '4' {
                    AppView { show_logs: !v.show_logs, ..v }
                } else {
                    v
                },
                Key::Down => if v.slots.len() == 0 {
                    AppView { show_slot_detail: true, ..v }
                } else {
                    select(v, next_selected(v.slots, v.selected_slot))
                },
                Key::Up => if v.slots.len() == 0 {
                    AppView { show_slot_detail: true, ..v }
                } else {
                    select(v, prev_selected(v.slots, v.selected_slot))
                },
                Key::Esc => AppView {
                    show_config: true,
                    config_field: ConfigField::Url,
                    config_edits: ConfigEdits::from_config_view(v.config),
                    selected_slot: None,
                    slots: with_selection(v.slots, None),
                    ..v
                },
                _ => v,
            },
            KeyEffect::Nothing,
        )
    }
}

/// Name of theme `i` of the cycle.
fn theme_name(i: usize) -> (r: &'static str)
    requires
        i < 10,
    ensures
        r@ == theme_names()[i as int],
{
    proof {
        reveal_strlit("default");
        reveal_strlit("nord");
        reveal_strlit("gruvbox");
        reveal_strlit("catppuccin");
        reveal_strlit("dracula");
        reveal_strlit("tokyo-night");
        reveal_strlit("kanagawa");
        reveal_strlit("onedark");
        reveal_strlit("horizon");
        reveal_strlit("flexoki");
    }
    match i {
        0 => {
            assert("default"@ =~= theme_names()[0]);
            "default"
        },
        1 => {
            assert("nord"@ =~= theme_names()[1]);
            "nord"
        },
        2 => {
            assert("gruvbox"@ =~= theme_names()[2]);
            "gruvbox"
        },
        3 => {
            assert("catppuccin"@ =~= theme_names()[3]);
            "catppuccin"
        },
        4 => {
            assert("dracula"@ =~= theme_names()[4]);
            "dracula"
        },
        5 => {
            assert("tokyo-night"@ =~= theme_names()[5]);
            "tokyo-night"
        },
        6 => {
            assert("kanagawa"@ =~= theme_names()[6]);
            "kanagawa"
        },
        7 => {
            assert("onedark"@ =~= theme_names()[7]);
            "onedark"
        },
        8 => {
            assert("horizon"@ =~= theme_names()[8]);
            "horizon"
        },
        _ => {
            assert("flexoki"@ =~= theme_names()[9]);
            "flexoki"
        },
    }
}

/// Whether two strings hold the same characters.
fn str_eq(a: &str, b: &str) -> (r: bool)
    ensures
        r == (a@ == b@),
{
    let x = chars_of(a);
    let y = chars_of(b);
    if x.len() != y.len() {
        return false;
    }
    let mut i: usize = 0;
    while i < x.len()
        invariant
            i <= x.len() == y.len(),
            x@ == a@,
            y@ == b@,
            forall|j: int| 0 <= j < i ==> x@[j] == y@[j],
        decreases x.len() - i,
    {
        if x[i] != y[i] {
            assert(x@[i as int] != y@[i as int]);
            assert(a@[i as int] != b@[i as int]);
            return false;
        }
        i = i + 1;
    }
    assert(x@ =~= y@);
    true
}

/// Index of the theme named `t`, if it is one.
fn theme_index(t: &str) -> (r: Option<usize>)
    ensures
        match r {
            Some(p) => p < 10 && theme_index_from(t@, 0) == Some(p as int),
            None => theme_index_from(t@, 0) is None,
        },
{
    let mut i: usize = 0;
    while i < 10
        invariant
            i <= 10,
            theme_index_from(t@, 0) == theme_index_from(t@, i as int),
        decreases 10 - i,
    {
        if str_eq(theme_name(i), t) {
            return Some(i);
        }
        i = i + 1;
    }
    None
}

proof fn lemma_index_of_id(s: Seq<Slot>, i: int)
    requires
        sorted_ids(s),
        0 <= i < s.len(),
    ensures
        index_of_id(s, s[i].id) == i,
{
    let j = index_of_id(s, s[i].id);
    assert(0 <= j < s.len() && s[j].id == s[i].id);
    if j < i {
        assert(s[j].id < s[i].id);
    } else if j > i {
        assert(s[i].id < s[j].id);
    }
}

/// Parses an unsigned number no larger than `max` from a whole string.
fn parse_unsigned_str(s: &String, max: u64) -> (r: Option<u64>)
    ensures
        match parse_unsigned(s@, max as nat) {
            Some(v) => r == Some(v as u64),
            None => r is None,
        },
{
    let cs = chars_of(s.as_str());
    assert(cs@.skip(0) =~= s@);
    parse_unsigned_chars(&cs, 0, max)
}

// ------------------------------------------------------------ formatting

/// Rendering of a duration of `s` seconds: `"42s"`, `"3m 7s"`, `"2h 15m"`.
pub open spec fn spec_format_secs(s: u64) -> Seq<char> {
    if s < 60 {
        decimal(s as nat).push('s')
    } else if s < 3600 {
        decimal((s / 60) as nat) + seq!['m', ' '] + decimal((s % 60) as nat).push('s')
    } else {
        decimal((s / 3600) as nat) + seq!['h', ' '] + decimal(((s % 3600) / 60) as nat).push('m')
    }
}

/// Renders `secs` seconds as `"42s"`, `"3m 7s"` or `"2h 15m"`.
pub fn format_eta(secs: u64) -> (r: String)
    ensures
        r@ == spec_format_secs(secs),
{
    let mut r = String::new();
    if secs < 60 {
        push_decimal(&mut r, secs);
        push_char(&mut r, 's');
    } else if secs < 3600 {
        push_decimal(&mut r, secs / 60);
        push_char(&mut r, 'm');
        push_char(&mut r, ' ');
        push_decimal(&mut r, secs % 60);
        push_char(&mut r, 's');
    } else {
        push_decimal(&mut r, secs / 3600);
        push_char(&mut r, 'h');
        push_char(&mut r, ' ');
        push_decimal(&mut r, (secs % 3600) / 60);
        push_char(&mut r, 'm');
    }
    assert(r@ =~= spec_format_secs(secs));
    r
}

/// The whole seconds of a duration, as `Duration::as_secs` reports them.
pub uninterp spec fn duration_whole_secs(d: std::time::Duration) -> u64;

/// Whole seconds of a duration (`Duration::as_secs`): the result is
/// `duration_whole_secs` of the duration, a function of it alone.
#[verifier::external_body]
fn duration_secs(d: &std::time::Duration) -> (r: u64)
    ensures
        r == duration_whole_secs(*d),
{
    d.as_secs()
}

/// Renders a duration, rounded down to whole seconds, like `format_eta`.
pub fn format_duration(dur: std::time::Duration) -> (r: String)
    ensures
        r@ == spec_format_secs(duration_whole_secs(dur)),
{
    let secs = duration_secs(&dur);
    format_eta(secs)
}

/// Comparison key of a log line: the text after its first space (the whole
/// line when it has none), trimmed of white space.
pub open spec fn log_key(line: Seq<char>) -> Seq<char> {
    if exists|i: int| 0 <= i < line.len() && line[i] == ' ' {
        let i = choose|i: int|
            0 <= i < line.len() && line[i] == ' ' && forall|j: int| 0 <= j < i ==> line[j] != ' ';
        trim_ws(line.skip(i + 1))
    } else {
        trim_ws(line)
    }
}

/// A folded log line: the line followed by `"  (×n)"`.
pub open spec fn repeat_line(line: Seq<char>, n: usize) -> Seq<char> {
    line + seq![' ', ' ', '(', '×'] + decimal(n as nat).push(')')
}

/// `n + 1`, wrapping to 0 after the largest value.
pub open spec fn usize_succ(n: usize) -> usize {
    if n == usize::MAX {
        0
    } else {
        (n + 1) as usize
    }
}

/// The log state after `line` arrives. A line whose (non-empty) key equals
/// the previous one's only bumps the repeat count, shown on the last log line
/// as `repeat_line`. Any other line is appended (dropping the oldest beyond
/// `MAX_LOG_LINES`) after restoring the previous line when it came only once.
pub open spec fn spec_add_log(v: AppView, line: Seq<char>) -> AppView {
    let key = log_key(line);
    let n = v.logs.len();
    if v.log_key == key && key.len() > 0 {
        let count = usize_succ(v.log_count);
        AppView {
            log_count: count,
            logs: if n > 0 { v.logs.update(n - 1, repeat_line(v.log_line, count)) } else { v.logs },
            ..v
        }
    } else {
        let restored = if v.log_count == 1 && n > 0 {
            v.logs.update(n - 1, v.log_line)
        } else {
            v.logs
        };
        let appended = restored.push(line);
        AppView {
            log_key: key,
            log_line: line,
            log_count: 1,
            logs: if appended.len() > MAX_LOG_LINES { appended.drop_first() } else { appended },
            ..v
        }
    }
}

fn log_key_exec(line: &Vec<char>) -> (r: Vec<char>)
    ensures
        r@ == log_key(line@),
{
    let mut i: usize = 0;
    while i < line.len() && line[i] != ' '
        invariant
            i <= line.len(),
            forall|j: int| 0 <= j < i ==> line@[j] != ' ',
        decreases line.len() - i,
    {
        i = i + 1;
    }
    if i < line.len() {
        proof {
            let k = choose|k: int|
                0 <= k < line@.len() && line@[k] == ' ' && forall|j: int| 0 <= j < k ==> line@[j]
                    != ' ';
            assert(k == i);
            assert(line@.subrange(i + 1, line.len() as int) =~= line@.skip(i + 1));
        }
        trim_range(line, i + 1, line.len())
    } else {
        assert(line@.subrange(0, line.len() as int) =~= line@);
        trim_range(line, 0, line.len())
    }
}

/// `line` followed by `"  (×n)"`.
fn make_repeat_line(line: &String, n: usize) -> (r: String)
    ensures
        r@ == repeat_line(line@, n),
{
    let mut r = line.clone();
    push_char(&mut r, ' ');
    push_char(&mut r, ' ');
    push_char(&mut r, '(');
    push_char(&mut r, '×');
    push_decimal(&mut r, n as u64);
    push_char(&mut r, ')');
    assert(r@ =~= repeat_line(line@, n));
    r
}

/// The last `n` values of `s` (all of them when there are fewer).
pub open spec fn keep_last(s: Seq<u64>, n: usize) -> Seq<u64> {
    if s.len() > n {
        s.skip(s.len() - n)
    } else {
        s
    }
}

/// Appends `x` and drops the oldest values beyond `max_len`.
fn push_bounded(v: &mut VecDeque<u64>, x: u64, max_len: usize)
    ensures
        final(v)@ == keep_last(old(v)@.push(x), max_len),
{
    v.push_back(x);
    let ghost full = v@;
    let ghost mut k: int = 0;
    while v.len() > max_len
        invariant
            0 <= k <= full.len(),
            v@ == full.skip(k),
            k > 0 ==> full.len() - k >= max_len,
        decreases v@.len(),
    {
        v.pop_front();
        proof {
            assert(v@ =~= full.skip(k + 1));
            k = k + 1;
        }
    }
    proof {
        if full.len() > max_len {
            assert(k == full.len() - max_len);
        } else {
            assert(k == 0);
            assert(full.skip(0) =~= full);
        }
    }
}

/// The state with slot `slot_id`'s expected prompt size set to `total`
/// (unchanged when there is no such slot).
pub open spec fn spec_apply_expected(v: AppView, slot_id: u32, total: u64) -> AppView {
    if has_id(v.slots, slot_id) {
        let i = index_of_id(v.slots, slot_id);
        AppView {
            slots: v.slots.update(i, Slot { expected_prompt_total: Some(total), ..v.slots[i] }),
            ..v
        }
    } else {
        v
    }
}

/// Position of the first slot at or after `i` that is processing a prompt.
pub open spec fn first_prompt_index(s: Seq<Slot>, i: int) -> Option<int>
    decreases s.len() - i,
{
    if i < 0 || i >= s.len() {
        None
    } else if s[i].phase == SlotPhase::Prompt {
        Some(i)
    } else {
        first_prompt_index(s, i + 1)
    }
}

/// The state after a server log line arrives: a prompt-progress report sets
/// the expected prompt size of the first slot (in id order) that is processing
/// a prompt; then the line goes to the log buffer.
pub open spec fn spec_on_log_line(v: AppView, line: Seq<char>) -> AppView {
    let v1 = match spec_prompt_expected_total(line) {
        Some(total) => match first_prompt_index(v.slots, 0) {
            Some(i) => spec_apply_expected(v, v.slots[i].id, total),
            None => v,
        },
        None => v,
    };
    spec_add_log(v1, line)
}

/// The state after the server was seen at time `now`: running, with the
/// uptime counted from `now`, unless it had been seen before.
pub open spec fn spec_mark_server_seen(v: AppView, now: u64) -> AppView {
    match v.server_state {
        ServerState::Unknown => AppView { server_state: ServerState::Running, start_time: Some(now), ..v },
        _ => v,
    }
}

/// The error reported by a tick's poller messages: the last non-empty one,
/// else `err`.
pub open spec fn latest_error(err: Option<String>, msgs: Seq<String>) -> Option<String>
    decreases msgs.len(),
{
    if msgs.len() == 0 {
        err
    } else if msgs.last()@.len() > 0 {
        Some(msgs.last())
    } else {
        latest_error(err, msgs.drop_last())
    }
}

/// Some message of the tick reports an error.
pub open spec fn any_error(msgs: Seq<String>) -> bool {
    exists|i: int| 0 <= i < msgs.len() && (#[trigger] msgs[i])@.len() > 0
}

/// The error shown and the count of consecutive clean ticks after a render
/// tick. Non-empty poller messages set the error and reset the count; a tick
/// in which both pollers delivered data bumps the count (wrapping), and from
/// three on clears the error; any other tick resets the count.
pub open spec fn spec_settle_errors(
    err: Option<String>,
    msgs: Seq<String>,
    slots_ok: bool,
    prom_ok: bool,
    consecutive_ok: u32,
) -> (Option<String>, u32) {
    let e1 = latest_error(err, msgs);
    let c1: u32 = if any_error(msgs) { 0 } else { consecutive_ok };
    if slots_ok && prom_ok {
        let c2: u32 = if c1 == u32::MAX { 0 } else { (c1 + 1) as u32 };
        (if c2 >= 3 { None } else { e1 }, c2)
    } else {
        (e1, 0)
    }
}

// --------------------------------------------------------------- the app

/// The settings, as plain values.
pub struct ConfigView {
    pub url: Seq<char>,
    pub tmux_session: Option<Seq<char>>,
    pub slots_poll_ms: u64,
    pub metrics_poll_ms: u64,
    pub chart_history: usize,
    pub theme: Seq<char>,
}

impl View for AppConfig {
    type V = ConfigView;

    open spec fn view(&self) -> ConfigView {
        ConfigView {
            url: self.url@,
            tmux_session: match self.tmux_session {
                Some(s) => Some(s@),
                None => None,
            },
            slots_poll_ms: self.slots_poll_ms,
            metrics_poll_ms: self.metrics_poll_ms,
            chart_history: self.chart_history,
            theme: self.theme@,
        }
    }
}

/// The editor buffers, as plain values.
pub struct EditsView {
    pub url: Seq<char>,
    pub tmux_session: Seq<char>,
    pub slots_poll_ms: Seq<char>,
    pub metrics_poll_ms: Seq<char>,
    pub chart_history: Seq<char>,
    pub theme: Seq<char>,
}

impl View for ConfigEdits {
    type V = EditsView;

    open spec fn view(&self) -> EditsView {
        EditsView {
            url: self.url@,
            tmux_session: self.tmux_session@,
            slots_poll_ms: self.slots_poll_ms@,
            metrics_poll_ms: self.metrics_poll_ms@,
            chart_history: self.chart_history@,
            theme: self.theme@,
        }
    }
}

/// Last log line seen, for folding repeats: its comparison key, the line as
/// received, and how many times in a row it came.
pub struct LogDedup {
    pub key: String,
    pub line: String,
    pub count: usize,
}

/// Dashboard state.
pub struct App {
    /// Settings in force.
    pub config: AppConfig,
    /// Cleared to leave the main loop.
    pub running: bool,
    pub show_stats: bool,
    pub show_slots: bool,
    pub show_slot_detail: bool,
    pub show_logs: bool,
    pub server_state: ServerState,
    pub error_message: Option<String>,
    pub model_name: String,
    /// Clock reading of the first successful `/slots` poll.
    pub start_time: Option<u64>,
    /// Clock reading of the last metrics update.
    pub last_metrics_time: Option<u64>,
    /// Last metrics reading.
    pub prometheus: Option<PrometheusMetrics>,
    pub prompt_tokens_total_history: VecDeque<u64>,
    pub predicted_tokens_total_history: VecDeque<u64>,
    /// Prompt rates, as `f64` bits.
    pub prompt_tps_history: VecDeque<u64>,
    /// Generation rates, as `f64` bits.
    pub predicted_tps_history: VecDeque<u64>,
    /// Slots, in increasing id order.
    slots: Vec<Slot>,
    selected_slot: Option<u32>,
    logs: VecDeque<String>,
    log_dedup: LogDedup,
    /// Name of the theme being shown.
    pub theme: String,
    pub show_config: bool,
    pub config_field: ConfigField,
    pub config_edits: ConfigEdits,
    /// Origin of the clock readings.
    epoch: Instant,
}

/// The dashboard state as plain values.
pub struct AppView {
    pub config: ConfigView,
    pub running: bool,
    pub show_stats: bool,
    pub show_slots: bool,
    pub show_slot_detail: bool,
    pub show_logs: bool,
    pub server_state: ServerState,
    pub error_message: Option<String>,
    pub model_name: Seq<char>,
    pub start_time: Option<u64>,
    pub last_metrics_time: Option<u64>,
    pub prometheus: Option<PrometheusMetrics>,
    pub prompt_tokens_total_history: Seq<u64>,
    pub predicted_tokens_total_history: Seq<u64>,
    pub prompt_tps_history: Seq<u64>,
    pub predicted_tps_history: Seq<u64>,
    pub slots: Seq<Slot>,
    pub selected_slot: Option<u32>,
    pub logs: Seq<Seq<char>>,
    pub log_key: Seq<char>,
    pub log_line: Seq<char>,
    pub log_count: usize,
    pub theme: Seq<char>,
    pub show_config: bool,
    pub config_field: ConfigField,
    pub config_edits: EditsView,
}

/// Most log lines kept.
pub const MAX_LOG_LINES: usize = 1000;

/// The invariant of the dashboard state: slots in increasing id order, the
/// selection (if any) names an existing slot, exactly the selected slot is
/// flagged as selected, and at most `MAX_LOG_LINES` log lines.
pub open spec fn wf_view(v: AppView) -> bool {
    &&& sorted_ids(v.slots)
    &&& (v.selected_slot matches Some(id) ==> has_id(v.slots, id))
    &&& forall|i: int|
        0 <= i < v.slots.len() ==> (#[trigger] v.slots[i]).selected == (v.selected_slot == Some(
            v.slots[i].id,
        ))
    &&& v.logs.len() <= MAX_LOG_LINES
}

impl View for App {
    type V = AppView;

    closed spec fn view(&self) -> AppView {
        AppView {
            config: self.config@,
            running: self.running,
            show_stats: self.show_stats,
            show_slots: self.show_slots,
            show_slot_detail: self.show_slot_detail,
            show_logs: self.show_logs,
            server_state: self.server_state,
            error_message: self.error_message,
            model_name: self.model_name@,
            start_time: self.start_time,
            last_metrics_time: self.last_metrics_time,
            prometheus: self.prometheus,
            prompt_tokens_total_history: self.prompt_tokens_total_history@,
            predicted_tokens_total_history: self.predicted_tokens_total_history@,
            prompt_tps_history: self.prompt_tps_history@,
            predicted_tps_history: self.predicted_tps_history@,
            slots: self.slots@,
            selected_slot: self.selected_slot,
            logs: self.logs@.map_values(|l: String| l@),
            log_key: self.log_dedup.key@,
            log_line: self.log_dedup.line@,
            log_count: self.log_dedup.count,
            theme: self.theme@,
            show_config: self.show_config,
            config_field: self.config_field,
            config_edits: self.config_edits@,
        }
    }
}

/// The slots table after `snap` updated it at time `now`.
pub open spec fn apply_snapshot(v: AppView, snap: SlotSnapshot, now: u64) -> Map<u32, Slot> {
    slot_map(v.slots).insert(
        snap.id,
        next_slot(lookup(v.slots, snap.id), snap, v.selected_slot == Some(snap.id), now),
    )
}

/// A batch of snapshots applied in order, the `i`-th at time `nows[i]`, to the
/// table `m`, with selection `sel`.
pub open spec fn apply_batch(
    m: Map<u32, Slot>,
    sel: Option<u32>,
    snaps: Seq<SlotSnapshot>,
    nows: Seq<u64>,
) -> Map<u32, Slot>
    decreases snaps.len(),
{
    if snaps.len() == 0 {
        m
    } else {
        let before = apply_batch(m, sel, snaps.drop_last(), nows.drop_last());
        let s = snaps.last();
        before.insert(s.id, next_slot(before.get(s.id), s, sel == Some(s.id), nows.last()))
    }
}

/// Ids of the slots in a batch.
pub open spec fn batch_ids(snaps: Seq<SlotSnapshot>) -> Set<u32> {
    Set::new(|id: u32| exists|i: int| 0 <= i < snaps.len() && snaps[i].id == id)
}

impl App {
    /// The invariant of the dashboard state (see `wf_view`).
    pub open spec fn wf(&self) -> bool {
        wf_view(self@)
    }

    /// A fresh dashboard for `config`: all views but the slot detail shown,
    /// the configuration editor open when no configuration file exists, no
    /// data yet.
    pub fn new(config: AppConfig, config_exists: bool) -> (r: App)
        ensures
            r.wf(),
            r@.config == config@,
            r@.running,
            r@.show_stats && r@.show_slots && !r@.show_slot_detail && r@.show_logs,
            r@.server_state == ServerState::Unknown,
            r@.error_message is None,
            r@.model_name.len() == 0,
            r@.start_time is None && r@.last_metrics_time is None && r@.prometheus is None,
            r@.prompt_tokens_total_history.len() == 0,
            r@.predicted_tokens_total_history.len() == 0,
            r@.prompt_tps_history.len() == 0,
            r@.predicted_tps_history.len() == 0,
            r@.slots.len() == 0,
            r@.selected_slot is None,
            r@.logs.len() == 0,
            r@.log_key.len() == 0 && r@.log_line.len() == 0 && r@.log_count == 0,
            r@.theme == config@.theme,
            r@.show_config == !config_exists,
            r@.config_field == ConfigField::Url,
            r@.config_edits == ConfigEdits::from_config_view(config@),
    {
        let history = config.chart_history;
        let edits = ConfigEdits::from_config(&config);
        let theme = config.theme.clone();
        let r = App {
            show_config: !config_exists,
            config_field: ConfigField::Url,
            config_edits: edits,
            config,
            running: true,
            show_stats: true,
            show_slots: true,
            show_slot_detail: false,
            show_logs: true,
            server_state: ServerState::Unknown,
            error_message: None,
            model_name: String::new(),
            start_time: None,
            last_metrics_time: None,
            prometheus: None,
            prompt_tokens_total_history: VecDeque::with_capacity(history),
            predicted_tokens_total_history: VecDeque::with_capacity(history),
            prompt_tps_history: VecDeque::with_capacity(history),
            predicted_tps_history: VecDeque::with_capacity(history),
            slots: Vec::new(),
            selected_slot: None,
            logs: VecDeque::with_capacity(MAX_LOG_LINES),
            log_dedup: LogDedup { key: String::new(), line: String::new(), count: 0 },
            theme,
            epoch: clock_now(),
        };
        assert(r@.logs =~= Seq::<Seq<char>>::empty());
        r
    }

    /// The slots, in increasing id order.
    pub fn slots(&self) -> (r: &Vec<Slot>)
        ensures
            r@ == self@.slots,
    {
        &self.slots
    }

    /// Id of the selected slot, if any.
    pub fn selected_slot(&self) -> (r: Option<u32>)
        ensures
            r == self@.selected_slot,
    {
        self.selected_slot
    }

    /// The log buffer, oldest line first.
    pub fn logs(&self) -> (r: &VecDeque<String>)
        ensures
            r@.map_values(|l: String| l@) == self@.logs,
    {
        &self.logs
    }

    /// Current reading of the dashboard clock, in nanoseconds.
    pub fn now(&self) -> u64 {
        duration_nanos(&elapsed_since(&self.epoch))
    }

    /// Applies one `/slots` snapshot observed at time `now`: the slot's entry
    /// becomes `next_slot` of its previous entry; nothing else changes.
    pub fn update_slot_at(&mut self, snapshot: SlotSnapshot, now: u64)
        requires
            old(self).wf(),
        ensures
            final(self).wf(),
            slot_map(final(self)@.slots) == apply_snapshot(old(self)@, snapshot, now),
            final(self)@ == (AppView { slots: final(self)@.slots, ..old(self)@ }),
    {
        let ghost snap = snapshot;
        let ghost old_slots = self.slots@;
        let id = snapshot.id;
        let selected = match self.selected_slot {
            Some(s) => s == id,
            None => false,
        };
        let (pos, found) = find_slot(&self.slots, id);
        if found {
            proof {
                lemma_slot_map_at(old_slots, pos as int);
            }
            let prev = self.slots.remove(pos);
            let slot = compute_next_slot(Some(prev), snapshot, selected, now);
            self.slots.insert(pos, slot);
            proof {
                assert(self.slots@ =~= old_slots.update(pos as int, slot));
                lemma_update_slot_table(old_slots, pos as int, slot);
            }
        } else {
            let slot = compute_next_slot(None, snapshot, selected, now);
            self.slots.insert(pos, slot);
            proof {
                lemma_insert_slot_table(old_slots, pos as int, slot);
            }
        }
        proof {
            let s = self.slots@;
            assert forall|i: int| 0 <= i < s.len() implies (#[trigger] s[i]).selected == (
            self.selected_slot == Some(s[i].id)) by {
                lemma_slot_map_at(s, i);
                if s[i].id != id {
                    assert(slot_map(old_slots).dom().contains(s[i].id));
                    let j = choose|j: int| 0 <= j < old_slots.len() && old_slots[j].id == s[i].id;
                    lemma_slot_map_at(old_slots, j);
                }
            }
            if let Some(sel) = self.selected_slot {
                assert(slot_map(old_slots).dom().contains(sel));
                assert(slot_map(s).dom().contains(sel));
            }
        }
    }

    /// Applies a `/slots` poll: slots missing from the batch are dropped (and
    /// the selection with its detail view, when the selected slot is among
    /// them); then every snapshot is applied in order, each at the time it is
    /// processed.
    pub fn update_slots(&mut self, snapshots: Vec<SlotSnapshot>)
        requires
            old(self).wf(),
        ensures
            final(self).wf(),
            ({
                let o = old(self)@;
                let f = final(self)@;
                let ids = batch_ids(snapshots@);
                let drop_sel = o.selected_slot matches Some(s) && !ids.contains(s);
                &&& f.selected_slot == (if drop_sel { None } else { o.selected_slot })
                &&& f.show_slot_detail == (if drop_sel { false } else { o.show_slot_detail })
                &&& exists|nows: Seq<u64>|
                    nows.len() == snapshots@.len() && slot_map(f.slots) == apply_batch(
                        slot_map(o.slots).restrict(ids),
                        f.selected_slot,
                        snapshots@,
                        nows,
                    )
                &&& f == (AppView {
                    slots: f.slots,
                    selected_slot: f.selected_slot,
                    show_slot_detail: f.show_slot_detail,
                    ..o
                })
            }),
    {
        let ghost o = self@;
        let ghost ids = batch_ids(snapshots@);
        let mut current: Vec<Slot> = Vec::new();
        std::mem::swap(&mut current, &mut self.slots);
        let ghost old_slots = current@;
        let kept = retain_batch(current, &snapshots);
        self.slots = kept;
        if let Some(sel) = self.selected_slot {
            if !batch_has(&snapshots, sel) {
                self.selected_slot = None;
                self.show_slot_detail = false;
            }
        }
        proof {
            let s = self.slots@;
            assert forall|i: int| 0 <= i < s.len() implies (#[trigger] s[i]).selected == (
            self.selected_slot == Some(s[i].id)) by {
                lemma_slot_map_at(s, i);
                assert(slot_map(old_slots).dom().contains(s[i].id));
                let j = choose|j: int| 0 <= j < old_slots.len() && old_slots[j].id == s[i].id;
                lemma_slot_map_at(old_slots, j);
                assert(s[i] == old_slots[j]);
            }
            if let Some(sel) = self.selected_slot {
                assert(slot_map(old_slots).dom().contains(sel));
                assert(slot_map(s).dom().contains(sel));
            }
        }
        let ghost sel = self.selected_slot;
        let ghost base = slot_map(self.slots@);
        let ghost mid = self@;
        let ghost batch = snapshots@;
        let ghost mut nows: Seq<u64> = Seq::empty();
        let ghost mut k: int = 0;
        let mut rest = snapshots;
        assert(batch.take(0) =~= Seq::<SlotSnapshot>::empty());
        while rest.len() > 0
            invariant
                self.wf(),
                0 <= k <= batch.len(),
                rest@ == batch.skip(k),
                nows.len() == k,
                self@.selected_slot == sel,
                slot_map(self@.slots) == apply_batch(base, sel, batch.take(k), nows),
                self@ == (AppView { slots: self@.slots, ..mid }),
            decreases rest.len(),
        {
            let snap = rest.remove(0);
            let now = self.now();
            let ghost before = self@;
            self.update_slot_at(snap, now);
            proof {
                assert(snap == batch[k]);
                assert(batch.take(k + 1).drop_last() =~= batch.take(k));
                assert(nows.push(now).drop_last() =~= nows);
                assert(rest@ =~= batch.skip(k + 1));
                nows = nows.push(now);
                k = k + 1;
            }
        }
        assert(batch.take(k) =~= batch);
    }

    /// Sets every slot's `selected` flag to whether it is the selected slot.
    fn update_selection(&mut self)
        requires
            sorted_ids(old(self)@.slots),
            old(self)@.selected_slot matches Some(id) ==> has_id(old(self)@.slots, id),
            old(self)@.logs.len() <= MAX_LOG_LINES,
        ensures
            final(self).wf(),
            final(self)@ == (AppView {
                slots: with_selection(old(self)@.slots, old(self)@.selected_slot),
                ..old(self)@
            }),
    {
        let ghost orig = self.slots@;
        let sel = self.selected_slot;
        let mut rest: Vec<Slot> = Vec::new();
        std::mem::swap(&mut rest, &mut self.slots);
        let mut out: Vec<Slot> = Vec::new();
        let ghost target = with_selection(orig, sel);
        let ghost mut k: int = 0;
        while rest.len() > 0
            invariant
                0 <= k <= orig.len(),
                rest@ == orig.skip(k),
                target == with_selection(orig, sel),
                out@ == target.take(k),
            decreases rest.len(),
        {
            let mut s = rest.remove(0);
            s.selected = match sel {
                Some(x) => x == s.id,
                None => false,
            };
            out.push(s);
            proof {
                assert(rest@ =~= orig.skip(k + 1));
                assert(out@ =~= target.take(k + 1));
                k = k + 1;
            }
        }
        assert(out@ =~= target);
        self.slots = out;
        proof {
            let s = self.slots@;
            assert(sorted_ids(s)) by {
                assert forall|a: int, b: int| 0 <= a < b < s.len() implies s[a].id < s[b].id by {
                    assert(orig[a].id < orig[b].id);
                }
            }
            if let Some(x) = sel {
                let j = choose|j: int| 0 <= j < orig.len() && orig[j].id == x;
                assert(s[j].id == x);
            }
        }
    }

    /// Selects the slot after the current one (the second slot when nothing
    /// is selected), cycling in id order, and shows the detail view.
    fn select_next_slot(&mut self)
        requires
            old(self).wf(),
        ensures
            final(self).wf(),
            final(self)@ == (if old(self)@.slots.len() == 0 {
                AppView { show_slot_detail: true, ..old(self)@ }
            } else {
                select(old(self)@, next_selected(old(self)@.slots, old(self)@.selected_slot))
            }),
    {
        self.show_slot_detail = true;
        if self.slots.len() == 0 {
            return;
        }
        let len = self.slots.len();
        let pos: usize = match self.selected_slot {
            Some(x) => {
                let (p, _) = find_slot(&self.slots, x);
                proof {
                    let j = choose|j: int| 0 <= j < self.slots@.len() && self.slots@[j].id == x;
                    assert(p <= j);
                    lemma_index_of_id(self.slots@, p as int);
                }
                p
            },
            None => 0,
        };
        let next = (pos + 1) % len;
        self.selected_slot = Some(self.slots[next].id);
        proof {
            assert(has_id(self.slots@, self.slots@[next as int].id));
        }
        self.update_selection();
    }

    /// Selects the slot before the current one (the last slot when nothing is
    /// selected), cycling in id order, and shows the detail view.
    fn select_prev_slot(&mut self)
        requires
            old(self).wf(),
        ensures
            final(self).wf(),
            final(self)@ == (if old(self)@.slots.len() == 0 {
                AppView { show_slot_detail: true, ..old(self)@ }
            } else {
                select(old(self)@, prev_selected(old(self)@.slots, old(self)@.selected_slot))
            }),
    {
        self.show_slot_detail = true;
        if self.slots.len() == 0 {
            return;
        }
        let len = self.slots.len();
        let pos: usize = match self.selected_slot {
            Some(x) => {
                let (p, _) = find_slot(&self.slots, x);
                proof {
                    let j = choose|j: int| 0 <= j < self.slots@.len() && self.slots@[j].id == x;
                    assert(p <= j);
                    lemma_index_of_id(self.slots@, p as int);
                }
                p
            },
            None => 0,
        };
        let prev = if pos == 0 { len - 1 } else { pos - 1 };
        self.selected_slot = Some(self.slots[prev].id);
        proof {
            assert(has_id(self.slots@, self.slots@[prev as int].id));
        }
        self.update_selection();
    }

    /// Replaces the settings by those the editor buffers describe (see
    /// `edited_config`) and shows their theme. Returns whether the URL changed.
    fn save_config(&mut self) -> (url_changed: bool)
        requires
            old(self).wf(),
        ensures
            final(self).wf(),
            url_changed == (old(self)@.config.url != old(self)@.config_edits.url),
            final(self)@ == (AppView {
                config: edited_config(old(self)@.config, old(self)@.config_edits),
                theme: old(self)@.config_edits.theme,
                ..old(self)@
            }),
    {
        let url_changed = !(self.config.url == self.config_edits.url);
        let tmux_session = if self.config_edits.tmux_session.as_str().is_empty() {
            None
        } else {
            Some(self.config_edits.tmux_session.clone())
        };
        let slots_poll_ms = match parse_unsigned_str(&self.config_edits.slots_poll_ms, u64::MAX) {
            Some(v) => v,
            None => self.config.slots_poll_ms,
        };
        let metrics_poll_ms = match parse_unsigned_str(&self.config_edits.metrics_poll_ms, u64::MAX) {
            Some(v) => v,
            None => self.config.metrics_poll_ms,
        };
        let chart_history = match parse_unsigned_str(
            &self.config_edits.chart_history,
            usize::MAX as u64,
        ) {
            Some(v) => v as usize,
            None => self.config.chart_history,
        };
        let cfg = AppConfig {
            url: self.config_edits.url.clone(),
            tmux_session,
            slots_poll_ms,
            metrics_poll_ms,
            chart_history,
            theme: self.config_edits.theme.clone(),
        };
        self.theme = cfg.theme.clone();
        self.config = cfg;
        url_changed
    }

    /// Removes the last character of the buffer of the field being edited.
    fn pop_active_field(&mut self)
        requires
            old(self).wf(),
        ensures
            final(self).wf(),
            final(self)@ == (AppView {
                config_edits: edit_field(
                    old(self)@.config_edits,
                    old(self)@.config_field,
                    |s: Seq<char>| drop_last_char(s),
                ),
                ..old(self)@
            }),
    {
        match self.config_field {
            ConfigField::Url => {
                pop_char(&mut self.config_edits.url);
            },
            ConfigField::TmuxSession => {
                pop_char(&mut self.config_edits.tmux_session);
            },
            ConfigField::SlotsPollMs => {
                pop_char(&mut self.config_edits.slots_poll_ms);
            },
            ConfigField::MetricsPollMs => {
                pop_char(&mut self.config_edits.metrics_poll_ms);
            },
            ConfigField::ChartHistory => {
                pop_char(&mut self.config_edits.chart_history);
            },
            ConfigField::Theme => {
                pop_char(&mut self.config_edits.theme);
            },
        }
    }

    /// Appends `c` to the buffer of the field being edited.
    fn push_active_field(&mut self, c: char)
        requires
            old(self).wf(),
        ensures
            final(self).wf(),
            final(self)@ == (AppView {
                config_edits: edit_field(
                    old(self)@.config_edits,
                    old(self)@.config_field,
                    |s: Seq<char>| s.push(c),
                ),
                ..old(self)@
            }),
    {
        match self.config_field {
            ConfigField::Url => push_char(&mut self.config_edits.url, c),
            ConfigField::TmuxSession => push_char(&mut self.config_edits.tmux_session, c),
            ConfigField::SlotsPollMs => push_char(&mut self.config_edits.slots_poll_ms, c),
            ConfigField::MetricsPollMs => push_char(&mut self.config_edits.metrics_poll_ms, c),
            ConfigField::ChartHistory => push_char(&mut self.config_edits.chart_history, c),
            ConfigField::Theme => push_char(&mut self.config_edits.theme, c),
        }
    }

    /// Moves the theme buffer one step through the theme cycle and shows
    /// that theme; nothing happens when the buffer names no theme.
    fn cycle_theme_field(&mut self, forward: bool)
        requires
            old(self).wf(),
        ensures
            final(self).wf(),
            final(self)@ == (match cycle_theme(old(self)@.config_edits.theme, forward) {
                Some(t) => AppView {
                    config_edits: EditsView { theme: t, ..old(self)@.config_edits },
                    theme: t,
                    ..old(self)@
                },
                None => old(self)@,
            }),
    {
        if let Some(pos) = theme_index(self.config_edits.theme.as_str()) {
            let next = if forward {
                (pos + 1) % 10
            } else if pos == 0 {
                9
            } else {
                pos - 1
            };
            let name = theme_name(next);

            self.config_edits.theme = String::from_str(name);
            self.theme = String::from_str(name);
        }
    }

    fn handle_config_key(&mut self, key: Key) -> (r: KeyEffect)
        requires
            old(self).wf(),
        ensures
            final(self).wf(),
            (final(self)@, r) == spec_config_key(old(self)@, key),
    {
        match key {
            Key::Esc => {
                self.theme = self.config.theme.clone();
                self.show_config = false;
                KeyEffect::Nothing
            },
            Key::Enter => {
                let url_changed = self.save_config();
                self.show_config = false;
                KeyEffect::SaveConfig { url_changed }
            },
            Key::Left => {
                if self.config_field == ConfigField::Theme {
                    self.cycle_theme_field(false);
                }
                KeyEffect::Nothing
            },
            Key::Right => {
                if self.config_field == ConfigField::Theme {
                    self.cycle_theme_field(true);
                }
                KeyEffect::Nothing
            },
            Key::Down | Key::Tab => {
                self.config_field = match self.config_field {
                    ConfigField::Url => ConfigField::TmuxSession,
                    ConfigField::TmuxSession => ConfigField::SlotsPollMs,
                    ConfigField::SlotsPollMs => ConfigField::MetricsPollMs,
                    ConfigField::MetricsPollMs => ConfigField::ChartHistory,
                    ConfigField::ChartHistory => ConfigField::Theme,
                    ConfigField::Theme => ConfigField::Url,
                };
                KeyEffect::Nothing
            },
            Key::Up | Key::BackTab => {
                self.config_field = match self.config_field {
                    ConfigField::Url => ConfigField::Theme,
                    ConfigField::TmuxSession => ConfigField::Url,
                    ConfigField::SlotsPollMs => ConfigField::TmuxSession,
                    ConfigField::MetricsPollMs => ConfigField::SlotsPollMs,
                    ConfigField::ChartHistory => ConfigField::MetricsPollMs,
                    ConfigField::Theme => ConfigField::ChartHistory,
                };
                KeyEffect::Nothing
            },
            Key::Backspace => {
                self.pop_active_field();
                KeyEffect::Nothing
            },
            Key::Char(c) => {
                if c == 'q' {
                    self.theme = self.config.theme.clone();
                    self.show_config = false;
                } else {
                    self.push_active_field(c);
                }
                KeyEffect::Nothing
            },
            Key::Other => KeyEffect::Nothing,
        }
    }

    /// Handles a key press (see `spec_handle_key`).
    pub fn handle_key(&mut self, key: Key) -> (r: KeyEffect)
        requires
            old(self).wf(),
        ensures
            final(self).wf(),
            (final(self)@, r) == spec_handle_key(old(self)@, key),
    {
        if self.show_config {
            return self.handle_config_key(key);
        }
        match key {
            Key::Char(c) => {
                if c == 'q' || c == 'Q' {
                    self.running = false;
                } else if c == '1' {
                    self.show_stats = !self.show_stats;
                } else if c == '2' {
                    self.show_slots = !self.show_slots;
                } else if c == '3' {
                    self.show_slot_detail = !self.show_slot_detail;
                    if self.show_slot_detail && self.selected_slot.is_none() && self.slots.len() > 0 {
                        self.selected_slot = Some(self.slots[0].id);
                        proof {
                            assert(has_id(self.slots@, self.slots@[0].id));
                        }
                        self.update_selection();
                    }
                } else if c == '4' {
                    self.show_logs = !self.show_logs;
                }
            },
            Key::Down => self.select_next_slot(),
            Key::Up => self.select_prev_slot(),
            Key::Esc => {
                self.show_config = true;
                self.config_field = ConfigField::Url;
                self.config_edits = ConfigEdits::from_config(&self.config);
                self.selected_slot = None;
                self.update_selection();
            },
            _ => {},
        }
        KeyEffect::Nothing
    }

    /// Records the expected prompt size of slot `slot_id` (learned from the
    /// log); nothing happens when there is no such slot.
    pub fn apply_expected_total(&mut self, slot_id: u32, total: u64)
        requires
            old(self).wf(),
        ensures
            final(self).wf(),
            final(self)@ == spec_apply_expected(old(self)@, slot_id, total),
    {
        let ghost old_slots = self.slots@;
        let (pos, found) = find_slot(&self.slots, slot_id);
        if found {
            let mut s = self.slots.remove(pos);
            s.expected_prompt_total = Some(total);
            self.slots.insert(pos, s);
            proof {
                lemma_index_of_id(old_slots, pos as int);
                assert(self.slots@ =~= old_slots.update(pos as int, s));
                let n = self.slots@;
                assert(sorted_ids(n)) by {
                    assert forall|a: int, b: int| 0 <= a < b < n.len() implies n[a].id < n[b].id by {
                        assert(old_slots[a].id < old_slots[b].id);
                    }
                }
                assert forall|i: int| 0 <= i < n.len() implies (#[trigger] n[i]).selected == (
                self.selected_slot == Some(n[i].id)) by {
                    assert(n[i].id == old_slots[i].id);
                }
                if let Some(sel) = self.selected_slot {
                    let j = choose|j: int| 0 <= j < old_slots.len() && old_slots[j].id == sel;
                    assert(n[j].id == sel);
                }
            }
        }
    }

    /// Records a metrics reading taken at time `now`: it becomes the current
    /// reading, and each chart history gets its value appended, keeping the
    /// last `chart_history` values.
    pub fn update_prometheus_at(&mut self, metrics: PrometheusMetrics, now: u64)
        requires
            old(self).wf(),
        ensures
            final(self).wf(),
            ({
                let o = old(self)@;
                let n = o.config.chart_history;
                final(self)@ == AppView {
                    last_metrics_time: Some(now),
                    prometheus: Some(metrics),
                    prompt_tokens_total_history: keep_last(
                        o.prompt_tokens_total_history.push(metrics.prompt_tokens_total),
                        n,
                    ),
                    predicted_tokens_total_history: keep_last(
                        o.predicted_tokens_total_history.push(metrics.predicted_tokens_total),
                        n,
                    ),
                    prompt_tps_history: keep_last(o.prompt_tps_history.push(metrics.prompt_tps_bits), n),
                    predicted_tps_history: keep_last(
                        o.predicted_tps_history.push(metrics.predicted_tps_bits),
                        n,
                    ),
                    ..o
                }
            }),
    {
        self.last_metrics_time = Some(now);
        self.prometheus = Some(metrics);
        let max_len = self.config.chart_history;
        push_bounded(&mut self.prompt_tokens_total_history, metrics.prompt_tokens_total, max_len);
        push_bounded(
            &mut self.predicted_tokens_total_history,
            metrics.predicted_tokens_total,
            max_len,
        );
        push_bounded(&mut self.prompt_tps_history, metrics.prompt_tps_bits, max_len);
        push_bounded(&mut self.predicted_tps_history, metrics.predicted_tps_bits, max_len);
    }

    /// Records a metrics reading taken now.
    pub fn update_prometheus(&mut self, metrics: PrometheusMetrics)
        requires
            old(self).wf(),
        ensures
            final(self).wf(),
            final(self)@.last_metrics_time is Some,
            ({
                let o = old(self)@;
                let n = o.config.chart_history;
                final(self)@ == AppView {
                    last_metrics_time: final(self)@.last_metrics_time,
                    prometheus: Some(metrics),
                    prompt_tokens_total_history: keep_last(
                        o.prompt_tokens_total_history.push(metrics.prompt_tokens_total),
                        n,
                    ),
                    predicted_tokens_total_history: keep_last(
                        o.predicted_tokens_total_history.push(metrics.predicted_tokens_total),
                        n,
                    ),
                    prompt_tps_history: keep_last(o.prompt_tps_history.push(metrics.prompt_tps_bits), n),
                    predicted_tps_history: keep_last(
                        o.predicted_tps_history.push(metrics.predicted_tps_bits),
                        n,
                    ),
                    ..o
                }
            }),
    {
        let now = self.now();
        self.update_prometheus_at(metrics, now);
    }

    /// Adds a log line (see `spec_add_log`).
    pub fn add_log(&mut self, line: String)
        requires
            old(self).wf(),
        ensures
            final(self).wf(),
            final(self)@ == spec_add_log(old(self)@, line@),
    {
        let ghost o = self@;
        let chars = chars_of(line.as_str());
        let key_chars = log_key_exec(&chars);
        let key = string_from_chars(&key_chars);
        if self.log_dedup.key == key && key_chars.len() > 0 {
            self.log_dedup.count = self.log_dedup.count.wrapping_add(1);
            let ghost before = self.logs@;
            if self.logs.len() > 0 {
                self.logs.pop_back();
                let l = make_repeat_line(&self.log_dedup.line, self.log_dedup.count);
                self.logs.push_back(l);
                proof {
                    assert(self.logs@ =~= before.update(before.len() - 1, l));
                }
            }
            assert(self@.logs =~= spec_add_log(o, line@).logs);
        } else {
            let ghost before = self.logs@;
            if self.log_dedup.count == 1 && self.logs.len() > 0 {
                self.logs.pop_back();
                let l = self.log_dedup.line.clone();
                self.logs.push_back(l);
                proof {
                    assert(self.logs@ =~= before.update(before.len() - 1, l));
                }
            }
            let ghost restored = self.logs@;
            self.log_dedup = LogDedup { key, line: line.clone(), count: 1 };
            self.logs.push_back(line);
            let ghost appended = self.logs@;
            if self.logs.len() > MAX_LOG_LINES {
                self.logs.pop_front();
                assert(self.logs@ =~= appended.drop_first());
            }
            assert(self@.logs =~= spec_add_log(o, line@).logs);
        }
    }

    /// The uptime at time `now`: `"N/A"` before the server was first seen,
    /// else the time since then (see `spec_format_secs`).
    pub fn uptime_str_at(&self, now: u64) -> (r: String)
        ensures
            r@ == (match self@.start_time {
                Some(s) => spec_format_secs(sat_sub(now, s) / 1_000_000_000),
                None => seq!['N', '/', 'A'],
            }),
    {
        match self.start_time {
            Some(s) => format_eta(now.saturating_sub(s) / 1_000_000_000),
            None => {
                proof {
                    reveal_strlit("N/A");
                }
                let r = String::from_str("N/A");
                assert(r@ =~= seq!['N', '/', 'A']);
                r
            },
        }
    }

    /// The uptime now.
    pub fn uptime_str(&self) -> (r: String)
        ensures
            match self@.start_time {
                Some(s) => exists|secs: u64| r@ == #[trigger] spec_format_secs(secs),
                None => r@ == seq!['N', '/', 'A'],
            },
    {
        let now = self.now();
        self.uptime_str_at(now)
    }

    /// Handles a server log line (see `spec_on_log_line`).
    pub fn on_log_line(&mut self, line: String)
        requires
            old(self).wf(),
        ensures
            final(self).wf(),
            final(self)@ == spec_on_log_line(old(self)@, line@),
    {
        if let Some(total) = parse_prompt_expected_total(line.as_str()) {
            let mut i: usize = 0;
            while i < self.slots.len() && self.slots[i].phase != SlotPhase::Prompt
                invariant
                    i <= self.slots.len(),
                    first_prompt_index(self@.slots, 0) == first_prompt_index(self@.slots, i as int),
                decreases self.slots.len() - i,
            {
                i = i + 1;
            }
            if i < self.slots.len() {
                let id = self.slots[i].id;
                self.apply_expected_total(id, total);
            }
        }
        self.add_log(line);
    }

    /// Marks the server as running when it was not seen before, with the
    /// uptime counted from `now`.
    pub fn mark_server_seen_at(&mut self, now: u64)
        requires
            old(self).wf(),
        ensures
            final(self).wf(),
            final(self)@ == spec_mark_server_seen(old(self)@, now),
    {
        if let ServerState::Unknown = self.server_state {
            self.server_state = ServerState::Running;
            self.start_time = Some(now);
        }
    }

    /// Marks the server as running when it was not seen before, counting the
    /// uptime from now.
    pub fn mark_server_seen(&mut self)
        requires
            old(self).wf(),
        ensures
            final(self).wf(),
            match old(self)@.server_state {
                ServerState::Unknown => final(self)@ == AppView {
                    server_state: ServerState::Running,
                    start_time: final(self)@.start_time,
                    ..old(self)@
                } && final(self)@.start_time is Some,
                _ => final(self)@ == old(self)@,
            },
    {
        let now = self.now();
        self.mark_server_seen_at(now);
    }

    /// Settles the error message at the end of a render tick (see
    /// `spec_settle_errors`); returns the new count of clean ticks.
    pub fn settle_errors(
        &mut self,
        messages: Vec<String>,
        slots_ok: bool,
        prom_ok: bool,
        consecutive_ok: u32,
    ) -> (r: u32)
        requires
            old(self).wf(),
        ensures
            final(self).wf(),
            ({
                let (e, c) = spec_settle_errors(
                    old(self)@.error_message,
                    messages@,
                    slots_ok,
                    prom_ok,
                    consecutive_ok,
                );
                &&& r == c
                &&& final(self)@ == AppView { error_message: e, ..old(self)@ }
            }),
    {
        let ghost msgs = messages@;
        let ghost e0 = self.error_message;
        let mut count = consecutive_ok;
        let mut rest = messages;
        let ghost mut k: int = 0;
        let ghost mid = self@;
        assert(msgs.take(0) =~= Seq::<String>::empty());
        while rest.len() > 0
            invariant
                0 <= k <= msgs.len(),
                rest@ == msgs.skip(k),
                self.error_message == latest_error(e0, msgs.take(k)),
                count == (if any_error(msgs.take(k)) { 0 } else { consecutive_ok }),
                self@ == (AppView { error_message: self.error_message, ..mid }),
            decreases rest.len(),
        {
            let m = rest.remove(0);
            proof {
                assert(m == msgs[k]);
                assert(msgs.take(k + 1).drop_last() =~= msgs.take(k));
                assert(msgs.take(k + 1).last() == m);
                assert(rest@ =~= msgs.skip(k + 1));
                if any_error(msgs.take(k)) {
                    let j = choose|j: int| 0 <= j < msgs.take(k).len() && (#[trigger] msgs.take(k)[j])@.len() > 0;
                    assert(msgs.take(k + 1)[j] == msgs.take(k)[j]);
                }
            }
            if !m.as_str().is_empty() {
                proof {
                    assert(msgs.take(k + 1)[k]@.len() > 0);
                }
                self.error_message = Some(m);
                count = 0;
            } else {
                proof {
                    if any_error(msgs.take(k + 1)) {
                        let j = choose|j: int|
                            0 <= j < msgs.take(k + 1).len() && (#[trigger] msgs.take(k + 1)[j])@.len() > 0;
                        assert(j != k);
                        assert(msgs.take(k)[j] == msgs.take(k + 1)[j]);
                    }
                }
            }
            proof {
                k = k + 1;
            }
        }
        assert(msgs.take(k) =~= msgs);
        if slots_ok && prom_ok {
            count = count.wrapping_add(1);
            if count >= 3 {
                self.error_message = None;
            }
        } else {
            count = 0;
        }
        count
    }

    /// Shows the model name reported by the server, unless one is shown
    /// already or the report is empty.
    pub fn offer_model_name(&mut self, name: String)
        requires
            old(self).wf(),
        ensures
            final(self).wf(),
            final(self)@ == (if old(self)@.model_name.len() == 0 && name@.len() > 0 {
                AppView { model_name: name@, ..old(self)@ }
            } else {
                old(self)@
            }),
    {
        if self.model_name.as_str().is_empty() && !name.as_str().is_empty() {
            self.model_name = name;
        }
    }

    /// Applies one `/slots` snapshot at the current time.
    pub fn update_slot(&mut self, snapshot: SlotSnapshot)
        requires
            old(self).wf(),
        ensures
            final(self).wf(),
            exists|now: u64|
                slot_map(final(self)@.slots) == apply_snapshot(old(self)@, snapshot, now),
            final(self)@ == (AppView { slots: final(self)@.slots, ..old(self)@ }),
    {
        let now = self.now();
        self.update_slot_at(snapshot, now);
    }
}

} // verus!
