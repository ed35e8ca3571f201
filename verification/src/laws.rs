//! Properties that hold across the library's operations.

use vstd::prelude::*;
use crate::app::{
    apply_batch, batch_ids, keep_last, next_selected, prev_selected, sorted_ids, spec_add_log,
    spec_handle_key, wf_view, AppView, ConfigField, Key, log_key, index_of_id, theme_names,
    theme_index_from, any_error, latest_error, next_field, spec_mark_server_seen, spec_on_log_line,
    spec_settle_errors, ConfigEdits, EditsView, ServerState, first_prompt_index, has_id,
    spec_apply_expected,
};
use crate::metrics::{
    is_float_literal, last_value, line_sample, metric_names, split_words, word_scan, METRIC_COUNT,
    N_BUSY_SLOTS_PER_DECODE, N_DECODE_TOTAL, N_TOKENS_MAX, PREDICTED_TOKENS_SECONDS,
    PROMPT_SECONDS_TOTAL, PROMPT_TOKENS_SECONDS, PROMPT_TOKENS_TOTAL, REQUESTS_DEFERRED,
    REQUESTS_PROCESSING, TOKENS_PREDICTED_SECONDS_TOTAL, TOKENS_PREDICTED_TOTAL,
};
use crate::parser::spec_prompt_expected_total;
use crate::config::trim_end_slashes;
use crate::log_tailer::{capture_lines, non_empty, resume_index, spec_process_capture};
use crate::parser::{expected_total, pow10};
use crate::slot_state::{next_slot, sat_sub, CompletedTask, Slot, SlotPhase};
use crate::slots::SlotSnapshot;
use crate::text::{digits_value, is_white_space, lemma_parse_decimal, line_scan, split_lines, trim_ws};

verus! {

/// Progress is a proper fraction: its denominator is positive and its
/// numerator does not exceed it.
pub proof fn law_progress_at_most_one(prev: Option<Slot>, snap: SlotSnapshot, selected: bool, now: u64)
    ensures
        next_slot(prev, snap, selected, now).progress.den > 0,
        next_slot(prev, snap, selected, now).progress.num <= next_slot(prev, snap, selected, now).progress.den,
{
}

/// On a new task (the task id changed from a non-zero one) the expected
/// prompt size learned from the log is forgotten; on the same task it is kept.
pub proof fn law_new_task_forgets_expected_total(prev: Slot, snap: SlotSnapshot, selected: bool, now: u64)
    ensures
        snap.id_task != prev.id_task && prev.id_task != 0 ==> next_slot(Some(prev), snap, selected, now).expected_prompt_total is None,
        snap.id_task == prev.id_task ==> next_slot(Some(prev), snap, selected, now).expected_prompt_total == prev.expected_prompt_total,
{
}

/// The slots present after a `/slots` poll are exactly those the poll
/// reported: slots missing from it are dropped, and every reported slot has
/// an entry.
pub proof fn law_poll_keeps_exactly_reported_slots(
    m: Map<u32, Slot>,
    sel: Option<u32>,
    snaps: Seq<SlotSnapshot>,
    nows: Seq<u64>,
)
    requires
        nows.len() == snaps.len(),
    ensures
        apply_batch(m.restrict(batch_ids(snaps)), sel, snaps, nows).dom() =~= batch_ids(snaps),
{
    lemma_batch_domain(m.restrict(batch_ids(snaps)), sel, snaps, nows);
}

proof fn lemma_batch_domain(m: Map<u32, Slot>, sel: Option<u32>, snaps: Seq<SlotSnapshot>, nows: Seq<u64>)
    requires
        nows.len() == snaps.len(),
    ensures
        apply_batch(m, sel, snaps, nows).dom() =~= m.dom().union(batch_ids(snaps)),
    decreases snaps.len(),
{
    if snaps.len() > 0 {
        lemma_batch_domain(m, sel, snaps.drop_last(), nows.drop_last());
        assert forall|id: u32| batch_ids(snaps).contains(id) == (batch_ids(snaps.drop_last()).contains(id)
            || id == snaps.last().id) by {
            if batch_ids(snaps).contains(id) {
                let i = choose|i: int| 0 <= i < snaps.len() && snaps[i].id == id;
                if i < snaps.len() - 1 {
                    assert(snaps.drop_last()[i].id == id);
                }
            }
            if batch_ids(snaps.drop_last()).contains(id) {
                let i = choose|i: int| 0 <= i < snaps.drop_last().len() && snaps.drop_last()[i].id == id;
                assert(snaps[i].id == id);
            }
            if id == snaps.last().id {
                assert(snaps[snaps.len() - 1].id == id);
            }
        }
    } else {
        assert forall|id: u32| !batch_ids(snaps).contains(id) by {}
    }
}

/// A chart history after a reading holds the last `n` values of the old
/// history followed by the new value (all of them when there are fewer), and
/// never more than `n` values.
pub proof fn law_history_is_bounded(s: Seq<u64>, x: u64, n: usize)
    ensures
        keep_last(s.push(x), n).len() == (if s.len() + 1 > n { n as int } else { s.len() + 1 as int }),
        keep_last(s.push(x), n).len() <= n || keep_last(s.push(x), n) == s.push(x),
        n > 0 ==> keep_last(s.push(x), n).last() == x,
{
}

/// A repeated log line (same non-empty comparison key as the previous one)
/// does not grow the log: it only bumps the repeat count.
pub proof fn law_repeated_log_line_folds(v: AppView, line: Seq<char>)
    requires
        v.log_key == log_key(line),
        log_key(line).len() > 0,
    ensures
        spec_add_log(v, line).logs.len() == v.logs.len(),
        spec_add_log(v, line).log_line == v.log_line,
{
}

/// Pressing a view toggle twice restores the dashboard.
pub proof fn law_toggle_twice_restores(v: AppView, c: char)
    requires
        !v.show_config,
        c == '1' || c == '2' || c == '4',
    ensures
        spec_handle_key(spec_handle_key(v, Key::Char(c)).0, Key::Char(c)).0 == v,
{
}

/// In the configuration editor, moving down a field and back up returns to
/// the same state, and so does moving up and back down.
pub proof fn law_field_navigation_inverts(v: AppView)
    requires
        v.show_config,
    ensures
        spec_handle_key(spec_handle_key(v, Key::Down).0, Key::Up).0 == v,
        spec_handle_key(spec_handle_key(v, Key::Up).0, Key::Down).0 == v,
{
}

proof fn lemma_theme_names_distinct()
    ensures
        forall|i: int, j: int|
            0 <= i < 10 && 0 <= j < 10 && i != j ==> theme_names()[i] != theme_names()[j],
{
    assert(theme_names()[0][1] != theme_names()[4][1]);
    assert(theme_names()[0][0] != theme_names()[2][0]);
    assert(theme_names()[0][0] != theme_names()[7][0]);
    assert(theme_names()[0][0] != theme_names()[8][0]);
    assert(theme_names()[0][0] != theme_names()[9][0]);
    assert(theme_names()[2][0] != theme_names()[4][0]);
    assert(theme_names()[2][0] != theme_names()[7][0]);
    assert(theme_names()[2][0] != theme_names()[8][0]);
    assert(theme_names()[2][0] != theme_names()[9][0]);
    assert(theme_names()[4][0] != theme_names()[7][0]);
    assert(theme_names()[4][0] != theme_names()[8][0]);
    assert(theme_names()[4][0] != theme_names()[9][0]);
    assert(theme_names()[7][0] != theme_names()[8][0]);
    assert(theme_names()[7][0] != theme_names()[9][0]);
    assert(theme_names()[8][0] != theme_names()[9][0]);
}

proof fn lemma_theme_index_of_name(i: int)
    requires
        0 <= i < 10,
    ensures
        theme_index_from(theme_names()[i], 0) == Some(i),
{
    lemma_theme_names_distinct();
    lemma_theme_index_scan(theme_names()[i], i, 0);
}

proof fn lemma_theme_index_scan(t: Seq<char>, i: int, j: int)
    requires
        0 <= j <= i < 10,
        t == theme_names()[i],
        forall|a: int, b: int|
            0 <= a < 10 && 0 <= b < 10 && a != b ==> theme_names()[a] != theme_names()[b],
    ensures
        theme_index_from(t, j) == Some(i),
    decreases i - j,
{
    if j < i {
        lemma_theme_index_scan(t, i, j + 1);
    }
}

/// On the theme field, cycling forward and then back returns to the theme
/// being edited, which is then also the theme shown.
pub proof fn law_theme_cycle_inverts(v: AppView)
    requires
        v.show_config,
        v.config_field == ConfigField::Theme,
        theme_index_from(v.config_edits.theme, 0) is Some,
    ensures
        spec_handle_key(spec_handle_key(v, Key::Right).0, Key::Left).0 == (AppView {
            theme: v.config_edits.theme,
            ..v
        }),
        spec_handle_key(spec_handle_key(v, Key::Left).0, Key::Right).0 == (AppView {
            theme: v.config_edits.theme,
            ..v
        }),
{
    let p = theme_index_from(v.config_edits.theme, 0)->0;
    lemma_theme_index_bounds(v.config_edits.theme, 0);
    lemma_theme_index_of_name((p + 1) % 10);
    lemma_theme_index_of_name(if p == 0 { 9 } else { p - 1 });
    lemma_theme_index_of_name(p);
    assert(theme_names()[p] == v.config_edits.theme);
    let v1 = spec_handle_key(v, Key::Right).0;
    assert(v1.config_edits.theme == theme_names()[(p + 1) % 10]);
    let w = AppView { theme: v.config_edits.theme, ..v };
    assert(spec_handle_key(v1, Key::Left).0.config_edits =~= w.config_edits);
    let v2 = spec_handle_key(v, Key::Left).0;
    assert(spec_handle_key(v2, Key::Right).0.config_edits =~= w.config_edits);
}

proof fn lemma_theme_index_bounds(t: Seq<char>, i: int)
    requires
        0 <= i,
    ensures
        theme_index_from(t, i) matches Some(p) ==> i <= p < 10 && theme_names()[p] == t,
    decreases 10 - i,
{
    if i < 10 {
        lemma_theme_index_bounds(t, i + 1);
    }
}

/// Opening the configuration editor and saving right away leaves the
/// settings as they were and reports no URL change (for every setting whose
/// tmux session, when present, is not empty).
pub proof fn law_edit_then_save_keeps_config(v: AppView)
    requires
        !v.show_config,
        !(v.config.tmux_session matches Some(s) && s.len() == 0),
    ensures
        ({
            let opened = spec_handle_key(v, Key::Esc).0;
            let (saved, effect) = spec_handle_key(opened, Key::Enter);
            &&& saved.config == v.config
            &&& effect == crate::app::KeyEffect::SaveConfig { url_changed: false }
            &&& !saved.show_config
        }),
{
    lemma_parse_decimal(v.config.slots_poll_ms as nat, u64::MAX as nat);
    lemma_parse_decimal(v.config.metrics_poll_ms as nat, u64::MAX as nat);
    lemma_parse_decimal(v.config.chart_history as nat, usize::MAX as nat);
    let opened = spec_handle_key(v, Key::Esc).0;
    let saved = spec_handle_key(opened, Key::Enter).0;
    assert(saved.config =~= v.config);
}

proof fn lemma_with_selection_index(s: Seq<Slot>, sel: Option<u32>, i: int)
    requires
        sorted_ids(s),
        0 <= i < s.len(),
    ensures
        sorted_ids(crate::app::with_selection(s, sel)),
        index_of_id(crate::app::with_selection(s, sel), s[i].id) == i,
{
    let t = crate::app::with_selection(s, sel);
    assert forall|a: int, b: int| 0 <= a < b < t.len() implies t[a].id < t[b].id by {
        assert(s[a].id < s[b].id);
    }
    let j = index_of_id(t, s[i].id);
    assert(t[i].id == s[i].id);
    assert(0 <= j < t.len() && t[j].id == s[i].id);
    if j < i {
        assert(t[j].id < t[i].id);
    } else if j > i {
        assert(t[i].id < t[j].id);
    }
}

/// With a slot selected, selecting the next slot and then the previous one
/// selects the previously selected slot again: the dashboard is as before,
/// with the slot detail shown.
pub proof fn law_next_then_prev_restores_selection(v: AppView)
    requires
        wf_view(v),
        !v.show_config,
        v.selected_slot is Some,
    ensures
        spec_handle_key(spec_handle_key(v, Key::Down).0, Key::Up).0.selected_slot == v.selected_slot,
        spec_handle_key(spec_handle_key(v, Key::Down).0, Key::Up).0 == (AppView {
            show_slot_detail: true,
            ..v
        }),
{
    let s = v.slots;
    let x = v.selected_slot->0;
    let i = choose|i: int| 0 <= i < s.len() && s[i].id == x;
    lemma_with_selection_index(s, None, i);
    assert(crate::app::with_selection(s, None)[i].id == s[i].id);
    let p = index_of_id(s, x);
    let n = s.len() as int;
    assert(p == i) by {
        if p < i {
            assert(s[p].id < s[i].id);
        } else if p > i {
            assert(s[i].id < s[p].id);
        }
    }
    let q = (p + 1) % n;
    if p + 1 < n {
        vstd::arithmetic::div_mod::lemma_small_mod((p + 1) as nat, n as nat);
    } else {
        vstd::arithmetic::div_mod::lemma_mod_self_0(n);
    }
    let y = s[q].id;
    assert(next_selected(s, Some(x)) == y);
    let s1 = crate::app::with_selection(s, Some(y));
    lemma_with_selection_index(s, Some(y), q);
    assert(prev_selected(s1, Some(y)) == s1[if q == 0 { n - 1 } else { q - 1 }].id);
    assert((if q == 0 { n - 1 } else { q - 1 }) == p);
    let s2 = crate::app::with_selection(s1, Some(x));
    assert forall|k: int| 0 <= k < s.len() implies #[trigger] s2[k] == s[k] by {
        assert(s[k].selected == (v.selected_slot == Some(s[k].id)));
    }
    assert(s2 =~= s);
}

/// The expected total is never below the token count it was derived from
/// (the progress it divides by is below 1).
pub proof fn law_expected_total_at_least_tokens(n: nat, ip: Seq<char>, fp: Seq<char>)
    requires
        n <= u64::MAX,
        crate::text::all_ascii_digits(fp),
    ensures
        expected_total(n, ip, fp) matches Some(t) ==> t >= n,
{
    if digits_value(ip) == 0 && digits_value(fp) > 0 {
        lemma_digits_below_pow10(fp);
        let v = digits_value(fp);
        let p = pow10(fp.len());
        assert(n * p / v >= n) by (nonlinear_arith)
            requires
                0 < v < p,
        ;
    }
}

proof fn lemma_digits_below_pow10(s: Seq<char>)
    requires
        crate::text::all_ascii_digits(s),
    ensures
        digits_value(s) < pow10(s.len()),
    decreases s.len(),
{
    if s.len() > 0 {
        let t = s.drop_last();
        assert forall|i: int| 0 <= i < t.len() implies crate::text::is_ascii_digit(#[trigger] t[i]) by {
            assert(t[i] == s[i]);
        }
        lemma_digits_below_pow10(t);
        assert(crate::text::is_ascii_digit(s[s.len() - 1]));
        let a = digits_value(t);
        let b = pow10(t.len());
        let d = crate::text::digit_value(s.last());
        assert(a * 10 + d < 10 * b) by (nonlinear_arith)
            requires
                a < b,
                d <= 9,
        ;
    }
}

/// Removing trailing slashes leaves no trailing slash, and doing it twice is
/// the same as once.
pub proof fn law_base_url_trimmed(s: Seq<char>)
    ensures
        trim_end_slashes(s).len() == 0 || trim_end_slashes(s).last() != '/',
        trim_end_slashes(trim_end_slashes(s)) == trim_end_slashes(s),
    decreases s.len(),
{
    if s.len() > 0 && s.last() == '/' {
        law_base_url_trimmed(s.drop_last());
    }
}

/// A capture sends only non-empty lines, and the lines remembered for the
/// next capture stay at most ten.
pub proof fn law_capture_sends_non_empty_lines(last: Seq<Seq<char>>, output: Seq<char>)
    requires
        last.len() <= 10,
    ensures
        ({
            let (send, keep) = spec_process_capture(last, output);
            &&& forall|i: int| 0 <= i < send.len() ==> (#[trigger] send[i]).len() > 0
            &&& keep.len() <= 10
        }),
{
    let all = capture_lines(output);
    if all.len() > 0 {
        lemma_non_empty_lines(all.skip(resume_index(all, last)));
    }
}

proof fn lemma_non_empty_lines(s: Seq<Seq<char>>)
    ensures
        forall|i: int| 0 <= i < non_empty(s).len() ==> (#[trigger] non_empty(s)[i]).len() > 0,
    decreases s.len(),
{
    if s.len() > 0 {
        let t = s.drop_last();
        lemma_non_empty_lines(t);
        if s.last().len() > 0 {
            assert forall|i: int| 0 <= i < non_empty(s).len() implies (#[trigger] non_empty(s)[i]).len()
                > 0 by {
                if i < non_empty(t).len() {
                    assert(non_empty(s)[i] == non_empty(t)[i]);
                }
            }
        }
    }
}

/// The phase follows the counters: processing the prompt only while the
/// processed prompt count grows short of the prompt size, generating only
/// while the decoded count grows, and idle when a processing slot's counters
/// did not move since the previous poll of the same task.
pub proof fn law_phase_follows_counters(prev: Slot, snap: SlotSnapshot, selected: bool, now: u64)
    ensures
        next_slot(Some(prev), snap, selected, now).phase == SlotPhase::Prompt ==> snap.is_processing
            && snap.n_prompt_tokens_processed > prev.n_prompt_tokens_processed
            && snap.n_prompt_tokens_processed < snap.n_prompt_tokens,
        next_slot(Some(prev), snap, selected, now).phase == SlotPhase::Generation ==> snap.is_processing
            && (snap.id_task == prev.id_task || prev.id_task == 0)
            && snap.n_decoded > prev.n_decoded,
        snap.id_task == prev.id_task && snap.n_prompt_tokens_processed == prev.n_prompt_tokens_processed
            && snap.n_decoded == prev.n_decoded ==> next_slot(Some(prev), snap, selected, now).phase
            == SlotPhase::Idle,
{
}

/// When a new task starts (the task id changed from a non-zero one), the
/// previous task's final figures become the last task: its prompt size, its
/// decoded count and the time since it started; the new task is timed from
/// now. Within the same task the last task is kept.
pub proof fn law_new_task_records_last_task(prev: Slot, snap: SlotSnapshot, selected: bool, now: u64)
    ensures
        snap.id_task != prev.id_task && prev.id_task != 0 ==> {
            let s = next_slot(Some(prev), snap, selected, now);
            &&& s.last_task == Some(CompletedTask {
                n_prompt_tokens: prev.n_prompt_tokens,
                n_decoded: prev.n_decoded,
                duration_nanos: match prev.current_task_start {
                    Some(t) => sat_sub(now, t),
                    None => 0,
                },
            })
            &&& s.current_task_start == Some(now)
        },
        snap.id_task == prev.id_task ==> next_slot(Some(prev), snap, selected, now).last_task
            == prev.last_task,
{
}

proof fn lemma_latest_error(err: Option<String>, msgs: Seq<String>)
    ensures
        any_error(msgs) ==> (latest_error(err, msgs) matches Some(m) && m@.len() > 0),
        !any_error(msgs) ==> latest_error(err, msgs) == err,
    decreases msgs.len(),
{
    if msgs.len() > 0 {
        let t = msgs.drop_last();
        lemma_latest_error(err, t);
        if any_error(t) {
            let j = choose|j: int| 0 <= j < t.len() && (#[trigger] t[j])@.len() > 0;
            assert(msgs[j] == t[j]);
        }
        if any_error(msgs) && msgs.last()@.len() == 0 {
            let j = choose|j: int| 0 <= j < msgs.len() && (#[trigger] msgs[j])@.len() > 0;
            assert(j < msgs.len() - 1);
            assert(t[j] == msgs[j]);
        }
        if !any_error(msgs) {
            assert(msgs[msgs.len() - 1] == msgs.last());
            assert forall|j: int| 0 <= j < t.len() implies (#[trigger] t[j])@.len() == 0 by {
                assert(t[j] == msgs[j]);
            }
        }
    }
}

/// How one render tick settles the error shown. A non-empty poller message
/// shows the last such message and is never cleared in the same tick; empty
/// messages change nothing; a tick in which a poller delivered nothing never
/// clears the error; and the error is cleared only at the end of a clean tick
/// (both pollers delivered, no error message) that follows at least two
/// counted clean ticks.
pub proof fn law_error_settling(
    err: Option<String>,
    msgs: Seq<String>,
    slots_ok: bool,
    prom_ok: bool,
    count: u32,
)
    ensures
        ({
            let (e, c) = spec_settle_errors(err, msgs, slots_ok, prom_ok, count);
            &&& any_error(msgs) ==> e == latest_error(err, msgs) && (e matches Some(m) && m@.len() > 0)
                && c <= 1
            &&& !any_error(msgs) && !(slots_ok && prom_ok) ==> e == err && c == 0
            &&& (e is None && err is Some) ==> slots_ok && prom_ok && !any_error(msgs) && count >= 2
        }),
{
    lemma_latest_error(err, msgs);
}

/// Errors clear after three clean ticks: starting from any error and count
/// (short of the counter's limit), three ticks in which both pollers
/// delivered, the last two with no error message, leave no error shown.
pub proof fn law_errors_clear_after_three_clean_ticks(
    err: Option<String>,
    m1: Seq<String>,
    m2: Seq<String>,
    m3: Seq<String>,
    count: u32,
)
    requires
        count < u32::MAX,
        !any_error(m2),
        !any_error(m3),
    ensures
        ({
            let (e1, c1) = spec_settle_errors(err, m1, true, true, count);
            let (e2, c2) = spec_settle_errors(e1, m2, true, true, c1);
            let (e3, c3) = spec_settle_errors(e2, m3, true, true, c2);
            e3 is None
        }),
{
    lemma_latest_error(err, m1);
    let (e1, c1) = spec_settle_errors(err, m1, true, true, count);
    lemma_latest_error(e1, m2);
    let (e2, c2) = spec_settle_errors(e1, m2, true, true, c1);
    lemma_latest_error(e2, m3);
}

/// The server is marked running once: the first sighting records the start
/// time, later sightings change nothing, and key presses and log lines never
/// touch the server state or the start time.
pub proof fn law_server_seen_once(v: AppView, now1: u64, now2: u64, key: Key, line: Seq<char>)
    ensures
        v.server_state == ServerState::Unknown ==> spec_mark_server_seen(v, now1).server_state
            == ServerState::Running && spec_mark_server_seen(v, now1).start_time == Some(now1),
        spec_mark_server_seen(spec_mark_server_seen(v, now1), now2) == spec_mark_server_seen(v, now1),
        spec_handle_key(v, key).0.server_state == v.server_state,
        spec_handle_key(v, key).0.start_time == v.start_time,
        spec_on_log_line(v, line).server_state == v.server_state,
        spec_on_log_line(v, line).start_time == v.start_time,
{
}

/// In the configuration editor, Down (or Tab) moves to the next field in the
/// order URL, tmux session, slots interval, metrics interval, chart history,
/// theme, and back to the URL, leaving the buffers alone; six of them in a
/// row return to the starting state.
pub proof fn law_field_cycle(v: AppView)
    requires
        v.show_config,
    ensures
        spec_handle_key(v, Key::Down).0 == (AppView { config_field: next_field(v.config_field), ..v }),
        spec_handle_key(v, Key::Tab).0 == spec_handle_key(v, Key::Down).0,
        next_field(ConfigField::Url) == ConfigField::TmuxSession,
        next_field(ConfigField::TmuxSession) == ConfigField::SlotsPollMs,
        next_field(ConfigField::SlotsPollMs) == ConfigField::MetricsPollMs,
        next_field(ConfigField::MetricsPollMs) == ConfigField::ChartHistory,
        next_field(ConfigField::ChartHistory) == ConfigField::Theme,
        next_field(ConfigField::Theme) == ConfigField::Url,
        spec_handle_key(
            spec_handle_key(
                spec_handle_key(
                    spec_handle_key(spec_handle_key(spec_handle_key(v, Key::Down).0, Key::Down).0, Key::Down).0,
                    Key::Down,
                ).0,
                Key::Down,
            ).0,
            Key::Down,
        ).0 == v,
{
}

/// On the theme field, Right shows and edits the next theme of the cycle
/// (the last one wraps to the first) and Left the one before; a name that is
/// not in the cycle is left as it is by both.
pub proof fn law_theme_step(v: AppView)
    requires
        v.show_config,
        v.config_field == ConfigField::Theme,
    ensures
        match theme_index_from(v.config_edits.theme, 0) {
            Some(i) => {
                let t = theme_names()[(i + 1) % 10];
                let u = theme_names()[if i == 0 { 9 } else { i - 1 }];
                &&& spec_handle_key(v, Key::Right).0 == (AppView {
                    config_edits: EditsView { theme: t, ..v.config_edits },
                    theme: t,
                    ..v
                })
                &&& spec_handle_key(v, Key::Left).0 == (AppView {
                    config_edits: EditsView { theme: u, ..v.config_edits },
                    theme: u,
                    ..v
                })
            },
            None => spec_handle_key(v, Key::Right).0 == v && spec_handle_key(v, Key::Left).0 == v,
        },
        theme_names()[(9int + 1) % 10] == theme_names()[0],
{
}

/// Saving the editor while its buffers still show the settings in force
/// keeps the settings and reports no URL change (for every setting whose tmux
/// session, when present, is not empty).
pub proof fn law_save_unedited_keeps_config(v: AppView)
    requires
        v.show_config,
        v.config_edits == ConfigEdits::from_config_view(v.config),
        !(v.config.tmux_session matches Some(s) && s.len() == 0),
    ensures
        ({
            let (saved, effect) = spec_handle_key(v, Key::Enter);
            &&& saved.config == v.config
            &&& saved.theme == v.config.theme
            &&& effect == crate::app::KeyEffect::SaveConfig { url_changed: false }
            &&& !saved.show_config
        }),
{
    lemma_parse_decimal(v.config.slots_poll_ms as nat, u64::MAX as nat);
    lemma_parse_decimal(v.config.metrics_poll_ms as nat, u64::MAX as nat);
    lemma_parse_decimal(v.config.chart_history as nat, usize::MAX as nat);
    let saved = spec_handle_key(v, Key::Enter).0;
    assert(saved.config =~= v.config);
}

/// The rate windows accumulate: while a slot stays in the same phase of the
/// same task, its window keeps its start, and its token count grows by the
/// tokens processed (prompt) or decoded (generation) since the previous poll,
/// so that it always equals the tokens counted since the window opened; the
/// elapsed time is measured from the window's start.
pub proof fn law_rate_windows_accumulate(prev: Slot, snap: SlotSnapshot, selected: bool, now: u64, base: u64)
    ensures
        ({
            let s = next_slot(Some(prev), snap, selected, now);
            let gs = prev.gen_tps_window_start->0;
            let ps = prev.prompt_tps_window_start->0;
            &&& (s.phase == SlotPhase::Generation && snap.id_task == prev.id_task
                && prev.gen_tps_window_start is Some) ==> {
                &&& s.gen_tps_window_start == Some(gs)
                &&& s.gen_tps_window_tokens as int == (prev.gen_tps_window_tokens + (snap.n_decoded
                    - prev.n_decoded)) % 0x1_0000_0000_0000_0000
                &&& s.gen_tps_elapsed_nanos == (if now >= gs { now - gs } else { 0 })
                &&& (prev.gen_tps_window_tokens + base == prev.n_decoded ==> s.gen_tps_window_tokens
                    + base == snap.n_decoded)
            }
            &&& (s.phase == SlotPhase::Generation && snap.id_task == prev.id_task
                && prev.gen_tps_window_start is None) ==> {
                &&& s.gen_tps_window_start == Some(now)
                &&& s.gen_tps_window_tokens as int == (prev.gen_tps_window_tokens + (snap.n_decoded
                    - prev.n_decoded)) % 0x1_0000_0000_0000_0000
                &&& s.gen_tps_elapsed_nanos == 0
            }
            &&& (s.phase == SlotPhase::Prompt && prev.prompt_tps_window_start is Some) ==> {
                &&& s.prompt_tps_window_start == Some(ps)
                &&& s.prompt_tps_window_tokens as int == (prev.prompt_tps_window_tokens + (
                snap.n_prompt_tokens_processed - prev.n_prompt_tokens_processed))
                    % 0x1_0000_0000_0000_0000
                &&& (prev.prompt_tps_window_tokens + base == prev.n_prompt_tokens_processed
                    ==> s.prompt_tps_window_tokens + base == snap.n_prompt_tokens_processed)
            }
            &&& s.phase != SlotPhase::Generation ==> s.gen_tps_window_start is None
                && s.gen_tps_window_tokens == 0
            &&& s.phase != SlotPhase::Prompt ==> s.prompt_tps_window_start is None
                && s.prompt_tps_window_tokens == 0
        }),
{
    let s = next_slot(Some(prev), snap, selected, now);
    let m: nat = 0x1_0000_0000_0000_0000;
    if s.phase == SlotPhase::Generation && snap.id_task == prev.id_task {
        let d = (snap.n_decoded - prev.n_decoded) as nat;
        if prev.gen_tps_window_tokens + base == prev.n_decoded {
            vstd::arithmetic::div_mod::lemma_small_mod((prev.gen_tps_window_tokens + d) as nat, m);
        }
    }
    if s.phase == SlotPhase::Prompt && prev.prompt_tps_window_start is Some
        && prev.prompt_tps_window_tokens + base == prev.n_prompt_tokens_processed {
        let d = (snap.n_prompt_tokens_processed - prev.n_prompt_tokens_processed) as nat;
        vstd::arithmetic::div_mod::lemma_small_mod((prev.prompt_tps_window_tokens + d) as nat, m);
    }
}

/// Each metric index stands for its own `llamacpp:` metric.
pub proof fn law_metric_indices_name_their_metrics()
    ensures
        metric_names()[PROMPT_TOKENS_TOTAL as int] == "llamacpp:prompt_tokens_total"@,
        metric_names()[PROMPT_SECONDS_TOTAL as int] == "llamacpp:prompt_seconds_total"@,
        metric_names()[TOKENS_PREDICTED_TOTAL as int] == "llamacpp:tokens_predicted_total"@,
        metric_names()[TOKENS_PREDICTED_SECONDS_TOTAL as int]
            == "llamacpp:tokens_predicted_seconds_total"@,
        metric_names()[PROMPT_TOKENS_SECONDS as int] == "llamacpp:prompt_tokens_seconds"@,
        metric_names()[PREDICTED_TOKENS_SECONDS as int] == "llamacpp:predicted_tokens_seconds"@,
        metric_names()[N_DECODE_TOTAL as int] == "llamacpp:n_decode_total"@,
        metric_names()[N_TOKENS_MAX as int] == "llamacpp:n_tokens_max"@,
        metric_names()[REQUESTS_PROCESSING as int] == "llamacpp:requests_processing"@,
        metric_names()[REQUESTS_DEFERRED as int] == "llamacpp:requests_deferred"@,
        metric_names()[N_BUSY_SLOTS_PER_DECODE as int] == "llamacpp:n_busy_slots_per_decode"@,
{
    reveal_strlit("llamacpp:prompt_tokens_total");
    reveal_strlit("llamacpp:prompt_seconds_total");
    reveal_strlit("llamacpp:tokens_predicted_total");
    reveal_strlit("llamacpp:tokens_predicted_seconds_total");
    reveal_strlit("llamacpp:prompt_tokens_seconds");
    reveal_strlit("llamacpp:predicted_tokens_seconds");
    reveal_strlit("llamacpp:n_decode_total");
    reveal_strlit("llamacpp:n_tokens_max");
    reveal_strlit("llamacpp:requests_processing");
    reveal_strlit("llamacpp:requests_deferred");
    reveal_strlit("llamacpp:n_busy_slots_per_decode");
    assert(metric_names()[0] =~= "llamacpp:prompt_tokens_total"@);
    assert(metric_names()[1] =~= "llamacpp:prompt_seconds_total"@);
    assert(metric_names()[2] =~= "llamacpp:tokens_predicted_total"@);
    assert(metric_names()[3] =~= "llamacpp:tokens_predicted_seconds_total"@);
    assert(metric_names()[4] =~= "llamacpp:prompt_tokens_seconds"@);
    assert(metric_names()[5] =~= "llamacpp:predicted_tokens_seconds"@);
    assert(metric_names()[6] =~= "llamacpp:n_decode_total"@);
    assert(metric_names()[7] =~= "llamacpp:n_tokens_max"@);
    assert(metric_names()[8] =~= "llamacpp:requests_processing"@);
    assert(metric_names()[9] =~= "llamacpp:requests_deferred"@);
    assert(metric_names()[10] =~= "llamacpp:n_busy_slots_per_decode"@);
}

proof fn lemma_no_newline_one_line(s: Seq<char>)
    requires
        forall|i: int| 0 <= i < s.len() ==> s[i] != '\n',
    ensures
        line_scan(s) == (Seq::<Seq<char>>::empty(), s),
    decreases s.len(),
{
    if s.len() > 0 {
        lemma_no_newline_one_line(s.drop_last());
        assert(s.drop_last().push(s.last()) =~= s);
    }
}

proof fn lemma_word_scan_word(s: Seq<char>)
    requires
        forall|i: int| 0 <= i < s.len() ==> !is_white_space(s[i]),
    ensures
        word_scan(s) == (Seq::<Seq<char>>::empty(), s),
    decreases s.len(),
{
    if s.len() > 0 {
        lemma_word_scan_word(s.drop_last());
        assert(s.drop_last().push(s.last()) =~= s);
    }
}

proof fn lemma_word_scan_two(a: Seq<char>, b: Seq<char>)
    requires
        a.len() > 0,
        forall|i: int| 0 <= i < a.len() ==> !is_white_space(a[i]),
        forall|i: int| 0 <= i < b.len() ==> !is_white_space(b[i]),
    ensures
        word_scan(a + seq![' '] + b) == (seq![a], b),
    decreases b.len(),
{
    if b.len() == 0 {
        lemma_word_scan_word(a);
        assert((a + seq![' '] + b).drop_last() =~= a);
        assert(is_white_space(' '));
        assert(Seq::<Seq<char>>::empty().push(a) =~= seq![a]);
    } else {
        lemma_word_scan_two(a, b.drop_last());
        assert((a + seq![' '] + b).drop_last() =~= a + seq![' '] + b.drop_last());
        assert(b.drop_last().push(b.last()) =~= b);
    }
}

/// A body holding the single sample line `name value` reports `value` for
/// the metric called `name` and nothing for any other metric.
pub proof fn law_single_sample_scan(name: Seq<char>, value: Seq<char>, k: int)
    requires
        name.len() > 0,
        value.len() > 0,
        name[0] != '#',
        forall|i: int| 0 <= i < name.len() ==> !is_white_space(name[i]),
        forall|i: int| 0 <= i < value.len() ==> !is_white_space(value[i]),
        is_float_literal(value),
        0 <= k < METRIC_COUNT,
    ensures
        last_value(split_lines(name + seq![' '] + value), metric_names()[k]) == (if name
            == metric_names()[k] {
            Some(value)
        } else {
            None
        }),
{
    let l = name + seq![' '] + value;
    assert(is_white_space('\n'));
    assert forall|i: int| 0 <= i < l.len() implies l[i] != '\n' by {
        if i < name.len() {
            assert(l[i] == name[i]);
        } else if i > name.len() {
            assert(l[i] == value[i - name.len() - 1]);
        }
    }
    lemma_no_newline_one_line(l);
    assert(split_lines(l) =~= seq![l]);
    reveal_with_fuel(last_value, 2);
    lemma_word_scan_two(name, value);
    assert(split_words(l) =~= seq![name, value]);
    assert(l[0] == name[0]);
    assert(line_sample(l) == Some((name, value)));
    assert(seq![l].drop_last() =~= Seq::<Seq<char>>::empty());
}

/// Saving the editor takes the tmux session from its buffer: an empty buffer
/// turns log tailing off (no session), whatever session was in force, and a
/// non-empty one becomes the session.
pub proof fn law_save_takes_session_from_buffer(v: AppView)
    requires
        v.show_config,
    ensures
        v.config_edits.tmux_session.len() == 0 ==> spec_handle_key(v, Key::Enter).0.config.tmux_session
            is None,
        v.config_edits.tmux_session.len() > 0 ==> spec_handle_key(v, Key::Enter).0.config.tmux_session
            == Some(v.config_edits.tmux_session),
        spec_handle_key(v, Key::Enter).0.config.url == v.config_edits.url,
        spec_handle_key(v, Key::Enter).0.config.theme == v.config_edits.theme,
{
}

proof fn lemma_first_prompt(s: Seq<Slot>, i: int)
    requires
        0 <= i,
    ensures
        first_prompt_index(s, i) matches Some(k) ==> i <= k < s.len() && s[k].phase == SlotPhase::Prompt
            && forall|j: int| i <= j < k ==> s[j].phase != SlotPhase::Prompt,
        first_prompt_index(s, i) is None ==> forall|j: int| i <= j < s.len() ==> s[j].phase
            != SlotPhase::Prompt,
    decreases s.len() - i,
{
    if i < s.len() {
        lemma_first_prompt(s, i + 1);
    }
}

/// A log line reporting prompt progress gives its expected total to the
/// first slot (in id order) that is processing a prompt, and to no other:
/// slots in any other phase, and the later prompt slots, are left exactly as
/// they were; a line without such a report changes no slot.
pub proof fn law_log_line_reaches_only_the_prompt_slot(v: AppView, line: Seq<char>)
    requires
        wf_view(v),
    ensures
        ({
            let w = spec_on_log_line(v, line);
            &&& w.slots.len() == v.slots.len()
            &&& forall|i: int| 0 <= i < v.slots.len() && v.slots[i].phase != SlotPhase::Prompt
                ==> #[trigger] w.slots[i] == v.slots[i]
            &&& spec_prompt_expected_total(line) is None ==> w.slots == v.slots
            &&& forall|i: int|
                0 <= i < v.slots.len() && v.slots[i].phase == SlotPhase::Prompt ==> {
                    if (forall|j: int| 0 <= j < i ==> v.slots[j].phase != SlotPhase::Prompt) {
                        match spec_prompt_expected_total(line) {
                            Some(t) => #[trigger] w.slots[i] == Slot {
                                expected_prompt_total: Some(t),
                                ..v.slots[i]
                            },
                            None => w.slots[i] == v.slots[i],
                        }
                    } else {
                        w.slots[i] == v.slots[i]
                    }
                }
        }),
{
    let opt = spec_prompt_expected_total(line);
    let w = spec_on_log_line(v, line);
    let v1 = expected_applied(v, opt);
    lemma_add_log_keeps_slots(v1, line);
    assert(w == spec_add_log(v1, line));
    lemma_expected_applied(v, opt);
}

spec fn expected_applied(v: AppView, opt: Option<u64>) -> AppView {
    match opt {
        Some(total) => match first_prompt_index(v.slots, 0) {
            Some(i) => spec_apply_expected(v, v.slots[i].id, total),
            None => v,
        },
        None => v,
    }
}

proof fn lemma_add_log_keeps_slots(v: AppView, line: Seq<char>)
    ensures
        spec_add_log(v, line).slots == v.slots,
{
}

proof fn lemma_expected_applied(v: AppView, opt: Option<u64>)
    requires
        wf_view(v),
    ensures
        ({
            let w = expected_applied(v, opt);
            &&& w.slots.len() == v.slots.len()
            &&& forall|i: int| 0 <= i < v.slots.len() && v.slots[i].phase != SlotPhase::Prompt
                ==> #[trigger] w.slots[i] == v.slots[i]
            &&& opt is None ==> w.slots == v.slots
            &&& forall|i: int|
                0 <= i < v.slots.len() && v.slots[i].phase == SlotPhase::Prompt ==> {
                    if (forall|j: int| 0 <= j < i ==> v.slots[j].phase != SlotPhase::Prompt) {
                        match opt {
                            Some(t) => #[trigger] w.slots[i] == Slot {
                                expected_prompt_total: Some(t),
                                ..v.slots[i]
                            },
                            None => w.slots[i] == v.slots[i],
                        }
                    } else {
                        w.slots[i] == v.slots[i]
                    }
                }
        }),
{
    lemma_first_prompt(v.slots, 0);
    let w = expected_applied(v, opt);
    let s = v.slots;
    match opt {
        Some(t) => match first_prompt_index(s, 0) {
            Some(k) => {
                lemma_index_of_slot(s, k);
                assert(has_id(s, s[k].id));
                assert(w.slots == s.update(k, Slot { expected_prompt_total: Some(t), ..s[k] }));
                assert forall|i: int|
                    0 <= i < s.len() && s[i].phase == SlotPhase::Prompt implies {
                        if (forall|j: int| 0 <= j < i ==> s[j].phase != SlotPhase::Prompt) {
                            #[trigger] w.slots[i] == Slot { expected_prompt_total: Some(t), ..s[i] }
                        } else {
                            w.slots[i] == s[i]
                        }
                    } by {
                    if forall|j: int| 0 <= j < i ==> s[j].phase != SlotPhase::Prompt {
                        lemma_first_prompt_unique(s, i, k);
                    } else {
                        assert(i != k);
                    }
                }
            },
            None => {},
        },
        None => {},
    }
}

proof fn lemma_first_prompt_unique(s: Seq<Slot>, i: int, k: int)
    requires
        first_prompt_index(s, 0) == Some(k),
        0 <= i < s.len(),
        s[i].phase == SlotPhase::Prompt,
        forall|j: int| 0 <= j < i ==> s[j].phase != SlotPhase::Prompt,
    ensures
        i == k,
{
    lemma_first_prompt(s, 0);
    if i > k {
        assert(s[k].phase == SlotPhase::Prompt);
    }
}

proof fn lemma_index_of_slot(s: Seq<Slot>, i: int)
    requires
        sorted_ids(s),
        0 <= i < s.len(),
    ensures
        index_of_id(s, s[i].id) == i,
{
    assert(has_id(s, s[i].id));
    let j = index_of_id(s, s[i].id);
    if j < i {
        assert(s[j].id < s[i].id);
    } else if j > i {
        assert(s[i].id < s[j].id);
    }
}

/// A log line's comparison key is the text after its first space, trimmed
/// (the whole line, trimmed, when it has no space): the leading token, such
/// as a timestamp, is ignored, and everything after it counts.
pub proof fn law_log_key_skips_first_token(first: Seq<char>, rest: Seq<char>, line: Seq<char>)
    requires
        forall|i: int| 0 <= i < first.len() ==> first[i] != ' ',
    ensures
        log_key(first + seq![' '] + rest) == trim_ws(rest),
        (forall|i: int| 0 <= i < line.len() ==> line[i] != ' ') ==> log_key(line) == trim_ws(line),
{
    let l = first + seq![' '] + rest;
    let n = first.len() as int;
    assert(l[n] == ' ');
    let i = choose|i: int| 0 <= i < l.len() && l[i] == ' ' && forall|j: int| 0 <= j < i ==> l[j] != ' ';
    if i < n {
        assert(l[i] == first[i]);
    }
    if i > n {
        assert(l[n] != ' ');
    }
    assert(l.skip(n + 1) =~= rest);
}

/// A line whose comparison key differs from the previous line's (or is
/// empty) is never folded: it is appended as it is and starts a new count.
pub proof fn law_distinct_lines_are_not_folded(v: AppView, line: Seq<char>)
    requires
        v.logs.len() <= 1000,
        v.log_key != log_key(line) || log_key(line).len() == 0,
    ensures
        ({
            let w = spec_add_log(v, line);
            &&& w.logs.last() == line
            &&& w.log_line == line
            &&& w.log_count == 1
            &&& w.logs.len() == (if v.logs.len() == 1000 { 1000 } else { v.logs.len() + 1 })
        }),
{
}

} // verus!
