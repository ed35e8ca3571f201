//! Per-slot state derived by diffing consecutive `/slots` snapshots.
//!
//! Times are nanosecond readings of a monotonic clock. Progress is kept as an
//! exact fraction and token rates as (tokens, elapsed nanoseconds) windows;
//! their floating-point values are `num / den` and `tokens / elapsed`.

use vstd::prelude::*;
use crate::slots::{SlotParams, SlotSnapshot};

verus! {

/// What a slot is doing.
#[derive(Clone, Copy, Debug, PartialEq, Eq, Structural)]
pub enum SlotPhase {
    /// No task.
    Idle,
    /// Prompt processing ("THINK").
    Prompt,
    /// Token generation ("WRITE").
    Generation,
    /// Task just completed.
    Done,
}

/// The fixed-width label shown for a phase.
pub open spec fn spec_phase_label(p: SlotPhase) -> Seq<char> {
    match p {
        SlotPhase::Idle => seq!['I', 'D', 'L', 'E', ' '],
        SlotPhase::Prompt => seq!['T', 'H', 'I', 'N', 'K'],
        SlotPhase::Generation => seq!['W', 'R', 'I', 'T', 'E'],
        SlotPhase::Done => seq!['D', 'O', 'N', 'E', ' '],
    }
}

impl SlotPhase {
    /// The five-character label of the phase: `IDLE `, `THINK`, `WRITE`, `DONE `.
    pub fn label(&self) -> (r: &'static str)
        ensures
            r@ == spec_phase_label(*self),
    {
        proof {
            reveal_strlit("IDLE ");
            reveal_strlit("THINK");
            reveal_strlit("WRITE");
            reveal_strlit("DONE ");
        }
        match self {
            SlotPhase::Idle => {
                assert("IDLE "@ =~= spec_phase_label(*self));
                "IDLE "
            },
            SlotPhase::Prompt => {
                assert("THINK"@ =~= spec_phase_label(*self));
                "THINK"
            },
            SlotPhase::Generation => {
                assert("WRITE"@ =~= spec_phase_label(*self));
                "WRITE"
            },
            SlotPhase::Done => {
                assert("DONE "@ =~= spec_phase_label(*self));
                "DONE "
            },
        }
    }
}

/// A progress value `num / den`, with `den > 0` and `num <= den`.
#[derive(Clone, Copy, Debug, PartialEq, Eq, Structural)]
pub struct Fraction {
    pub num: u64,
    pub den: u64,
}

/// `done / goal` capped at 1 (`goal > 0`).
pub open spec fn capped_fraction(done: u64, goal: u64) -> Fraction {
    if done > goal {
        Fraction { num: 1, den: 1 }
    } else {
        Fraction { num: done, den: goal }
    }
}

/// Figures of a finished task. Its average rates are
/// `n_prompt_tokens / duration` and `n_decoded / duration`.
#[derive(Clone, Copy, Debug, PartialEq, Eq, Structural)]
pub struct CompletedTask {
    pub n_prompt_tokens: u64,
    pub n_decoded: u64,
    /// Time from the task's start to the poll that saw the next task, in
    /// nanoseconds (0 when its start was not seen).
    pub duration_nanos: u64,
}

/// Dashboard state of one slot.
pub struct Slot {
    pub id: u32,
    pub phase: SlotPhase,
    /// Progress of the current phase, between 0 and 1.
    pub progress: Fraction,
    /// Start of the prompt-rate window.
    pub prompt_tps_window_start: Option<u64>,
    /// Prompt tokens processed within the window.
    pub prompt_tps_window_tokens: u64,
    /// Length of the prompt-rate window at the last update, in nanoseconds.
    pub prompt_tps_elapsed_nanos: u64,
    /// Start of the generation-rate window.
    pub gen_tps_window_start: Option<u64>,
    /// Tokens generated within the window.
    pub gen_tps_window_tokens: u64,
    /// Length of the generation-rate window at the last update, in nanoseconds.
    pub gen_tps_elapsed_nanos: u64,
    /// Current context size (loaded prompt).
    pub n_prompt_tokens: u64,
    pub n_prompt_tokens_processed: u64,
    pub n_decoded: u64,
    pub max_tokens: u64,
    pub n_ctx: u64,
    /// Expected prompt size, learned from the server log.
    pub expected_prompt_total: Option<u64>,
    pub n_prompt_tokens_cache: u64,
    pub id_task: i64,
    pub params: SlotParams,
    pub last_task: Option<CompletedTask>,
    pub current_task_start: Option<u64>,
    pub selected: bool,
}

/// `a - b`, or 0 when `b > a`.
pub open spec fn sat_sub(a: u64, b: u64) -> u64 {
    if a >= b {
        (a - b) as u64
    } else {
        0
    }
}

/// `a + b` modulo 2^64.
pub open spec fn wrap_add(a: u64, b: u64) -> u64 {
    ((a + b) % 0x1_0000_0000_0000_0000) as u64
}

/// The state of slot `snap.id` after a poll returned `snap`, given its state
/// before (`None` for a slot seen for the first time), whether it is the
/// selected slot, and the time of the update.
///
/// - A new task (`id_task` changed from a non-zero value) makes the current
///   decoded count the baseline, forgets the expected prompt size, records
///   the previous task's final figures as the last task, and starts timing
///   the new one. A task is also timed from the first poll that shows the
///   slot processing.
/// - Phase: idle when not processing; processing the prompt when the
///   processed prompt count grew and has not reached the prompt size;
///   otherwise generating when the decoded count grew; otherwise idle
///   (processing, but nothing moving).
/// - Progress while processing the prompt: cache-corrected processed tokens
///   over the cache-corrected expected size (or context size when none is
///   known), 1 when that goal is 0; while generating: decoded over the
///   generation limit when there is one; 0 otherwise; capped at 1.
/// - Rate windows start at the first update in their phase, accumulate token
///   deltas, and are reset when the phase is left.
pub open spec fn next_slot(prev: Option<Slot>, snap: SlotSnapshot, selected: bool, now: u64) -> Slot {
    let prev_task: i64 = match prev { Some(p) => p.id_task, None => 0 };
    let prev_processed: u64 = match prev { Some(p) => p.n_prompt_tokens_processed, None => 0 };
    let prev_decoded_raw: u64 = match prev { Some(p) => p.n_decoded, None => 0 };
    let prev_expected: Option<u64> = match prev { Some(p) => p.expected_prompt_total, None => None };
    let prev_start: Option<u64> = match prev { Some(p) => p.current_task_start, None => None };
    let boundary = snap.id_task != prev_task && prev_task != 0;
    let prev_decoded = if boundary { snap.n_decoded } else { prev_decoded_raw };
    let prompt_delta = sat_sub(snap.n_prompt_tokens_processed, prev_processed);
    let gen_delta = sat_sub(snap.n_decoded, prev_decoded);
    let phase = if !snap.is_processing {
        SlotPhase::Idle
    } else if prompt_delta > 0 && snap.n_prompt_tokens_processed < snap.n_prompt_tokens {
        SlotPhase::Prompt
    } else if gen_delta > 0 {
        SlotPhase::Generation
    } else {
        SlotPhase::Idle
    };
    let progress = if phase == SlotPhase::Prompt {
        let done = sat_sub(snap.n_prompt_tokens_processed, snap.n_prompt_tokens_cache);
        let goal = match prev_expected {
            Some(total) => sat_sub(total, snap.n_prompt_tokens_cache),
            None => sat_sub(snap.n_ctx, snap.n_prompt_tokens_cache),
        };
        if goal > 0 { capped_fraction(done, goal) } else { Fraction { num: 1, den: 1 } }
    } else if phase == SlotPhase::Generation && snap.max_tokens > 0 {
        capped_fraction(snap.n_decoded, snap.max_tokens)
    } else {
        Fraction { num: 0, den: 1 }
    };
    let prev_pw_start: Option<u64> = match prev { Some(p) => p.prompt_tps_window_start, None => None };
    let prev_pw_tokens: u64 = match prev { Some(p) => p.prompt_tps_window_tokens, None => 0 };
    let prev_gw_start: Option<u64> = match prev { Some(p) => p.gen_tps_window_start, None => None };
    let prev_gw_tokens: u64 = match prev { Some(p) => p.gen_tps_window_tokens, None => 0 };
    let p_start: u64 = match prev_pw_start { Some(s) => s, None => now };
    let g_start: u64 = match prev_gw_start { Some(s) => s, None => now };
    let in_prompt = phase == SlotPhase::Prompt;
    let in_gen = phase == SlotPhase::Generation;
    Slot {
        id: snap.id,
        phase,
        progress,
        prompt_tps_window_start: if in_prompt { Some(p_start) } else { None },
        prompt_tps_window_tokens: if in_prompt { wrap_add(prev_pw_tokens, prompt_delta) } else { 0 },
        prompt_tps_elapsed_nanos: if in_prompt { sat_sub(now, p_start) } else { 0 },
        gen_tps_window_start: if in_gen { Some(g_start) } else { None },
        gen_tps_window_tokens: if in_gen { wrap_add(prev_gw_tokens, gen_delta) } else { 0 },
        gen_tps_elapsed_nanos: if in_gen { sat_sub(now, g_start) } else { 0 },
        n_prompt_tokens: snap.n_prompt_tokens,
        n_prompt_tokens_processed: snap.n_prompt_tokens_processed,
        n_decoded: snap.n_decoded,
        max_tokens: snap.max_tokens,
        n_ctx: snap.n_ctx,
        expected_prompt_total: if boundary { None } else { prev_expected },
        n_prompt_tokens_cache: snap.n_prompt_tokens_cache,
        id_task: snap.id_task,
        params: snap.params,
        last_task: if boundary {
            Some(CompletedTask {
                n_prompt_tokens: match prev { Some(p) => p.n_prompt_tokens, None => 0 },
                n_decoded: prev_decoded_raw,
                duration_nanos: match prev_start { Some(t) => sat_sub(now, t), None => 0 },
            })
        } else {
            match prev { Some(p) => p.last_task, None => None }
        },
        current_task_start: if boundary {
            Some(now)
        } else {
            match prev_start {
                Some(t) => Some(t),
                None => if snap.is_processing { Some(now) } else { None },
            }
        },
        selected,
    }
}

fn fraction_capped(done: u64, goal: u64) -> (r: Fraction)
    ensures
        r == capped_fraction(done, goal),
{
    if done > goal {
        Fraction { num: 1, den: 1 }
    } else {
        Fraction { num: done, den: goal }
    }
}

/// Computes `next_slot`.
pub fn compute_next_slot(prev: Option<Slot>, snap: SlotSnapshot, selected: bool, now: u64) -> (r:
    Slot)
    ensures
        r == next_slot(prev, snap, selected, now),
{
    let ghost prev0 = prev;
    let ghost snap0 = snap;
    let (prev_task, prev_processed, prev_decoded_raw, prev_expected, prev_pw_start, prev_pw_tokens,
        prev_gw_start, prev_gw_tokens, last_task, current_task_start, prev_prompt_tokens) = match prev {
        Some(p) => (
            p.id_task,
            p.n_prompt_tokens_processed,
            p.n_decoded,
            p.expected_prompt_total,
            p.prompt_tps_window_start,
            p.prompt_tps_window_tokens,
            p.gen_tps_window_start,
            p.gen_tps_window_tokens,
            p.last_task,
            p.current_task_start,
            p.n_prompt_tokens,
        ),
        None => (0i64, 0u64, 0u64, None, None, 0u64, None, 0u64, None, None, 0u64),
    };
    let boundary = snap.id_task != prev_task && prev_task != 0;
    let prev_decoded = if boundary { snap.n_decoded } else { prev_decoded_raw };
    let prompt_delta = snap.n_prompt_tokens_processed.saturating_sub(prev_processed);
    let gen_delta = snap.n_decoded.saturating_sub(prev_decoded);
    let phase = if !snap.is_processing {
        SlotPhase::Idle
    } else if prompt_delta > 0 && snap.n_prompt_tokens_processed < snap.n_prompt_tokens {
        SlotPhase::Prompt
    } else if gen_delta > 0 {
        SlotPhase::Generation
    } else {
        SlotPhase::Idle
    };
    let progress = if phase == SlotPhase::Prompt {
        let done = snap.n_prompt_tokens_processed.saturating_sub(snap.n_prompt_tokens_cache);
        let goal = match prev_expected {
            Some(total) => total.saturating_sub(snap.n_prompt_tokens_cache),
            None => snap.n_ctx.saturating_sub(snap.n_prompt_tokens_cache),
        };
        if goal > 0 {
            fraction_capped(done, goal)
        } else {
            Fraction { num: 1, den: 1 }
        }
    } else if phase == SlotPhase::Generation && snap.max_tokens > 0 {
        fraction_capped(snap.n_decoded, snap.max_tokens)
    } else {
        Fraction { num: 0, den: 1 }
    };
    let in_prompt = phase == SlotPhase::Prompt;
    let in_gen = phase == SlotPhase::Generation;
    let (pw_start, pw_tokens, pw_elapsed) = if in_prompt {
        let start = match prev_pw_start {
            Some(s) => s,
            None => now,
        };
        (Some(start), prev_pw_tokens.wrapping_add(prompt_delta), now.saturating_sub(start))
    } else {
        (None, 0u64, 0u64)
    };
    let (gw_start, gw_tokens, gw_elapsed) = if in_gen {
        let start = match prev_gw_start {
            Some(s) => s,
            None => now,
        };
        (Some(start), prev_gw_tokens.wrapping_add(gen_delta), now.saturating_sub(start))
    } else {
        (None, 0u64, 0u64)
    };
    let (last_task, current_task_start) = if boundary {
        let duration_nanos = match current_task_start {
            Some(t) => now.saturating_sub(t),
            None => 0,
        };
        (
            Some(CompletedTask { n_prompt_tokens: prev_prompt_tokens, n_decoded: prev_decoded_raw, duration_nanos }),
            Some(now),
        )
    } else {
        let start = match current_task_start {
            Some(t) => Some(t),
            None => if snap.is_processing { Some(now) } else { None },
        };
        (last_task, start)
    };
    Slot {
        id: snap.id,
        phase,
        progress,
        prompt_tps_window_start: pw_start,
        prompt_tps_window_tokens: pw_tokens,
        prompt_tps_elapsed_nanos: pw_elapsed,
        gen_tps_window_start: gw_start,
        gen_tps_window_tokens: gw_tokens,
        gen_tps_elapsed_nanos: gw_elapsed,
        n_prompt_tokens: snap.n_prompt_tokens,
        n_prompt_tokens_processed: snap.n_prompt_tokens_processed,
        n_decoded: snap.n_decoded,
        max_tokens: snap.max_tokens,
        n_ctx: snap.n_ctx,
        expected_prompt_total: if boundary { None } else { prev_expected },
        n_prompt_tokens_cache: snap.n_prompt_tokens_cache,
        id_task: snap.id_task,
        params: snap.params,
        last_task,
        current_task_start,
        selected,
    }
}

} // verus!
