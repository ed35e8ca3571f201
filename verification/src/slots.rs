//! The `/slots` API records and their flattened snapshots.
//!
//! Floating-point sampling parameters are carried as IEEE-754 bit patterns
//! (`f64::to_bits`); the library only stores and forwards them.

use vstd::prelude::*;

verus! {

/// Sampling parameters of a slot.
pub struct SlotParams {
    pub max_tokens: i64,
    pub n_predict: i64,
    pub temperature_bits: u64,
    pub top_p_bits: u64,
    pub top_k: i64,
    pub min_p_bits: u64,
    pub repeat_penalty_bits: u64,
    pub repeat_last_n: i64,
    pub presence_penalty_bits: u64,
    pub frequency_penalty_bits: u64,
    pub mirostat_tau_bits: u64,
    pub stop: Vec<String>,
}

impl SlotParams {
    /// All numbers zero (`0.0` for the floating-point ones), no stop words.
    pub open spec fn is_empty(&self) -> bool {
        &&& self.max_tokens == 0
        &&& self.n_predict == 0
        &&& self.temperature_bits == 0
        &&& self.top_p_bits == 0
        &&& self.top_k == 0
        &&& self.min_p_bits == 0
        &&& self.repeat_penalty_bits == 0
        &&& self.repeat_last_n == 0
        &&& self.presence_penalty_bits == 0
        &&& self.frequency_penalty_bits == 0
        &&& self.mirostat_tau_bits == 0
        &&& self.stop@.len() == 0
    }

    /// Same numbers and the same stop words.
    pub open spec fn same_as(&self, other: &SlotParams) -> bool {
        &&& self.max_tokens == other.max_tokens
        &&& self.n_predict == other.n_predict
        &&& self.temperature_bits == other.temperature_bits
        &&& self.top_p_bits == other.top_p_bits
        &&& self.top_k == other.top_k
        &&& self.min_p_bits == other.min_p_bits
        &&& self.repeat_penalty_bits == other.repeat_penalty_bits
        &&& self.repeat_last_n == other.repeat_last_n
        &&& self.presence_penalty_bits == other.presence_penalty_bits
        &&& self.frequency_penalty_bits == other.frequency_penalty_bits
        &&& self.mirostat_tau_bits == other.mirostat_tau_bits
        &&& self.stop@ == other.stop@
    }

    /// A copy of the parameters.
    pub fn duplicate(&self) -> (r: SlotParams)
        ensures
            r.same_as(self),
    {
        let stop = self.stop.clone();
        assert forall|i: int| 0 <= i < stop@.len() implies stop@[i] == self.stop@[i] by {
            assert(cloned::<String>(self.stop[i], stop[i]));
        }
        assert(stop@ =~= self.stop@);
        SlotParams {
            max_tokens: self.max_tokens,
            n_predict: self.n_predict,
            temperature_bits: self.temperature_bits,
            top_p_bits: self.top_p_bits,
            top_k: self.top_k,
            min_p_bits: self.min_p_bits,
            repeat_penalty_bits: self.repeat_penalty_bits,
            repeat_last_n: self.repeat_last_n,
            presence_penalty_bits: self.presence_penalty_bits,
            frequency_penalty_bits: self.frequency_penalty_bits,
            mirostat_tau_bits: self.mirostat_tau_bits,
            stop,
        }
    }
}

impl Default for SlotParams {
    fn default() -> (r: SlotParams)
        ensures
            r.is_empty(),
    {
        SlotParams {
            max_tokens: 0,
            n_predict: 0,
            temperature_bits: 0,
            top_p_bits: 0,
            top_k: 0,
            min_p_bits: 0,
            repeat_penalty_bits: 0,
            repeat_last_n: 0,
            presence_penalty_bits: 0,
            frequency_penalty_bits: 0,
            mirostat_tau_bits: 0,
            stop: Vec::new(),
        }
    }
}

/// Generation progress of a slot's current task.
pub struct NextTokenInfo {
    pub has_next_token: bool,
    pub n_remain: i64,
    pub n_decoded: u64,
}

/// One element of the `/slots` response.
pub struct SlotApiResponse {
    pub id: u32,
    pub speculative: Option<bool>,
    pub is_processing: bool,
    pub id_task: i64,
    pub n_prompt_tokens: u64,
    pub n_prompt_tokens_processed: u64,
    pub n_prompt_tokens_cache: u64,
    pub n_ctx: u64,
    pub params: Option<SlotParams>,
    pub next_token: Option<Vec<NextTokenInfo>>,
}

/// Flattened state of one slot at one poll.
pub struct SlotSnapshot {
    pub id: u32,
    pub is_processing: bool,
    pub id_task: i64,
    pub n_prompt_tokens: u64,
    pub n_prompt_tokens_processed: u64,
    pub n_prompt_tokens_cache: u64,
    pub n_decoded: u64,
    pub n_remain: i64,
    pub max_tokens: u64,
    pub n_ctx: u64,
    pub params: SlotParams,
}

/// The generation limit of a request: the larger of `max_tokens` and
/// `n_predict`, or 0 when that is negative or there are no parameters.
pub open spec fn spec_generation_limit(params: Option<SlotParams>) -> u64 {
    match params {
        None => 0,
        Some(p) => {
            let m = if p.max_tokens >= p.n_predict { p.max_tokens } else { p.n_predict };
            if m < 0 { 0 } else { m as u64 }
        },
    }
}

/// The first `next_token` record, if there is one.
pub open spec fn spec_first_token(next: Option<Vec<NextTokenInfo>>) -> Option<NextTokenInfo> {
    match next {
        Some(v) => if v@.len() > 0 { Some(v@[0]) } else { None },
        None => None,
    }
}

impl SlotApiResponse {
    /// Flattens the record: the generation limit from the parameters, the
    /// decoded count and remaining budget from the first `next_token` record
    /// (0 and -1 without one), and the parameters themselves (all zero when
    /// absent).
    pub fn to_snapshot(&self) -> (r: SlotSnapshot)
        ensures
            r.id == self.id,
            r.is_processing == self.is_processing,
            r.id_task == self.id_task,
            r.n_prompt_tokens == self.n_prompt_tokens,
            r.n_prompt_tokens_processed == self.n_prompt_tokens_processed,
            r.n_prompt_tokens_cache == self.n_prompt_tokens_cache,
            r.n_ctx == self.n_ctx,
            r.max_tokens == spec_generation_limit(self.params),
            r.n_decoded == (match spec_first_token(self.next_token) {
                Some(t) => t.n_decoded,
                None => 0,
            }),
            r.n_remain == (match spec_first_token(self.next_token) {
                Some(t) => t.n_remain,
                None => -1i64,
            }),
            match self.params {
                Some(p) => r.params.same_as(&p),
                None => r.params.is_empty(),
            },
    {
        let max_tokens: u64 = match &self.params {
            None => 0,
            Some(p) => {
                let m = if p.max_tokens >= p.n_predict { p.max_tokens } else { p.n_predict };
                if m < 0 { 0 } else { m as u64 }
            },
        };
        let (n_decoded, n_remain): (u64, i64) = match &self.next_token {
            Some(v) => if v.len() > 0 {
                (v[0].n_decoded, v[0].n_remain)
            } else {
                (0, -1)
            },
            None => (0, -1),
        };
        let params = match &self.params {
            Some(p) => p.duplicate(),
            None => SlotParams::default(),
        };
        SlotSnapshot {
            id: self.id,
            is_processing: self.is_processing,
            id_task: self.id_task,
            n_prompt_tokens: self.n_prompt_tokens,
            n_prompt_tokens_processed: self.n_prompt_tokens_processed,
            n_prompt_tokens_cache: self.n_prompt_tokens_cache,
            n_decoded,
            n_remain,
            max_tokens,
            n_ctx: self.n_ctx,
            params,
        }
    }
}

} // verus!
