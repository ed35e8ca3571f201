//! Decisions of the background tasks: the message shown when a `/slots`
//! request fails, and which tasks a change of settings restarts.

use vstd::prelude::*;
use crate::config::AppConfig;
use crate::text::{chars_of, push_char};

verus! {

/// How a `/slots` request failed.
pub enum PollFailure {
    /// The server answered with a status that is not a success; the status
    /// as text (such as `503 Service Unavailable`).
    Status(String),
    /// The answer was not a list of slots; the decoder's message.
    BadBody(String),
    /// No connection could be made.
    Connect,
    /// No answer came in time.
    Timeout,
    /// Any other transport failure; its message.
    Transport(String),
}

/// The message shown for a failed `/slots` request.
pub open spec fn spec_poll_error_message(f: PollFailure) -> Seq<char> {
    match f {
        PollFailure::Status(s) => "Server returned "@ + s@,
        PollFailure::BadBody(s) => "Bad response from /slots: "@ + s@,
        PollFailure::Connect => "Connection refused — is llama-server running?"@,
        PollFailure::Timeout => "Request timed out"@,
        PollFailure::Transport(s) => "Cannot reach server: "@ + s@,
    }
}

/// `prefix` followed by `detail`.
fn join(prefix: &str, detail: &str) -> (r: String)
    ensures
        r@ == prefix@ + detail@,
{
    let mut r = String::from_str(prefix);
    let ds = chars_of(detail);
    let mut i: usize = 0;
    while i < ds.len()
        invariant
            i <= ds.len(),
            ds@ == detail@,
            r@ == prefix@ + ds@.take(i as int),
        decreases ds.len() - i,
    {
        push_char(&mut r, ds[i]);
        assert(ds@.take(i + 1) =~= ds@.take(i as int).push(ds@[i as int]));
        i = i + 1;
    }
    assert(ds@.take(ds.len() as int) =~= ds@);
    r
}

/// The message shown for a failed `/slots` request (see
/// `spec_poll_error_message`).
pub fn poll_error_message(f: PollFailure) -> (r: String)
    ensures
        r@ == spec_poll_error_message(f),
{
    match f {
        PollFailure::Status(s) => join("Server returned ", s.as_str()),
        PollFailure::BadBody(s) => join("Bad response from /slots: ", s.as_str()),
        PollFailure::Connect => String::from_str("Connection refused — is llama-server running?"),
        PollFailure::Timeout => String::from_str("Request timed out"),
        PollFailure::Transport(s) => join("Cannot reach server: ", s.as_str()),
    }
}

/// The text of an optional string.
pub open spec fn opt_text(o: Option<String>) -> Option<Seq<char>> {
    match o {
        Some(s) => Some(s@),
        None => None,
    }
}

/// The settings the running background tasks were started with.
pub struct PollerSettings {
    pub slots_poll_ms: u64,
    pub metrics_poll_ms: u64,
    pub tmux_session: Option<String>,
}

/// Which background tasks to restart.
#[derive(Clone, Copy, Debug, PartialEq, Eq, Structural)]
pub struct Restarts {
    /// The `/slots` and `/metrics` pollers (their intervals changed).
    pub pollers: bool,
    /// The log tailer (the tmux session changed).
    pub tailer: bool,
}

fn same_text(a: &Option<String>, b: &Option<String>) -> (r: bool)
    ensures
        r == (opt_text(*a) == opt_text(*b)),
{
    match (a, b) {
        (Some(x), Some(y)) => x.eq(y),
        (None, None) => true,
        _ => false,
    }
}

impl PollerSettings {
    /// The settings of `cfg` that the background tasks use.
    pub fn from_config(cfg: &AppConfig) -> (r: PollerSettings)
        ensures
            r.slots_poll_ms == cfg.slots_poll_ms,
            r.metrics_poll_ms == cfg.metrics_poll_ms,
            opt_text(r.tmux_session) == opt_text(cfg.tmux_session),
    {
        PollerSettings {
            slots_poll_ms: cfg.slots_poll_ms,
            metrics_poll_ms: cfg.metrics_poll_ms,
            tmux_session: match &cfg.tmux_session {
                Some(s) => Some(s.clone()),
                None => None,
            },
        }
    }

    /// Takes over the settings of `cfg` and says which tasks must restart:
    /// both pollers when either interval changed, the tailer when the tmux
    /// session changed.
    pub fn update(&mut self, cfg: &AppConfig) -> (r: Restarts)
        ensures
            r.pollers == (cfg.slots_poll_ms != old(self).slots_poll_ms || cfg.metrics_poll_ms
                != old(self).metrics_poll_ms),
            r.tailer == (opt_text(cfg.tmux_session) != opt_text(old(self).tmux_session)),
            final(self).slots_poll_ms == cfg.slots_poll_ms,
            final(self).metrics_poll_ms == cfg.metrics_poll_ms,
            opt_text(final(self).tmux_session) == opt_text(cfg.tmux_session),
    {
        let pollers = cfg.slots_poll_ms != self.slots_poll_ms || cfg.metrics_poll_ms
            != self.metrics_poll_ms;
        let tailer = !same_text(&cfg.tmux_session, &self.tmux_session);
        *self = PollerSettings::from_config(cfg);
        Restarts { pollers, tailer }
    }
}

} // verus!
