//! Dashboard configuration: the settings, their defaults, and the pure parts
//! of loading them (path expansion, command-line overrides).

use vstd::prelude::*;
use crate::text::{chars_of, string_from_chars};

verus! {

/// Dashboard settings as stored in `~/.config/llama-hud/config.json`.
pub struct AppConfig {
    /// Base URL of the llama-server HTTP API.
    pub url: String,
    /// tmux session whose output is tailed for log lines, if any.
    pub tmux_session: Option<String>,
    /// Interval between `/slots` polls, in milliseconds.
    pub slots_poll_ms: u64,
    /// Interval between `/metrics` polls, in milliseconds.
    pub metrics_poll_ms: u64,
    /// Number of samples kept in each chart history.
    pub chart_history: usize,
    /// Name of the colour theme.
    pub theme: String,
}

/// Location of the configuration file.
pub const CONFIG_FILE: &'static str = "~/.config/llama-hud/config.json";

/// `"http://127.0.0.1:8080"`
pub open spec fn spec_default_url() -> Seq<char> {
    seq!['h', 't', 't', 'p', ':', '/', '/', '1', '2', '7', '.', '0', '.', '0', '.', '1', ':', '8', '0', '8', '0']
}

/// `"default"`
pub open spec fn spec_default_theme() -> Seq<char> {
    seq!['d', 'e', 'f', 'a', 'u', 'l', 't']
}

/// Default server URL.
pub fn default_url() -> (r: String)
    ensures
        r@ == spec_default_url(),
{
    proof {
        reveal_strlit("http://127.0.0.1:8080");
    }
    let r = String::from_str("http://127.0.0.1:8080");
    assert(r@ =~= spec_default_url());
    r
}

/// Default `/slots` poll interval: 500 ms.
pub fn default_slots_poll_ms() -> (r: u64)
    ensures
        r == 500,
{
    500
}

/// Default `/metrics` poll interval: 2000 ms.
pub fn default_metrics_poll_ms() -> (r: u64)
    ensures
        r == 2000,
{
    2000
}

/// Default chart history: 600 samples.
pub fn default_chart_history() -> (r: usize)
    ensures
        r == 600,
{
    600
}

/// Default theme name.
pub fn default_theme() -> (r: String)
    ensures
        r@ == spec_default_theme(),
{
    proof {
        reveal_strlit("default");
    }
    let r = String::from_str("default");
    assert(r@ =~= spec_default_theme());
    r
}

impl AppConfig {
    /// The settings used when no configuration file is present.
    pub open spec fn is_default(&self) -> bool {
        &&& self.url@ == spec_default_url()
        &&& self.tmux_session is None
        &&& self.slots_poll_ms == 500
        &&& self.metrics_poll_ms == 2000
        &&& self.chart_history == 600
        &&& self.theme@ == spec_default_theme()
    }

    /// A copy of the settings.
    pub fn duplicate(&self) -> (r: AppConfig)
        ensures
            r == *self,
    {
        AppConfig {
            url: self.url.clone(),
            tmux_session: match &self.tmux_session {
                Some(s) => Some(s.clone()),
                None => None,
            },
            slots_poll_ms: self.slots_poll_ms,
            metrics_poll_ms: self.metrics_poll_ms,
            chart_history: self.chart_history,
            theme: self.theme.clone(),
        }
    }

    /// The URL with every trailing `/` removed.
    pub fn base_url(&self) -> (r: &str)
        ensures
            r@ == trim_end_slashes(self.url@),
    {
        let s = self.url.as_str();
        let cs = chars_of(s);
        let mut end = cs.len();
        assert(s@.take(end as int) =~= s@);
        while end > 0 && cs[end - 1] == '/'
            invariant
                end <= cs.len(),
                cs@ == s@,
                trim_end_slashes(s@) == trim_end_slashes(s@.take(end as int)),
            decreases end,
        {
            assert(s@.take(end as int).drop_last() =~= s@.take(end - 1));
            end = end - 1;
        }
        assert(trim_end_slashes(s@.take(end as int)) == s@.take(end as int));
        assert(s@.take(end as int) =~= s@.subrange(0, end as int));
        s.substring_char(0, end)
    }
}

impl Default for AppConfig {
    fn default() -> (r: AppConfig)
        ensures
            r.is_default(),
    {
        AppConfig {
            url: default_url(),
            tmux_session: None,
            slots_poll_ms: default_slots_poll_ms(),
            metrics_poll_ms: default_metrics_poll_ms(),
            chart_history: default_chart_history(),
            theme: default_theme(),
        }
    }
}

/// `s` without its trailing `/` characters (`str::trim_end_matches('/')`).
pub open spec fn trim_end_slashes(s: Seq<char>) -> Seq<char>
    decreases s.len(),
{
    if s.len() > 0 && s.last() == '/' {
        trim_end_slashes(s.drop_last())
    } else {
        s
    }
}

/// Appending path `p` to `base` the way `PathBuf::push` does on Unix: an
/// absolute `p` replaces `base`; otherwise a `/` is put between them unless
/// `base` is empty or already ends with one.
pub open spec fn spec_push_path(base: Seq<char>, p: Seq<char>) -> Seq<char> {
    if p.len() > 0 && p[0] == '/' {
        p
    } else if base.len() == 0 || base.last() == '/' {
        base + p
    } else {
        base + seq!['/'] + p
    }
}

/// Expansion of a leading `~/` to the home directory, when one is known.
pub open spec fn spec_expand_tilde(path: Seq<char>, home: Option<Seq<char>>) -> Seq<char> {
    if path.len() >= 2 && path[0] == '~' && path[1] == '/' && home is Some {
        spec_push_path(home->0, path.skip(2))
    } else {
        path
    }
}

/// Expands a leading `~/` in `path` to `home` (the value of `$HOME`), joining
/// the two as `PathBuf::push` does. Other paths, or a missing home, leave
/// `path` unchanged.
pub fn expand_tilde(path: &str, home: Option<&str>) -> (r: String)
    ensures
        r@ == spec_expand_tilde(path@, match home {
            Some(h) => Some(h@),
            None => None,
        }),
{
    let p = chars_of(path);
    if p.len() >= 2 && p[0] == '~' && p[1] == '/' {
        if let Some(h) = home {
            let hc = chars_of(h);
            let mut out: Vec<char> = Vec::new();
            if !(p.len() > 2 && p[2] == '/') {
                let mut i: usize = 0;
                while i < hc.len()
                    invariant
                        i <= hc.len(),
                        out@ == hc@.take(i as int),
                    decreases hc.len() - i,
                {
                    out.push(hc[i]);
                    i = i + 1;
                    assert(out@ =~= hc@.take(i as int));
                }
                assert(hc@.take(hc.len() as int) =~= hc@);
                if hc.len() > 0 && hc[hc.len() - 1] != '/' {
                    out.push('/');
                }
            }
            let ghost prefix = out@;
            let mut j: usize = 2;
            while j < p.len()
                invariant
                    2 <= j <= p.len(),
                    out@ == prefix + p@.subrange(2, j as int),
                decreases p.len() - j,
            {
                out.push(p[j]);
                j = j + 1;
                assert(out@ =~= prefix + p@.subrange(2, j as int));
            }
            assert(p@.subrange(2, p.len() as int) =~= path@.skip(2));
            proof {
                let rest = path@.skip(2);
                if rest.len() > 0 && rest[0] == '/' {
                    assert(prefix =~= Seq::<char>::empty());
                    assert(out@ =~= rest);
                } else if hc@.len() == 0 || hc@.last() == '/' {
                    assert(out@ =~= hc@ + rest);
                } else {
                    assert(out@ =~= hc@ + seq!['/'] + rest);
                }
            }
            return string_from_chars(&out);
        }
    }
    String::from_str(path)
}

/// The loaded settings with the command-line overrides applied: a given URL
/// or tmux session replaces the stored one.
pub fn merge_config(loaded: AppConfig, url: Option<String>, tmux_session: Option<String>) -> (r:
    AppConfig)
    ensures
        r.url == (match url {
            Some(u) => u,
            None => loaded.url,
        }),
        r.tmux_session == (match tmux_session {
            Some(t) => Some(t),
            None => loaded.tmux_session,
        }),
        r.slots_poll_ms == loaded.slots_poll_ms,
        r.metrics_poll_ms == loaded.metrics_poll_ms,
        r.chart_history == loaded.chart_history,
        r.theme == loaded.theme,
{
    let mut cfg = loaded;
    if let Some(u) = url {
        cfg.url = u;
    }
    if let Some(t) = tmux_session {
        cfg.tmux_session = Some(t);
    }
    cfg
}

} // verus!
