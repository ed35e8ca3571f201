//! Server-wide statistics read from the Prometheus `/metrics` endpoint.
//!
//! Rates are carried as IEEE-754 bit patterns (`f64::to_bits`); the library
//! stores them in the chart histories without computing on them.

use vstd::prelude::*;
use crate::parser::{all_ascii_digits_exec, decimal_literal, decimal_literal_exec, slice_chars};
use crate::text::{
    all_ascii_digits, chars_of, is_white_space, split_lines, split_lines_exec, string_from_chars,
    white_space,
};

verus! {

/// One reading of the server's Prometheus metrics.
#[derive(Clone, Copy)]
pub struct PrometheusMetrics {
    /// Prompt tokens per second, as `f64` bits.
    pub prompt_tps_bits: u64,
    /// Generated tokens per second, as `f64` bits.
    pub predicted_tps_bits: u64,
    pub prompt_tokens_total: u64,
    pub predicted_tokens_total: u64,
    pub n_decode_total: u64,
    pub n_tokens_max: u64,
    pub requests_processing: u64,
    pub requests_deferred: u64,
    /// Average busy slots per decode, as `f64` bits.
    pub n_busy_slots_per_decode_bits: u64,
}

// ------------------------------------------------------- exposition text

/// Index of `llamacpp:prompt_tokens_total` in a metric scan.
pub const PROMPT_TOKENS_TOTAL: usize = 0;
/// Index of `llamacpp:prompt_seconds_total` in a metric scan.
pub const PROMPT_SECONDS_TOTAL: usize = 1;
/// Index of `llamacpp:tokens_predicted_total` in a metric scan.
pub const TOKENS_PREDICTED_TOTAL: usize = 2;
/// Index of `llamacpp:tokens_predicted_seconds_total` in a metric scan.
pub const TOKENS_PREDICTED_SECONDS_TOTAL: usize = 3;
/// Index of `llamacpp:prompt_tokens_seconds` in a metric scan.
pub const PROMPT_TOKENS_SECONDS: usize = 4;
/// Index of `llamacpp:predicted_tokens_seconds` in a metric scan.
pub const PREDICTED_TOKENS_SECONDS: usize = 5;
/// Index of `llamacpp:n_decode_total` in a metric scan.
pub const N_DECODE_TOTAL: usize = 6;
/// Index of `llamacpp:n_tokens_max` in a metric scan.
pub const N_TOKENS_MAX: usize = 7;
/// Index of `llamacpp:requests_processing` in a metric scan.
pub const REQUESTS_PROCESSING: usize = 8;
/// Index of `llamacpp:requests_deferred` in a metric scan.
pub const REQUESTS_DEFERRED: usize = 9;
/// Index of `llamacpp:n_busy_slots_per_decode` in a metric scan.
pub const N_BUSY_SLOTS_PER_DECODE: usize = 10;

/// Number of metrics a scan reports.
pub const METRIC_COUNT: usize = 11;

/// Names of the metrics a scan reports, by index.
pub open spec fn metric_names() -> Seq<Seq<char>> {
    seq![
        seq!['l', 'l', 'a', 'm', 'a', 'c', 'p', 'p', ':', 'p', 'r', 'o', 'm', 'p', 't', '_', 't', 'o', 'k', 'e', 'n', 's', '_', 't', 'o', 't', 'a', 'l'],
        seq!['l', 'l', 'a', 'm', 'a', 'c', 'p', 'p', ':', 'p', 'r', 'o', 'm', 'p', 't', '_', 's', 'e', 'c', 'o', 'n', 'd', 's', '_', 't', 'o', 't', 'a', 'l'],
        seq!['l', 'l', 'a', 'm', 'a', 'c', 'p', 'p', ':', 't', 'o', 'k', 'e', 'n', 's', '_', 'p', 'r', 'e', 'd', 'i', 'c', 't', 'e', 'd', '_', 't', 'o', 't', 'a', 'l'],
        seq!['l', 'l', 'a', 'm', 'a', 'c', 'p', 'p', ':', 't', 'o', 'k', 'e', 'n', 's', '_', 'p', 'r', 'e', 'd', 'i', 'c', 't', 'e', 'd', '_', 's', 'e', 'c', 'o', 'n', 'd', 's', '_', 't', 'o', 't', 'a', 'l'],
        seq!['l', 'l', 'a', 'm', 'a', 'c', 'p', 'p', ':', 'p', 'r', 'o', 'm', 'p', 't', '_', 't', 'o', 'k', 'e', 'n', 's', '_', 's', 'e', 'c', 'o', 'n', 'd', 's'],
        seq!['l', 'l', 'a', 'm', 'a', 'c', 'p', 'p', ':', 'p', 'r', 'e', 'd', 'i', 'c', 't', 'e', 'd', '_', 't', 'o', 'k', 'e', 'n', 's', '_', 's', 'e', 'c', 'o', 'n', 'd', 's'],
        seq!['l', 'l', 'a', 'm', 'a', 'c', 'p', 'p', ':', 'n', '_', 'd', 'e', 'c', 'o', 'd', 'e', '_', 't', 'o', 't', 'a', 'l'],
        seq!['l', 'l', 'a', 'm', 'a', 'c', 'p', 'p', ':', 'n', '_', 't', 'o', 'k', 'e', 'n', 's', '_', 'm', 'a', 'x'],
        seq!['l', 'l', 'a', 'm', 'a', 'c', 'p', 'p', ':', 'r', 'e', 'q', 'u', 'e', 's', 't', 's', '_', 'p', 'r', 'o', 'c', 'e', 's', 's', 'i', 'n', 'g'],
        seq!['l', 'l', 'a', 'm', 'a', 'c', 'p', 'p', ':', 'r', 'e', 'q', 'u', 'e', 's', 't', 's', '_', 'd', 'e', 'f', 'e', 'r', 'r', 'e', 'd'],
        seq!['l', 'l', 'a', 'm', 'a', 'c', 'p', 'p', ':', 'n', '_', 'b', 'u', 's', 'y', '_', 's', 'l', 'o', 't', 's', '_', 'p', 'e', 'r', '_', 'd', 'e', 'c', 'o', 'd', 'e'],
    ]
}

/// Complete words of `s` so far and the word being read.
pub open spec fn word_scan(s: Seq<char>) -> (Seq<Seq<char>>, Seq<char>)
    decreases s.len(),
{
    if s.len() == 0 {
        (Seq::empty(), Seq::empty())
    } else {
        let (done, cur) = word_scan(s.drop_last());
        if is_white_space(s.last()) {
            if cur.len() > 0 {
                (done.push(cur), Seq::empty())
            } else {
                (done, cur)
            }
        } else {
            (done, cur.push(s.last()))
        }
    }
}

/// The white-space separated words of `s` (`str::split_whitespace`).
pub open spec fn split_words(s: Seq<char>) -> Seq<Seq<char>> {
    let (done, cur) = word_scan(s);
    if cur.len() > 0 {
        done.push(cur)
    } else {
        done
    }
}

/// Code of `c` with ASCII upper case mapped to lower case.
pub open spec fn lower_code(c: char) -> u32 {
    let v = c as u32;
    if 65 <= v <= 90 {
        (v + 32) as u32
    } else {
        v
    }
}

/// `s` equals the lower-case ASCII word `w`, ignoring ASCII case.
pub open spec fn eq_ignore_case(s: Seq<char>, w: Seq<char>) -> bool {
    s.len() == w.len() && forall|i: int| 0 <= i < s.len() ==> lower_code(#[trigger] s[i]) == w[i] as u32
}

/// `s` without one leading `+` or `-`.
pub open spec fn strip_sign(s: Seq<char>) -> Seq<char> {
    if s.len() > 0 && (s[0] == '+' || s[0] == '-') {
        s.drop_first()
    } else {
        s
    }
}

/// Position of the first `e` or `E` at or after `i`.
pub open spec fn exp_marker(s: Seq<char>, i: int) -> Option<int>
    decreases s.len() - i,
{
    if i < 0 || i >= s.len() {
        None
    } else if s[i] == 'e' || s[i] == 'E' {
        Some(i)
    } else {
        exp_marker(s, i + 1)
    }
}

/// Text `str::parse::<f64>` accepts: an optional sign, then `inf`,
/// `infinity` or `nan` in any case, or a decimal literal (see
/// `decimal_literal`) with an optional exponent `e` (or `E`), optional sign,
/// one or more ASCII digits.
pub open spec fn is_float_literal(s: Seq<char>) -> bool {
    let b = strip_sign(s);
    ||| eq_ignore_case(b, seq!['i', 'n', 'f'])
    ||| eq_ignore_case(b, seq!['i', 'n', 'f', 'i', 'n', 'i', 't', 'y'])
    ||| eq_ignore_case(b, seq!['n', 'a', 'n'])
    ||| match exp_marker(b, 0) {
        Some(p) => decimal_literal(b.take(p)) is Some && {
            let e = strip_sign(b.skip(p + 1));
            e.len() > 0 && all_ascii_digits(e)
        },
        None => decimal_literal(b) is Some,
    }
}

/// The sample a line carries: a line that does not start with `#` and holds
/// exactly two words, the second a number, gives (name, value text).
pub open spec fn line_sample(l: Seq<char>) -> Option<(Seq<char>, Seq<char>)> {
    if l.len() > 0 && l[0] == '#' {
        None
    } else {
        let w = split_words(l);
        if w.len() == 2 && is_float_literal(w[1]) {
            Some((w[0], w[1]))
        } else {
            None
        }
    }
}

/// Value text of the last sample named `name` among the lines.
pub open spec fn last_value(lines: Seq<Seq<char>>, name: Seq<char>) -> Option<Seq<char>>
    decreases lines.len(),
{
    if lines.len() == 0 {
        None
    } else {
        match line_sample(lines.last()) {
            Some((n, v)) => if n == name {
                Some(v)
            } else {
                last_value(lines.drop_last(), name)
            },
            None => last_value(lines.drop_last(), name),
        }
    }
}

/// The text of an optional string.
pub open spec fn opt_view(o: Option<String>) -> Option<Seq<char>> {
    match o {
        Some(s) => Some(s@),
        None => None,
    }
}

fn metric_name(k: usize) -> (r: &'static str)
    requires
        k < METRIC_COUNT,
    ensures
        r@ == metric_names()[k as int],
{
    proof {
        reveal_strlit("llamacpp:prompt_tokens_total");
        reveal_strlit("llamacpp:prompt_seconds_total");
        reveal_strlit("llamacpp:tokens_predicted_total");
        reveal_strlit("llamacpp:tokens_predicted_seconds_total");
        reveal_strlit("llamacpp:prompt_tokens_seconds");
        reveal_strlit("llamacpp:predicted_tokens_seconds");
        reveal_strlit("llamacpp:n_decode_total");
        reveal_strlit("llamacpp:n_tokens_max");
        reveal_strlit("llamacpp:requests_processing");
        reveal_strlit("llamacpp:requests_deferred");
        reveal_strlit("llamacpp:n_busy_slots_per_decode");
    }
    match k {
        0 => {
            assert("llamacpp:prompt_tokens_total"@ =~= metric_names()[0]);
            "llamacpp:prompt_tokens_total"
        },
        1 => {
            assert("llamacpp:prompt_seconds_total"@ =~= metric_names()[1]);
            "llamacpp:prompt_seconds_total"
        },
        2 => {
            assert("llamacpp:tokens_predicted_total"@ =~= metric_names()[2]);
            "llamacpp:tokens_predicted_total"
        },
        3 => {
            assert("llamacpp:tokens_predicted_seconds_total"@ =~= metric_names()[3]);
            "llamacpp:tokens_predicted_seconds_total"
        },
        4 => {
            assert("llamacpp:prompt_tokens_seconds"@ =~= metric_names()[4]);
            "llamacpp:prompt_tokens_seconds"
        },
        5 => {
            assert("llamacpp:predicted_tokens_seconds"@ =~= metric_names()[5]);
            "llamacpp:predicted_tokens_seconds"
        },
        6 => {
            assert("llamacpp:n_decode_total"@ =~= metric_names()[6]);
            "llamacpp:n_decode_total"
        },
        7 => {
            assert("llamacpp:n_tokens_max"@ =~= metric_names()[7]);
            "llamacpp:n_tokens_max"
        },
        8 => {
            assert("llamacpp:requests_processing"@ =~= metric_names()[8]);
            "llamacpp:requests_processing"
        },
        9 => {
            assert("llamacpp:requests_deferred"@ =~= metric_names()[9]);
            "llamacpp:requests_deferred"
        },
        _ => {
            assert("llamacpp:n_busy_slots_per_decode"@ =~= metric_names()[10]);
            "llamacpp:n_busy_slots_per_decode"
        },
    }
}

proof fn lemma_metric_names_distinct()
    ensures
        forall|i: int, j: int|
            0 <= i < METRIC_COUNT && 0 <= j < METRIC_COUNT && i != j ==> metric_names()[i]
                != metric_names()[j],
{
    assert(metric_names()[0][9] != metric_names()[8][9]);
}

fn split_words_exec(s: &Vec<char>) -> (r: Vec<Vec<char>>)
    ensures
        r@.map_values(|l: Vec<char>| l@) == split_words(s@),
{
    let mut out: Vec<Vec<char>> = Vec::new();
    let mut cur: Vec<char> = Vec::new();
    let mut i: usize = 0;
    assert(s@.take(0) =~= Seq::<char>::empty());
    while i < s.len()
        invariant
            i <= s.len(),
            word_scan(s@.take(i as int)).0 == out@.map_values(|l: Vec<char>| l@),
            word_scan(s@.take(i as int)).1 == cur@,
        decreases s.len() - i,
    {
        proof {
            assert(s@.take(i + 1).drop_last() =~= s@.take(i as int));
            assert(s@.take(i + 1).last() == s@[i as int]);
        }
        if white_space(s[i]) {
            if cur.len() > 0 {
                let ghost before = out@;
                let mut w: Vec<char> = Vec::new();
                std::mem::swap(&mut w, &mut cur);
                out.push(w);
                assert(out@.map_values(|l: Vec<char>| l@) =~= before.map_values(|l: Vec<char>| l@).push(
                    w@,
                ));
                assert(cur@ =~= Seq::<char>::empty());
            }
        } else {
            cur.push(s[i]);
        }
        i = i + 1;
    }
    assert(s@.take(s.len() as int) =~= s@);
    if cur.len() > 0 {
        let ghost before = out@;
        out.push(cur);
        assert(out@.map_values(|l: Vec<char>| l@) =~= before.map_values(|l: Vec<char>| l@).push(
            word_scan(s@).1,
        ));
    }
    out
}

fn eq_ignore_case_exec(s: &Vec<char>, from: usize, w: &str) -> (r: bool)
    requires
        from <= s.len(),
    ensures
        r == eq_ignore_case(s@.skip(from as int), w@),
{
    let n = w.unicode_len();
    if s.len() - from != n {
        return false;
    }
    let ghost t = s@.skip(from as int);
    let mut i: usize = 0;
    while i < n
        invariant
            n == w@.len() == s.len() - from,
            t == s@.skip(from as int),
            i <= n,
            forall|j: int| 0 <= j < i ==> lower_code(#[trigger] t[j]) == w@[j] as u32,
        decreases n - i,
    {
        let v = s[from + i] as u32;
        let lv = if 65 <= v && v <= 90 { v + 32 } else { v };
        assert(t[i as int] == s@[from + i]);
        if lv != w.get_char(i) as u32 {
            return false;
        }
        i = i + 1;
    }
    true
}

fn float_literal_exec(s: &Vec<char>) -> (r: bool)
    ensures
        r == is_float_literal(s@),
{
    let from: usize = if s.len() > 0 && (s[0] == '+' || s[0] == '-') { 1 } else { 0 };
    let ghost b = strip_sign(s@);
    assert(b =~= s@.skip(from as int));
    proof {
        reveal_strlit("inf");
        reveal_strlit("infinity");
        reveal_strlit("nan");
        assert("inf"@ =~= seq!['i', 'n', 'f']);
        assert("infinity"@ =~= seq!['i', 'n', 'f', 'i', 'n', 'i', 't', 'y']);
        assert("nan"@ =~= seq!['n', 'a', 'n']);
    }
    if eq_ignore_case_exec(s, from, "inf") || eq_ignore_case_exec(s, from, "infinity")
        || eq_ignore_case_exec(s, from, "nan") {
        return true;
    }
    let mut p = from;
    while p < s.len() && !(s[p] == 'e' || s[p] == 'E')
        invariant
            from <= p <= s.len(),
            b == s@.skip(from as int),
            exp_marker(b, 0) == exp_marker(b, p - from),
        decreases s.len() - p,
    {
        p = p + 1;
    }
    if p == s.len() {
        let body = slice_chars(s, from, s.len());
        assert(body@ =~= b);
        decimal_literal_exec(&body).is_some()
    } else {
        let mant = slice_chars(s, from, p);
        assert(mant@ =~= b.take(p - from));
        let e_from: usize = if p + 1 < s.len() && (s[p + 1] == '+' || s[p + 1] == '-') {
            p + 2
        } else {
            p + 1
        };
        let e = slice_chars(s, e_from, s.len());
        assert(e@ =~= strip_sign(b.skip(p - from + 1)));
        decimal_literal_exec(&mant).is_some() && e.len() > 0 && all_ascii_digits_exec(&e)
    }
}

fn line_sample_exec(l: &Vec<char>) -> (r: Option<(Vec<char>, Vec<char>)>)
    ensures
        match r {
            Some((n, v)) => line_sample(l@) == Some((n@, v@)),
            None => line_sample(l@) is None,
        },
{
    if l.len() > 0 && l[0] == '#' {
        return None;
    }
    let mut words = split_words_exec(l);
    let ghost wv = split_words(l@);
    if words.len() == 2 && float_literal_exec(&words[1]) {
        assert(words@[1]@ == wv[1]);
        let v = words.pop().unwrap();
        let n = words.pop().unwrap();
        assert(n@ == wv[0]);
        Some((n, v))
    } else {
        proof {
            if wv.len() == 2 {
                assert(words@[1]@ == wv[1]);
            }
        }
        None
    }
}

/// For each metric of `metric_names`, the value text of its last sample in
/// a Prometheus exposition body (comment lines and lines that are not a
/// name and a number are skipped).
pub fn scan_metrics(body: &str) -> (r: Vec<Option<String>>)
    ensures
        r.len() == METRIC_COUNT,
        forall|k: int|
            0 <= k < METRIC_COUNT ==> opt_view(#[trigger] r@[k]) == last_value(
                split_lines(body@),
                metric_names()[k],
            ),
{
    let chars = chars_of(body);
    let lines = split_lines_exec(&chars);
    let ghost lv = lines@.map_values(|l: Vec<char>| l@);
    let mut vals: Vec<Option<String>> = Vec::new();
    while vals.len() < METRIC_COUNT
        invariant
            vals.len() <= METRIC_COUNT,
            forall|k: int| 0 <= k < vals.len() ==> (#[trigger] vals@[k]) is None,
        decreases METRIC_COUNT - vals.len(),
    {
        vals.push(None);
    }
    let mut i: usize = 0;
    assert(lv.take(0) =~= Seq::<Seq<char>>::empty());
    while i < lines.len()
        invariant
            i <= lines.len(),
            lv == lines@.map_values(|l: Vec<char>| l@),
            lv == split_lines(chars@),
            vals.len() == METRIC_COUNT,
            forall|k: int|
                0 <= k < METRIC_COUNT ==> opt_view(#[trigger] vals@[k]) == last_value(
                    lv.take(i as int),
                    metric_names()[k],
                ),
        decreases lines.len() - i,
    {
        proof {
            assert(lv.take(i + 1).drop_last() =~= lv.take(i as int));
            assert(lv.take(i + 1).last() == lines@[i as int]@);
        }
        let ghost before = vals@;
        match line_sample_exec(&lines[i]) {
            Some((name, value)) => {
                let mut k: usize = 0;
                while k < METRIC_COUNT && !chars_eq_str(&name, metric_name(k))
                    invariant
                        k <= METRIC_COUNT,
                        vals.len() == METRIC_COUNT,
                        vals@ == before,
                        forall|j: int| 0 <= j < k ==> name@ != metric_names()[j],
                    decreases METRIC_COUNT - k,
                {
                    k = k + 1;
                }
                proof {
                    lemma_metric_names_distinct();
                }
                if k < METRIC_COUNT {
                    let s = string_from_chars(&value);
                    vals.remove(k);
                    vals.insert(k, Some(s));
                }
                proof {
                    assert forall|j: int| 0 <= j < METRIC_COUNT implies opt_view(#[trigger] vals@[j])
                        == last_value(lv.take(i + 1), metric_names()[j]) by {
                        if j != k {
                            assert(vals@[j] == before[j]);
                        }
                    }
                }
            },
            None => {},
        }
        i = i + 1;
    }
    assert(lv.take(lines.len() as int) =~= lv);
    vals
}

fn chars_eq_str(a: &Vec<char>, b: &str) -> (r: bool)
    ensures
        r == (a@ == b@),
{
    let n = b.unicode_len();
    if a.len() != n {
        return false;
    }
    let mut i: usize = 0;
    while i < n
        invariant
            n == b@.len() == a.len(),
            i <= n,
            forall|j: int| 0 <= j < i ==> a@[j] == b@[j],
        decreases n - i,
    {
        if a[i] != b.get_char(i) {
            return false;
        }
        i = i + 1;
    }
    assert(a@ =~= b@);
    true
}

} // verus!
