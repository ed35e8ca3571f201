//! Log-line parser: detects prompt-processing progress lines and derives the
//! expected total prompt size from them.
//!
//! The recognised shape is
//! `prompt processing,` ws* `n_tokens` ws* `=` ws* digits `,` ws* `progress`
//! ws* `=` ws* (digits or `.`)+, searched for anywhere in the line (the
//! leftmost occurrence counts). "ws" is any Unicode `White_Space` character
//! and "digits" any Unicode decimal digit.

use vstd::prelude::*;
use crate::text::{
    all_ascii_digits, ascii_digit, chars_of, decimal_digit, digit_value, digits_value, is_ascii_digit,
    is_decimal_digit, is_white_space, parse_unsigned, parse_unsigned_chars, white_space,
};

verus! {

// ---------------------------------------------------------------- grammar

/// `"prompt processing,"`
pub open spec fn lit_prompt_processing() -> Seq<char> {
    seq!['p', 'r', 'o', 'm', 'p', 't', ' ', 'p', 'r', 'o', 'c', 'e', 's', 's', 'i', 'n', 'g', ',']
}

/// `"n_tokens"`
pub open spec fn lit_n_tokens() -> Seq<char> {
    seq!['n', '_', 't', 'o', 'k', 'e', 'n', 's']
}

/// `"progress"`
pub open spec fn lit_progress() -> Seq<char> {
    seq!['p', 'r', 'o', 'g', 'r', 'e', 's', 's']
}

/// `lit` occurs in `s` at position `i`.
pub open spec fn lit_at(s: Seq<char>, i: int, lit: Seq<char>) -> bool {
    0 <= i && i + lit.len() <= s.len() && s.subrange(i, i + lit.len()) == lit
}

/// `s[i] == c`.
pub open spec fn char_at(s: Seq<char>, i: int, c: char) -> bool {
    0 <= i < s.len() && s[i] == c
}

/// End of the run of white space that starts at `i`.
pub open spec fn ws_end(s: Seq<char>, i: int) -> int
    decreases s.len() - i,
{
    if 0 <= i < s.len() && is_white_space(s[i]) {
        ws_end(s, i + 1)
    } else {
        i
    }
}

/// End of the run of decimal digits that starts at `i`.
pub open spec fn digit_end(s: Seq<char>, i: int) -> int
    decreases s.len() - i,
{
    if 0 <= i < s.len() && is_decimal_digit(s[i]) {
        digit_end(s, i + 1)
    } else {
        i
    }
}

/// End of the run of decimal digits and `.` that starts at `i`.
pub open spec fn number_end(s: Seq<char>, i: int) -> int
    decreases s.len() - i,
{
    if 0 <= i < s.len() && (is_decimal_digit(s[i]) || s[i] == '.') {
        number_end(s, i + 1)
    } else {
        i
    }
}

/// The progress line matched at position `i`, as the spans of its two numbers:
/// the token count and the progress.
pub open spec fn match_at(s: Seq<char>, i: int) -> Option<(int, int, int, int)> {
    if !lit_at(s, i, lit_prompt_processing()) {
        None
    } else {
        let b = ws_end(s, i + 18);
        let c = ws_end(s, b + 8);
        let d = ws_end(s, c + 1);
        let e = digit_end(s, d);
        let f = ws_end(s, e + 1);
        let g = ws_end(s, f + 8);
        let h = ws_end(s, g + 1);
        let k = number_end(s, h);
        if lit_at(s, b, lit_n_tokens()) && char_at(s, c, '=') && d < e && char_at(s, e, ',')
            && lit_at(s, f, lit_progress()) && char_at(s, g, '=') && h < k {
            Some((d, e, h, k))
        } else {
            None
        }
    }
}

/// The leftmost match at or after position `i`.
pub open spec fn first_match(s: Seq<char>, i: int) -> Option<(int, int, int, int)>
    decreases s.len() + 1 - i,
{
    if i < 0 || i > s.len() {
        None
    } else {
        match match_at(s, i) {
            Some(m) => Some(m),
            None => first_match(s, i + 1),
        }
    }
}

// ------------------------------------------------------- decimal literals

/// Splits a decimal literal of the shape `Digit+ | Digit+ '.' Digit* |
/// Digit* '.' Digit+` (ASCII digits) into its integer and fractional digits;
/// `None` for any other text.
pub open spec fn decimal_literal(t: Seq<char>) -> Option<(Seq<char>, Seq<char>)> {
    if exists|p: int| 0 <= p < t.len() && t[p] == '.' {
        let p = choose|p: int| 0 <= p < t.len() && t[p] == '.';
        let ip = t.take(p);
        let fp = t.skip(p + 1);
        if all_ascii_digits(ip) && all_ascii_digits(fp) && ip.len() + fp.len() > 0 {
            Some((ip, fp))
        } else {
            None
        }
    } else if t.len() > 0 && all_ascii_digits(t) {
        Some((t, Seq::<char>::empty()))
    } else {
        None
    }
}

/// `10^k`
pub open spec fn pow10(k: nat) -> nat
    decreases k,
{
    if k == 0 {
        1
    } else {
        10 * pow10((k - 1) as nat)
    }
}

/// The expected total `n / p` for `n` processed tokens at progress
/// `p = ip.fp` (integer digits `ip`, fractional digits `fp`), rounded toward
/// zero and capped at `u64::MAX`; `None` unless `0 < p < 1`. The quotient is
/// taken on the exact decimal value of `p`.
pub open spec fn expected_total(n: nat, ip: Seq<char>, fp: Seq<char>) -> Option<u64> {
    if digits_value(ip) == 0 && digits_value(fp) > 0 {
        let q = n * pow10(fp.len()) / digits_value(fp);
        Some(if q > u64::MAX { u64::MAX } else { q as u64 })
    } else {
        None
    }
}

/// What `parse_prompt_expected_total` returns for a line.
pub open spec fn spec_prompt_expected_total(line: Seq<char>) -> Option<u64> {
    match first_match(line, 0) {
        None => None,
        Some((d, e, h, k)) => match parse_unsigned(line.subrange(d, e), u64::MAX as nat) {
            None => None,
            Some(n) => match decimal_literal(line.subrange(h, k)) {
                None => None,
                Some((ip, fp)) => expected_total(n, ip, fp),
            },
        },
    }
}

// ------------------------------------------------------------ scanning

fn ws_end_exec(s: &Vec<char>, i: usize) -> (r: usize)
    requires
        i <= s.len(),
    ensures
        r as int == ws_end(s@, i as int),
        i <= r <= s.len(),
{
    let mut j = i;
    while j < s.len() && white_space(s[j])
        invariant
            i <= j <= s.len(),
            ws_end(s@, i as int) == ws_end(s@, j as int),
        decreases s.len() - j,
    {
        j = j + 1;
    }
    j
}

fn digit_end_exec(s: &Vec<char>, i: usize) -> (r: usize)
    requires
        i <= s.len(),
    ensures
        r as int == digit_end(s@, i as int),
        i <= r <= s.len(),
{
    let mut j = i;
    while j < s.len() && decimal_digit(s[j])
        invariant
            i <= j <= s.len(),
            digit_end(s@, i as int) == digit_end(s@, j as int),
        decreases s.len() - j,
    {
        j = j + 1;
    }
    j
}

fn number_end_exec(s: &Vec<char>, i: usize) -> (r: usize)
    requires
        i <= s.len(),
    ensures
        r as int == number_end(s@, i as int),
        i <= r <= s.len(),
{
    let mut j = i;
    while j < s.len() && (decimal_digit(s[j]) || s[j] == '.')
        invariant
            i <= j <= s.len(),
            number_end(s@, i as int) == number_end(s@, j as int),
        decreases s.len() - j,
    {
        j = j + 1;
    }
    j
}

fn lit_at_exec(s: &Vec<char>, i: usize, lit: &str) -> (r: bool)
    ensures
        r == lit_at(s@, i as int, lit@),
{
    let n = lit.unicode_len();
    if i > s.len() || n > s.len() - i {
        return false;
    }
    let mut j: usize = 0;
    while j < n
        invariant
            n == lit@.len(),
            i + n <= s.len(),
            j <= n,
            forall|t: int| 0 <= t < j ==> s@[i + t] == lit@[t],
        decreases n - j,
    {
        if s[i + j] != lit.get_char(j) {
            assert(s@.subrange(i as int, i + n)[j as int] != lit@[j as int]);
            return false;
        }
        j = j + 1;
    }
    assert(s@.subrange(i as int, i + n) =~= lit@);
    true
}

fn char_at_exec(s: &Vec<char>, i: usize, c: char) -> (r: bool)
    ensures
        r == char_at(s@, i as int, c),
{
    i < s.len() && s[i] == c
}

fn match_at_exec(s: &Vec<char>, i: usize) -> (r: Option<(usize, usize, usize, usize)>)
    requires
        i <= s.len(),
    ensures
        match r {
            None => match_at(s@, i as int) is None,
            Some((d, e, h, k)) => match_at(s@, i as int) == Some((d as int, e as int, h as int, k as int)),
        },
        r matches Some((d, e, h, k)) ==> d <= e <= h <= k <= s.len(),
{
    proof {
        reveal_strlit("prompt processing,");
        reveal_strlit("n_tokens");
        reveal_strlit("progress");
        assert("prompt processing,"@ =~= lit_prompt_processing());
        assert("n_tokens"@ =~= lit_n_tokens());
        assert("progress"@ =~= lit_progress());
    }
    if !lit_at_exec(s, i, "prompt processing,") {
        return None;
    }
    let b = ws_end_exec(s, i + 18);
    if !lit_at_exec(s, b, "n_tokens") {
        return None;
    }
    let c = ws_end_exec(s, b + 8);
    if !char_at_exec(s, c, '=') {
        return None;
    }
    let d = ws_end_exec(s, c + 1);
    let e = digit_end_exec(s, d);
    if !(d < e && char_at_exec(s, e, ',')) {
        return None;
    }
    let f = ws_end_exec(s, e + 1);
    if !lit_at_exec(s, f, "progress") {
        return None;
    }
    let g = ws_end_exec(s, f + 8);
    if !char_at_exec(s, g, '=') {
        return None;
    }
    let h = ws_end_exec(s, g + 1);
    let k = number_end_exec(s, h);
    if h < k {
        Some((d, e, h, k))
    } else {
        None
    }
}

fn first_match_exec(s: &Vec<char>) -> (r: Option<(usize, usize, usize, usize)>)
    ensures
        match r {
            None => first_match(s@, 0) is None,
            Some((d, e, h, k)) => first_match(s@, 0) == Some((d as int, e as int, h as int, k as int)),
        },
        r matches Some((d, e, h, k)) ==> d <= e <= h <= k <= s.len(),
{
    let mut i: usize = 0;
    while i < s.len()
        invariant
            i <= s.len(),
            first_match(s@, 0) == first_match(s@, i as int),
        decreases s.len() - i,
    {
        let m = match_at_exec(s, i);
        if m.is_some() {
            return m;
        }
        i = i + 1;
    }
    assert(first_match(s@, s.len() + 1) is None);
    None
}
// ------------------------------------------------------ decimal arithmetic

pub(crate) fn slice_chars(s: &Vec<char>, from: usize, to: usize) -> (v: Vec<char>)
    requires
        from <= to <= s.len(),
    ensures
        v@ == s@.subrange(from as int, to as int),
{
    let mut v: Vec<char> = Vec::new();
    let mut i = from;
    while i < to
        invariant
            from <= i <= to <= s.len(),
            v@ == s@.subrange(from as int, i as int),
        decreases to - i,
    {
        v.push(s[i]);
        i = i + 1;
        assert(v@ =~= s@.subrange(from as int, i as int));
    }
    v
}

pub(crate) fn all_ascii_digits_exec(v: &Vec<char>) -> (r: bool)
    ensures
        r == all_ascii_digits(v@),
{
    let mut i: usize = 0;
    while i < v.len()
        invariant
            i <= v.len(),
            forall|j: int| 0 <= j < i ==> is_ascii_digit(#[trigger] v@[j]),
        decreases v.len() - i,
    {
        if !ascii_digit(v[i]) {
            return false;
        }
        i = i + 1;
    }
    true
}

pub(crate) fn decimal_literal_exec(t: &Vec<char>) -> (r: Option<(Vec<char>, Vec<char>)>)
    ensures
        match decimal_literal(t@) {
            None => r is None,
            Some((ip, fp)) => r matches Some((a, b)) && a@ == ip && b@ == fp,
        },
{
    let mut i: usize = 0;
    while i < t.len() && t[i] != '.'
        invariant
            i <= t.len(),
            forall|j: int| 0 <= j < i ==> t@[j] != '.',
        decreases t.len() - i,
    {
        i = i + 1;
    }
    if i == t.len() {
        if t.len() > 0 && all_ascii_digits_exec(t) {
            return Some((slice_chars(t, 0, t.len()), Vec::new()));
        }
        return None;
    }
    let ip = slice_chars(t, 0, i);
    let fp = slice_chars(t, i + 1, t.len());
    proof {
        let p = choose|p: int| 0 <= p < t@.len() && t@[p] == '.';
        if p != i {
            assert(p > i);
            assert(t@.take(p)[i as int] == '.');
            assert(!all_ascii_digits(t@.take(p)));
            assert(fp@[p - i - 1] == '.');
            assert(!all_ascii_digits(fp@));
        } else {
            assert(t@.take(p) =~= ip@);
            assert(t@.skip(p + 1) =~= fp@);
        }
    }
    if all_ascii_digits_exec(&ip) && all_ascii_digits_exec(&fp) && ip.len() + fp.len() > 0 {
        Some((ip, fp))
    } else {
        None
    }
}

proof fn lemma_digits_value_zero(s: Seq<char>)
    requires
        all_ascii_digits(s),
    ensures
        (digits_value(s) == 0) == (forall|i: int| 0 <= i < s.len() ==> digit_value(#[trigger] s[i])
            == 0),
    decreases s.len(),
{
    if s.len() > 0 {
        let t = s.drop_last();
        assert forall|i: int| 0 <= i < t.len() implies is_ascii_digit(#[trigger] t[i]) by {
            assert(t[i] == s[i]);
        }
        lemma_digits_value_zero(t);
        if digits_value(s) == 0 {
            assert forall|i: int| 0 <= i < s.len() implies digit_value(#[trigger] s[i]) == 0 by {
                if i < s.len() - 1 {
                    assert(t[i] == s[i]);
                }
            }
        }
        if forall|i: int| 0 <= i < s.len() ==> digit_value(#[trigger] s[i]) == 0 {
            assert forall|i: int| 0 <= i < t.len() implies digit_value(#[trigger] t[i]) == 0 by {
                assert(t[i] == s[i]);
            }
            assert(digit_value(s[s.len() - 1]) == 0);
        }
    }
}

fn is_zero_exec(v: &Vec<char>) -> (r: bool)
    requires
        all_ascii_digits(v@),
    ensures
        r == (digits_value(v@) == 0),
{
    proof {
        lemma_digits_value_zero(v@);
    }
    let mut i: usize = 0;
    while i < v.len()
        invariant
            i <= v.len(),
            all_ascii_digits(v@),
            forall|j: int| 0 <= j < i ==> digit_value(#[trigger] v@[j]) == 0,
        decreases v.len() - i,
    {
        let c = v[i];
        assert(is_ascii_digit(v@[i as int]));
        if c as u32 != 48 {
            assert(digit_value(v@[i as int]) != 0);
            proof {
                lemma_digits_value_zero(v@);
            }
            return false;
        }
        i = i + 1;
    }
    proof {
        lemma_digits_value_zero(v@);
    }
    true
}

proof fn lemma_prepend_digit(s: Seq<char>, i: int)
    requires
        0 < i <= s.len(),
    ensures
        digits_value(s.skip(i - 1)) == digit_value(s[i - 1]) * pow10((s.len() - i) as nat)
            + digits_value(s.skip(i)),
    decreases s.len() - i,
{
    let a = s.skip(i - 1);
    let b = s.skip(i);
    if i == s.len() {
        assert(a.drop_last() =~= Seq::<char>::empty());
        assert(a.last() == s[i - 1]);
        assert(digits_value(a) == digits_value(a.drop_last()) * 10 + digit_value(a.last()));
        assert(b =~= Seq::<char>::empty());
        assert(digits_value(b) == 0);
        assert(pow10(0) == 1);
        assert(digits_value(a) == digit_value(s[i - 1]));
        assert(digit_value(s[i - 1]) * pow10(0) == digit_value(s[i - 1]));
    } else {
        lemma_prepend_digit(s.drop_last(), i);
        assert(a.drop_last() =~= s.drop_last().skip(i - 1));
        assert(b.drop_last() =~= s.drop_last().skip(i));
        assert(a.last() == s.last());
        assert(b.last() == s.last());
        let dv = digit_value(s[i - 1]);
        let p = pow10((s.len() - 1 - i) as nat);
        let v = digits_value(s.drop_last().skip(i));
        assert(s.drop_last()[i - 1] == s[i - 1]);
        assert(pow10((s.len() - i) as nat) == 10 * p);
        assert(digits_value(a) == digits_value(a.drop_last()) * 10 + digit_value(a.last()));
        assert(digits_value(b) == digits_value(b.drop_last()) * 10 + digit_value(b.last()));
        assert((dv * p + v) * 10 + digit_value(s.last()) == dv * (10 * p) + (v * 10 + digit_value(
            s.last()
        ))) by (nonlinear_arith);
        assert(digits_value(a) == (dv * p + v) * 10 + digit_value(s.last()));
        assert(digits_value(b) == v * 10 + digit_value(s.last()));
    }
}

/// `q * value(fp) <= n * 10^len(fp)`
pub open spec fn scaled_le(q: nat, n: nat, fp: Seq<char>) -> bool {
    q * digits_value(fp) <= n * pow10(fp.len())
}

proof fn lemma_pow10_positive(k: nat)
    ensures
        pow10(k) > 0,
    decreases k,
{
    if k > 0 {
        lemma_pow10_positive((k - 1) as nat);
    }
}

fn scaled_le_exec(q: u64, n: u64, fp: &Vec<char>) -> (r: bool)
    requires
        all_ascii_digits(fp@),
    ensures
        r == scaled_le(q as nat, n as nat, fp@),
{
    let len = fp.len();
    let mut i = len;
    let mut carry: u128 = 0;
    let mut zero = true;
    let ghost mut low: nat = 0;
    assert(fp@.skip(len as int) =~= Seq::<char>::empty());
    assert(digits_value(fp@.skip(len as int)) == 0);
    assert(pow10(0) == 1);
    while i > 0
        invariant
            i <= len == fp.len(),
            all_ascii_digits(fp@),
            carry <= q,
            low < pow10((len - i) as nat),
            carry as nat * pow10((len - i) as nat) + low == q as nat * digits_value(fp@.skip(i as int)),
            zero == (low == 0),
        decreases i,
    {
        let c = fp[i - 1];
        assert(is_ascii_digit(fp@[i - 1]));
        let cv = c as u32;
        assert(48 <= cv <= 57);
        let dv = (cv - 48) as u128;
        assert(dv == digit_value(fp@[i - 1]));
        assert((q as u128) * dv <= 9 * (u64::MAX as u128)) by (nonlinear_arith)
            requires
                dv <= 9,
                q <= u64::MAX,
        ;
        let t = (q as u128) * dv + carry;
        let ghost pw = pow10((len - i) as nat);
        let ghost v = digits_value(fp@.skip(i as int));
        proof {
            lemma_prepend_digit(fp@, i as int);
            lemma_pow10_positive((len - i) as nat);
            assert(pow10((len - i + 1) as nat) == 10 * pw);
            assert(t / 10 <= q) by (nonlinear_arith)
                requires
                    t == q * dv + carry,
                    dv <= 9,
                    carry <= q,
            ;
            assert((t / 10) * (10 * pw) + (t % 10) * pw + low == q * (dv * pw + v))
                by (nonlinear_arith)
                requires
                    t == q * dv + carry,
                    carry * pw + low == q * v,
            ;
            assert((t % 10) * pw + low < 10 * pw) by (nonlinear_arith)
                requires
                    low < pw,
                    pw > 0,
            ;
            assert(((t % 10) * pw + low == 0) == (t % 10 == 0 && low == 0)) by (nonlinear_arith)
                requires
                    pw > 0,
            ;
            low = (t % 10) as nat * pw + low;
        }
        zero = zero && t % 10 == 0;
        carry = t / 10;
        i = i - 1;
    }
    let ghost pw = pow10(len as nat);
    assert(fp@.skip(0) =~= fp@);
    proof {
        lemma_pow10_positive(len as nat);
        assert((q * digits_value(fp@) <= n * pw) == (carry < n || (carry == n && low == 0)))
            by (nonlinear_arith)
            requires
                carry * pw + low == q * digits_value(fp@),
                low < pw,
        ;
    }
    carry < n as u128 || (carry == n as u128 && zero)
}

fn capped_quotient_exec(n: u64, fp: &Vec<char>) -> (r: u64)
    requires
        all_ascii_digits(fp@),
        digits_value(fp@) > 0,
    ensures
        ({
            let q = (n as nat) * pow10(fp@.len()) / digits_value(fp@);
            r == (if q > u64::MAX { u64::MAX } else { q as u64 })
        }),
{
    let ghost big: nat = (n as nat) * pow10(fp@.len());
    let ghost v = digits_value(fp@);
    if scaled_le_exec(u64::MAX, n, fp) {
        assert(big / v >= u64::MAX) by (nonlinear_arith)
            requires
                u64::MAX * v <= big,
                v > 0,
        ;
        return u64::MAX;
    }
    let mut lo: u64 = 0;
    let mut hi: u64 = u64::MAX;
    assert(scaled_le(0, n as nat, fp@));
    while hi - lo > 1
        invariant
            lo < hi,
            all_ascii_digits(fp@),
            scaled_le(lo as nat, n as nat, fp@),
            !scaled_le(hi as nat, n as nat, fp@),
        decreases hi - lo,
    {
        let mid = lo + (hi - lo) / 2;
        if scaled_le_exec(mid, n, fp) {
            lo = mid;
        } else {
            hi = mid;
        }
    }
    assert(big / v == lo) by (nonlinear_arith)
        requires
            lo * v <= big,
            (lo + 1) * v > big,
            v > 0,
    ;
    lo
}

/// If the line reports prompt-processing progress, the expected total number
/// of prompt tokens: `n_tokens / progress`, rounded toward zero. `None` when
/// the line has no such report, a number does not parse, or the progress is
/// not strictly between 0 and 1.
pub fn parse_prompt_expected_total(line: &str) -> (r: Option<u64>)
    ensures
        r == spec_prompt_expected_total(line@),
{
    let s = chars_of(line);
    match first_match_exec(&s) {
        None => None,
        Some((d, e, h, k)) => {
            let tokens = slice_chars(&s, d, e);
            assert(tokens@.skip(0) =~= tokens@);
            match parse_unsigned_chars(&tokens, 0, u64::MAX) {
                None => None,
                Some(n) => {
                    let progress = slice_chars(&s, h, k);
                    match decimal_literal_exec(&progress) {
                        None => None,
                        Some((ip, fp)) => {
                            if !is_zero_exec(&ip) || is_zero_exec(&fp) {
                                None
                            } else {
                                Some(capped_quotient_exec(n, &fp))
                            }
                        },
                    }
                },
            }
        },
    }
}

} // verus!
