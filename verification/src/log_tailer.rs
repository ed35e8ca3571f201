//! Picking the new lines out of successive captures of a terminal pane.
//!
//! Each capture holds the pane's whole visible text. The lines not seen yet
//! are found by locating, in the new capture, the last three lines sent from
//! the previous one.

use vstd::prelude::*;
use crate::text::{chars_of, split_lines, split_lines_exec, string_from_chars, trim_range, trim_ws};

verus! {

/// The lines of a capture, each trimmed of white space.
pub open spec fn capture_lines(s: Seq<char>) -> Seq<Seq<char>> {
    split_lines(s).map_values(|l: Seq<char>| trim_ws(l))
}

/// First position at or after `i` where the three lines `needle` occur in
/// `all`.
pub open spec fn window_index(all: Seq<Seq<char>>, needle: Seq<Seq<char>>, i: int) -> Option<int>
    decreases all.len() - i,
{
    if i < 0 || i + 3 > all.len() {
        None
    } else if all.subrange(i, i + 3) == needle {
        Some(i)
    } else {
        window_index(all, needle, i + 1)
    }
}

/// Nine tenths of `n`, rounded down (with `n * 9` saturating).
pub open spec fn nine_tenths(n: nat) -> int {
    let m: int = if n * 9 > usize::MAX { usize::MAX as int } else { (n * 9) as int };
    m / 10
}

/// Where the new lines of a capture start: just after the first occurrence of
/// the last three lines sent before; without those, at nine tenths of the
/// capture.
pub open spec fn resume_index(all: Seq<Seq<char>>, last: Seq<Seq<char>>) -> int {
    if last.len() >= 3 {
        match window_index(all, last.skip(last.len() - 3), 0) {
            Some(i) => i + 3,
            None => nine_tenths(all.len()),
        }
    } else {
        nine_tenths(all.len())
    }
}

/// The non-empty lines of `s`, in order.
pub open spec fn non_empty(s: Seq<Seq<char>>) -> Seq<Seq<char>>
    decreases s.len(),
{
    if s.len() == 0 {
        s
    } else if s.last().len() > 0 {
        non_empty(s.drop_last()).push(s.last())
    } else {
        non_empty(s.drop_last())
    }
}

/// Lines to send for a capture and the lines to remember for the next one,
/// given the lines remembered from the previous capture. An empty capture
/// sends nothing and keeps the remembered lines.
pub open spec fn spec_process_capture(last: Seq<Seq<char>>, output: Seq<char>) -> (
    Seq<Seq<char>>,
    Seq<Seq<char>>,
) {
    let all = capture_lines(output);
    if all.len() == 0 {
        (Seq::empty(), last)
    } else {
        let start = resume_index(all, last);
        let keep_from: int = if all.len() > 10 { all.len() - 10 } else { 0 };
        (non_empty(all.skip(start)), all.skip(keep_from))
    }
}

fn split_capture(s: &Vec<char>) -> (r: Vec<Vec<char>>)
    ensures
        r@.map_values(|l: Vec<char>| l@) == capture_lines(s@),
{
    let lines = split_lines_exec(s);
    let ghost lv = lines@.map_values(|l: Vec<char>| l@);
    let mut out: Vec<Vec<char>> = Vec::new();
    let mut i: usize = 0;
    while i < lines.len()
        invariant
            i <= lines.len(),
            lv == lines@.map_values(|l: Vec<char>| l@),
            lv == split_lines(s@),
            out@.map_values(|l: Vec<char>| l@) == lv.take(i as int).map_values(|l: Seq<char>| trim_ws(l)),
        decreases lines.len() - i,
    {
        let l = trim_range(&lines[i], 0, lines[i].len());
        assert(lines@[i as int]@.subrange(0, lines@[i as int]@.len() as int) =~= lines@[i as int]@);
        let ghost before = out@;
        out.push(l);
        assert(lv[i as int] == lines@[i as int]@);
        assert(out@.map_values(|l: Vec<char>| l@) =~= before.map_values(|l: Vec<char>| l@).push(l@));
        assert(lv.take(i + 1).map_values(|l: Seq<char>| trim_ws(l)) =~= lv.take(i as int).map_values(
            |l: Seq<char>| trim_ws(l),
        ).push(trim_ws(lv[i as int])));
        i = i + 1;
    }
    assert(lv.take(lines.len() as int) =~= lv);
    out
}

fn chars_eq(a: &Vec<char>, b: &Vec<char>) -> (r: bool)
    ensures
        r == (a@ == b@),
{
    if a.len() != b.len() {
        return false;
    }
    let mut i: usize = 0;
    while i < a.len()
        invariant
            i <= a.len() == b.len(),
            forall|j: int| 0 <= j < i ==> a@[j] == b@[j],
        decreases a.len() - i,
    {
        if a[i] != b[i] {
            assert(a@[i as int] != b@[i as int]);
            return false;
        }
        i = i + 1;
    }
    assert(a@ =~= b@);
    true
}

fn find_window(all: &Vec<Vec<char>>, needle: &Vec<Vec<char>>) -> (r: Option<usize>)
    requires
        needle.len() == 3,
    ensures
        ({
            let av = all@.map_values(|l: Vec<char>| l@);
            let nv = needle@.map_values(|l: Vec<char>| l@);
            match r {
                Some(i) => i + 3 <= all.len() && window_index(av, nv, 0) == Some(i as int),
                None => window_index(av, nv, 0) is None,
            }
        }),
{
    let ghost av = all@.map_values(|l: Vec<char>| l@);
    let ghost nv = needle@.map_values(|l: Vec<char>| l@);
    let mut i: usize = 0;
    while i < all.len() && all.len() - i >= 3
        invariant
            needle.len() == 3,
            av == all@.map_values(|l: Vec<char>| l@),
            nv == needle@.map_values(|l: Vec<char>| l@),
            i <= all.len(),
            window_index(av, nv, 0) == window_index(av, nv, i as int),
        decreases all.len() - i,
    {
        let hit = chars_eq(&all[i], &needle[0]) && chars_eq(&all[i + 1], &needle[1]) && chars_eq(
            &all[i + 2],
            &needle[2],
        );
        proof {
            if hit {
                assert(av.subrange(i as int, i + 3) =~= nv);
            } else {
                if av.subrange(i as int, i + 3) == nv {
                    assert(av.subrange(i as int, i + 3)[0] == nv[0]);
                    assert(av.subrange(i as int, i + 3)[1] == nv[1]);
                    assert(av.subrange(i as int, i + 3)[2] == nv[2]);
                }
            }
        }
        if hit {
            return Some(i);
        }
        i = i + 1;
    }
    None
}

fn to_strings(all: &Vec<Vec<char>>, from: usize, skip_empty: bool) -> (r: Vec<String>)
    requires
        from <= all.len(),
    ensures
        ({
            let part = all@.map_values(|l: Vec<char>| l@).skip(from as int);
            r@.map_values(|l: String| l@) == (if skip_empty { non_empty(part) } else { part })
        }),
{
    let ghost av = all@.map_values(|l: Vec<char>| l@);
    let mut out: Vec<String> = Vec::new();
    let mut j = from;
    assert(av.subrange(from as int, from as int) =~= Seq::<Seq<char>>::empty());
    while j < all.len()
        invariant
            from <= j <= all.len(),
            av == all@.map_values(|l: Vec<char>| l@),
            out@.map_values(|l: String| l@) == (if skip_empty {
                non_empty(av.subrange(from as int, j as int))
            } else {
                av.subrange(from as int, j as int)
            }),
        decreases all.len() - j,
    {
        let ghost before = out@;
        let ghost seg = av.subrange(from as int, j + 1);
        assert(seg.drop_last() =~= av.subrange(from as int, j as int));
        assert(seg.last() == all@[j as int]@);
        if !skip_empty || all[j].len() > 0 {
            let s = string_from_chars(&all[j]);
            out.push(s);
            assert(out@.map_values(|l: String| l@) =~= before.map_values(|l: String| l@).push(
                all@[j as int]@,
            ));
        }
        j = j + 1;
        proof {
            if !skip_empty {
                assert(av.subrange(from as int, j as int) =~= av.subrange(from as int, j - 1).push(
                    all@[j - 1]@,
                ));
            }
        }
    }
    assert(av.subrange(from as int, all.len() as int) =~= av.skip(from as int));
    out
}

/// Processes one capture of the pane (see `spec_process_capture`): returns
/// the lines to send and the lines to remember.
pub fn process_capture(last_lines: Vec<String>, output: &str) -> (r: (Vec<String>, Vec<String>))
    ensures
        ({
            let (send, keep) = spec_process_capture(
                last_lines@.map_values(|l: String| l@),
                output@,
            );
            &&& r.0@.map_values(|l: String| l@) == send
            &&& r.1@.map_values(|l: String| l@) == keep
        }),
{
    let chars = chars_of(output);
    let all = split_capture(&chars);
    let ghost av = all@.map_values(|l: Vec<char>| l@);
    let ghost lv = last_lines@.map_values(|l: String| l@);
    if all.len() == 0 {
        let none: Vec<String> = Vec::new();
        assert(none@.map_values(|l: String| l@) =~= Seq::<Seq<char>>::empty());
        return (none, last_lines);
    }
    let n = all.len();
    let scaled = if n > usize::MAX / 9 { usize::MAX } else { n * 9 };
    proof {
        assert((n > usize::MAX / 9) == (n * 9 > usize::MAX)) by (nonlinear_arith);
    }
    let fallback = scaled / 10;
    let start = if last_lines.len() >= 3 {
        let m = last_lines.len();
        let mut needle: Vec<Vec<char>> = Vec::new();
        needle.push(chars_of(last_lines[m - 3].as_str()));
        needle.push(chars_of(last_lines[m - 2].as_str()));
        needle.push(chars_of(last_lines[m - 1].as_str()));
        assert(needle@.map_values(|l: Vec<char>| l@) =~= lv.skip(m - 3));
        match find_window(&all, &needle) {
            Some(i) => i + 3,
            None => fallback,
        }
    } else {
        fallback
    };
    assert(start <= n) by (nonlinear_arith)
        requires
            start == fallback || start <= n,
            fallback == scaled / 10,
            scaled <= n * 9,
    ;
    let keep_from = if n > 10 { n - 10 } else { 0 };
    let send = to_strings(&all, start, true);
    let keep = to_strings(&all, keep_from, false);
    (send, keep)
}

} // verus!
