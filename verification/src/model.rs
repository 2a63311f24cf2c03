//! The mathematical model: windows over an instant axis, per-window event
//! counts, window tilings, and the aggregation formulas the executable code
//! is proved against.
//!
//! An instant is an absolute point in time, counted as signed 64-bit
//! nanoseconds since the UTC epoch.

use vstd::prelude::*;

verus! {

/// A window is the half-open interval `[lo, lo + dur)`; an instant `t`
/// belongs to it when `lo <= t < lo + dur`.
pub open spec fn in_window(t: int, lo: int, dur: int) -> bool {
    lo <= t && t < lo + dur
}

/// How many elements of `s` fall inside the window `[lo, lo + dur)`.
pub open spec fn count_in_window(s: Seq<i64>, lo: int, dur: int) -> int
    decreases s.len(),
{
    if s.len() == 0 {
        0
    } else {
        count_in_window(s.drop_last(), lo, dur) + if in_window(s.last() as int, lo, dur) {
            1int
        } else {
            0int
        }
    }
}

/// The start of the `k`-th window of a tiling that begins at `lo`.
pub open spec fn window_start(lo: int, dur: int, k: int) -> int {
    lo + k * dur
}

/// The number of windows of width `dur` needed to tile `[lo, hi]`: windows
/// are laid down from `lo` until one begins past `hi`. An empty span
/// (`lo > hi`) needs no window.
pub open spec fn num_windows(lo: int, hi: int, dur: int) -> int
    decreases hi - lo when dur > 0
{
    if lo > hi {
        0
    } else if lo + dur > hi {
        1
    } else {
        1 + num_windows(lo + dur, hi, dur)
    }
}

/// The least element of a non-empty sequence.
pub open spec fn seq_min(s: Seq<i64>) -> int
    recommends
        s.len() > 0,
    decreases s.len(),
{
    if s.len() <= 1 {
        s[0] as int
    } else if s.last() as int <= seq_min(s.drop_last()) {
        s.last() as int
    } else {
        seq_min(s.drop_last())
    }
}

/// The greatest element of a non-empty sequence.
pub open spec fn seq_max(s: Seq<i64>) -> int
    recommends
        s.len() > 0,
    decreases s.len(),
{
    if s.len() <= 1 {
        s[0] as int
    } else if s.last() as int >= seq_max(s.drop_last()) {
        s.last() as int
    } else {
        seq_max(s.drop_last())
    }
}

/// Sum of the first `k` elements of a count sequence.
pub open spec fn sum_to(s: Seq<usize>, k: int) -> int
    recommends
        k <= s.len(),
    decreases k,
{
    if k <= 0 {
        0
    } else {
        sum_to(s, k - 1) + s[k - 1]
    }
}

/// Sum, over the first `n` windows of the tiling that begins at `lo`, of the
/// number of elements of `s` falling in each window.
pub open spec fn sum_counts(s: Seq<i64>, lo: int, dur: int, n: int) -> int
    decreases n,
{
    if n <= 0 {
        0
    } else {
        sum_counts(s, lo, dur, n - 1) + count_in_window(s, window_start(lo, dur, n - 1), dur)
    }
}

/// In how many of the first `n` windows of the tiling that begins at `lo`
/// the instant `t` lies. Windows are disjoint, so this is 0 or 1; the
/// coverage law makes that precise.
pub open spec fn hits(t: int, lo: int, dur: int, n: int) -> int
    decreases n,
{
    if n <= 0 {
        0
    } else {
        hits(t, lo, dur, n - 1) + if in_window(t, window_start(lo, dur, n - 1), dur) {
            1int
        } else {
            0int
        }
    }
}

/// The total number of (element, window) incidences between the elements of
/// `s` and the first `n` windows of the tiling that begins at `lo`.
pub open spec fn total_hits(s: Seq<i64>, lo: int, dur: int, n: int) -> int
    decreases s.len(),
{
    if s.len() == 0 {
        0
    } else {
        total_hits(s.drop_last(), lo, dur, n) + hits(s.last() as int, lo, dur, n)
    }
}

/// The net delta of the `k`-th window: opened minus closed within it.
pub open spec fn window_delta(starts: Seq<i64>, ends: Seq<i64>, lo: int, dur: int, k: int) -> int {
    count_in_window(starts, window_start(lo, dur, k), dur) - count_in_window(
        ends,
        window_start(lo, dur, k),
        dur,
    )
}

/// The running net-open count just before the `k`-th window's delta is
/// applied: the sum of the deltas of windows `0 .. k`.
pub open spec fn cumulative(starts: Seq<i64>, ends: Seq<i64>, lo: int, dur: int, k: int) -> int {
    sum_counts(starts, lo, dur, k) - sum_counts(ends, lo, dur, k)
}

/// The Unicode code point of `c`, with every character whose lower-case
/// form is a single ASCII letter folded to that letter: the ASCII
/// upper-case letters A–Z, and the Kelvin sign (code point 8490), whose
/// lower-case form is `k`. No other code point's lower-case form is a
/// single character in the ASCII range.
pub open spec fn fold_char(c: char) -> u32 {
    let v = c as u32;
    if 65 <= v && v <= 90 {
        (v + 32) as u32
    } else if v == 8490 {
        107
    } else {
        v
    }
}

/// Case-insensitive (ASCII folding) equality of two character sequences.
pub open spec fn matches_code(s: Seq<char>, code: Seq<char>) -> bool {
    s.len() == code.len() && forall|i: int|
        0 <= i < s.len() ==> fold_char(s[i]) == fold_char(code[i])
}

/// Whether `s` is one of the recognized codes for a minutes resolution.
pub open spec fn is_minutes_code(s: Seq<char>) -> bool {
    matches_code(s, "m"@) || matches_code(s, "min"@) || matches_code(s, "minute"@) || matches_code(
        s,
        "minutes"@,
    )
}

/// Whether `s` is one of the recognized codes for an hours resolution.
pub open spec fn is_hours_code(s: Seq<char>) -> bool {
    matches_code(s, "h"@) || matches_code(s, "hour"@) || matches_code(s, "hours"@)
}

/// Whether `s` is one of the recognized codes for a days resolution.
pub open spec fn is_days_code(s: Seq<char>) -> bool {
    matches_code(s, "d"@) || matches_code(s, "day"@) || matches_code(s, "days"@)
}

/// Whether `s` is one of the recognized codes for a weeks resolution.
pub open spec fn is_weeks_code(s: Seq<char>) -> bool {
    matches_code(s, "w"@) || matches_code(s, "week"@) || matches_code(s, "weeks"@)
}

/// The seconds part of a nanosecond instant, rounded toward minus infinity.
pub open spec fn secs_of(ns: int) -> int {
    ns / 1_000_000_000
}

/// The subsecond part of a nanosecond instant, always in `[0, 10^9)`.
pub open spec fn subsec_of(ns: int) -> int {
    ns % 1_000_000_000
}

} // verus!
