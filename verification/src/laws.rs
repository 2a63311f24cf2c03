//! General laws of the model, stated and proved once: the tiling covers the
//! span with disjoint windows, every covered instant is counted exactly
//! once, and the two aggregation modes agree with the event totals.

use vstd::prelude::*;

use crate::burndown::Resolution;
use crate::model::{
    count_in_window, cumulative, fold_char, hits, in_window, matches_code, num_windows, seq_max,
    seq_min, sum_counts, sum_to, total_hits, window_delta, window_start,
};

verus! {

/// Sequences whose first characters fold apart cannot match.
proof fn lemma_differ_at_zero(a: Seq<char>, b: Seq<char>)
    requires
        a.len() > 0,
        b.len() > 0,
        fold_char(a[0]) != fold_char(b[0]),
    ensures
        !matches_code(a, b),
{
}

/// Resolution parsing round-trip: each of the thirteen recognized aliases
/// denotes the unit its alias set belongs to.
pub proof fn lemma_resolution_aliases()
    ensures
        Resolution::spec_parse("m"@) == Some(Resolution::Minutes),
        Resolution::spec_parse("min"@) == Some(Resolution::Minutes),
        Resolution::spec_parse("minute"@) == Some(Resolution::Minutes),
        Resolution::spec_parse("minutes"@) == Some(Resolution::Minutes),
        Resolution::spec_parse("h"@) == Some(Resolution::Hours),
        Resolution::spec_parse("hour"@) == Some(Resolution::Hours),
        Resolution::spec_parse("hours"@) == Some(Resolution::Hours),
        Resolution::spec_parse("d"@) == Some(Resolution::Days),
        Resolution::spec_parse("day"@) == Some(Resolution::Days),
        Resolution::spec_parse("days"@) == Some(Resolution::Days),
        Resolution::spec_parse("w"@) == Some(Resolution::Weeks),
        Resolution::spec_parse("week"@) == Some(Resolution::Weeks),
        Resolution::spec_parse("weeks"@) == Some(Resolution::Weeks),
{
    reveal_strlit("m");
    reveal_strlit("min");
    reveal_strlit("minute");
    reveal_strlit("minutes");
    reveal_strlit("h");
    reveal_strlit("hour");
    reveal_strlit("hours");
    reveal_strlit("d");
    reveal_strlit("day");
    reveal_strlit("days");
    reveal_strlit("w");
    reveal_strlit("week");
    reveal_strlit("weeks");
    lemma_differ_at_zero("h"@, "m"@);
    lemma_differ_at_zero("d"@, "m"@);
    lemma_differ_at_zero("d"@, "h"@);
    lemma_differ_at_zero("day"@, "min"@);
    lemma_differ_at_zero("days"@, "hour"@);
    lemma_differ_at_zero("w"@, "m"@);
    lemma_differ_at_zero("w"@, "h"@);
    lemma_differ_at_zero("w"@, "d"@);
    lemma_differ_at_zero("week"@, "hour"@);
    lemma_differ_at_zero("week"@, "days"@);
    lemma_differ_at_zero("weeks"@, "hours"@);
}

/// Boundary tie-break: an instant exactly on a window's upper bound lies in
/// the following window, never the one it bounds.
pub proof fn lemma_boundary_tie_break(lo: int, dur: int, t: int)
    requires
        dur > 0,
        t == lo + dur,
    ensures
        !in_window(t, lo, dur),
        in_window(t, lo + dur, dur),
{
}

/// Monotonic tiling: each window starts exactly one duration after the one
/// before it, so window starts are strictly increasing.
pub proof fn lemma_monotonic_tiling(lo: int, dur: int, k: int)
    requires
        dur > 0,
    ensures
        window_start(lo, dur, k + 1) == window_start(lo, dur, k) + dur,
        window_start(lo, dur, k) < window_start(lo, dur, k + 1),
{
    assert((k + 1) * dur == k * dur + dur) by (nonlinear_arith);
}

/// The least element really is a lower bound.
pub proof fn lemma_seq_min_le(s: Seq<i64>, i: int)
    requires
        0 <= i < s.len(),
    ensures
        seq_min(s) <= s[i],
    decreases s.len(),
{
    if s.len() > 1 && i < s.len() - 1 {
        lemma_seq_min_le(s.drop_last(), i);
    }
}

/// The greatest element really is an upper bound.
pub proof fn lemma_seq_max_ge(s: Seq<i64>, i: int)
    requires
        0 <= i < s.len(),
    ensures
        s[i] <= seq_max(s),
    decreases s.len(),
{
    if s.len() > 1 && i < s.len() - 1 {
        lemma_seq_max_ge(s.drop_last(), i);
    }
}

/// Partial sums of counts are nonnegative.
pub proof fn lemma_sum_to_nonneg(s: Seq<usize>, i: int)
    requires
        i <= s.len(),
    ensures
        sum_to(s, i) >= 0,
    decreases i,
{
    if i > 0 {
        lemma_sum_to_nonneg(s, i - 1);
    }
}

/// Partial sums of counts grow with the index.
pub proof fn lemma_sum_to_mono(s: Seq<usize>, i: int, j: int)
    requires
        0 <= i <= j <= s.len(),
    ensures
        sum_to(s, i) <= sum_to(s, j),
    decreases j - i,
{
    if i < j {
        lemma_sum_to_mono(s, i, j - 1);
    }
}

/// An instant lies in one of the first `n` windows exactly when it lies in
/// the half-open span they tile.
pub proof fn lemma_hits_bounds(t: int, lo: int, dur: int, n: int)
    requires
        dur > 0,
        0 <= n,
    ensures
        hits(t, lo, dur, n) == if lo <= t && t < lo + n * dur {
            1int
        } else {
            0int
        },
    decreases n,
{
    if n == 0 {
        assert(0 * dur == 0) by (nonlinear_arith);
    } else {
        lemma_hits_bounds(t, lo, dur, n - 1);
        assert((n - 1) * dur + dur == n * dur) by (nonlinear_arith);
        assert((n - 1) * dur >= 0) by (nonlinear_arith)
            requires
                n >= 1 && dur > 0,
        ;
    }
}

proof fn lemma_sum_counts_zero(s: Seq<i64>, lo: int, dur: int, n: int)
    requires
        s.len() == 0,
    ensures
        sum_counts(s, lo, dur, n) == 0,
    decreases n,
{
    if n > 0 {
        lemma_sum_counts_zero(s, lo, dur, n - 1);
    }
}

proof fn lemma_sum_counts_drop_last(s: Seq<i64>, lo: int, dur: int, n: int)
    requires
        s.len() > 0,
        0 <= n,
    ensures
        sum_counts(s, lo, dur, n) == sum_counts(s.drop_last(), lo, dur, n) + hits(
            s.last() as int,
            lo,
            dur,
            n,
        ),
    decreases n,
{
    if n > 0 {
        lemma_sum_counts_drop_last(s, lo, dur, n - 1);
    }
}

/// Summing the per-window counts over the windows is the same as summing,
/// over the elements, in how many windows each lies.
pub proof fn lemma_sum_counts_as_hits(s: Seq<i64>, lo: int, dur: int, n: int)
    requires
        0 <= n,
    ensures
        sum_counts(s, lo, dur, n) == total_hits(s, lo, dur, n),
    decreases s.len(),
{
    if s.len() == 0 {
        lemma_sum_counts_zero(s, lo, dur, n);
    } else {
        lemma_sum_counts_as_hits(s.drop_last(), lo, dur, n);
        lemma_sum_counts_drop_last(s, lo, dur, n);
    }
}

proof fn lemma_total_hits_le(s: Seq<i64>, lo: int, dur: int, n: int)
    requires
        dur > 0,
        0 <= n,
    ensures
        0 <= total_hits(s, lo, dur, n) <= s.len(),
    decreases s.len(),
{
    if s.len() > 0 {
        lemma_total_hits_le(s.drop_last(), lo, dur, n);
        lemma_hits_bounds(s.last() as int, lo, dur, n);
    }
}

proof fn lemma_total_hits_full(s: Seq<i64>, lo: int, dur: int, n: int)
    requires
        dur > 0,
        0 <= n,
        forall|i: int| 0 <= i < s.len() ==> lo <= s[i] && s[i] < lo + n * dur,
    ensures
        total_hits(s, lo, dur, n) == s.len(),
    decreases s.len(),
{
    if s.len() > 0 {
        assert(forall|i: int|
            0 <= i < s.drop_last().len() ==> lo <= s.drop_last()[i] && s.drop_last()[i] < lo + n
                * dur);
        lemma_total_hits_full(s.drop_last(), lo, dur, n);
        lemma_hits_bounds(s.last() as int, lo, dur, n);
    }
}

/// No double counting: over any tiling, the per-window counts add up to at
/// most the number of elements.
pub proof fn lemma_sum_counts_le_len(s: Seq<i64>, lo: int, dur: int, n: int)
    requires
        dur > 0,
        0 <= n,
    ensures
        0 <= sum_counts(s, lo, dur, n) <= s.len(),
{
    lemma_sum_counts_as_hits(s, lo, dur, n);
    lemma_total_hits_le(s, lo, dur, n);
}

/// Coverage, in count form: when every element lies in the span tiled by the
/// first `n` windows, the per-window counts add up to exactly the number of
/// elements — nothing is dropped and nothing is counted twice.
pub proof fn lemma_sum_counts_full(s: Seq<i64>, lo: int, dur: int, n: int)
    requires
        dur > 0,
        0 <= n,
        forall|i: int| 0 <= i < s.len() ==> lo <= s[i] && s[i] < lo + n * dur,
    ensures
        sum_counts(s, lo, dur, n) == s.len(),
{
    lemma_sum_counts_as_hits(s, lo, dur, n);
    lemma_total_hits_full(s, lo, dur, n);
}

/// The tiling of `[lo, hi]` begins at `lo`, its last window begins at or
/// before `hi`, and it reaches past `hi`.
pub proof fn lemma_num_windows_spans(lo: int, hi: int, dur: int)
    requires
        dur > 0,
        lo <= hi,
    ensures
        num_windows(lo, hi, dur) >= 1,
        window_start(lo, dur, num_windows(lo, hi, dur) - 1) <= hi,
        hi < window_start(lo, dur, num_windows(lo, hi, dur)),
    decreases hi - lo,
{
    if lo + dur > hi {
        assert(0 * dur == 0) by (nonlinear_arith);
        assert(1 * dur == dur) by (nonlinear_arith);
    } else {
        lemma_num_windows_spans(lo + dur, hi, dur);
        let m = num_windows(lo + dur, hi, dur);
        assert(dur + (m - 1) * dur == m * dur) by (nonlinear_arith);
        assert(dur + m * dur == (m + 1) * dur) by (nonlinear_arith);
    }
}

proof fn lemma_exists_window(t: int, lo: int, dur: int, n: int)
    requires
        dur > 0,
        0 <= n,
        lo <= t && t < lo + n * dur,
    ensures
        exists|k: int| 0 <= k < n && in_window(t, window_start(lo, dur, k), dur),
    decreases n,
{
    if n == 0 {
        assert(0 * dur == 0) by (nonlinear_arith);
    } else {
        assert((n - 1) * dur + dur == n * dur) by (nonlinear_arith);
        if in_window(t, window_start(lo, dur, n - 1), dur) {
            assert(0 <= n - 1 < n && in_window(t, window_start(lo, dur, n - 1), dur));
        } else {
            lemma_exists_window(t, lo, dur, n - 1);
            let k = choose|k: int| 0 <= k < n - 1 && in_window(t, window_start(lo, dur, k), dur);
            assert(0 <= k < n && in_window(t, window_start(lo, dur, k), dur));
        }
    }
}

/// Coverage, in window form: every instant within `[lo, hi]` lies in
/// exactly one window of the tiling of `[lo, hi]`.
pub proof fn lemma_window_coverage(t: int, lo: int, hi: int, dur: int)
    requires
        dur > 0,
        lo <= t <= hi,
    ensures
        exists|k: int|
            0 <= k < num_windows(lo, hi, dur) && in_window(t, window_start(lo, dur, k), dur),
        forall|k1: int, k2: int|
            0 <= k1 < num_windows(lo, hi, dur) && 0 <= k2 < num_windows(lo, hi, dur) && in_window(
                t,
                window_start(lo, dur, k1),
                dur,
            ) && in_window(t, window_start(lo, dur, k2), dur) ==> k1 == k2,
{
    let n = num_windows(lo, hi, dur);
    lemma_num_windows_spans(lo, hi, dur);
    lemma_exists_window(t, lo, dur, n);
    assert forall|k1: int, k2: int|
        0 <= k1 < n && 0 <= k2 < n && in_window(t, window_start(lo, dur, k1), dur) && in_window(
            t,
            window_start(lo, dur, k2),
            dur,
        ) implies k1 == k2 by {
        if k1 < k2 {
            assert((k1 + 1) * dur <= k2 * dur) by (nonlinear_arith)
                requires
                    k1 + 1 <= k2 && dur > 0,
            ;
            assert(k1 * dur + dur == (k1 + 1) * dur) by (nonlinear_arith);
        } else if k2 < k1 {
            assert((k2 + 1) * dur <= k1 * dur) by (nonlinear_arith)
                requires
                    k2 + 1 <= k1 && dur > 0,
            ;
            assert(k2 * dur + dur == (k2 + 1) * dur) by (nonlinear_arith);
        }
    }
}

/// Coverage for the events: the tiling of `[min(starts), max(ends)]` puts
/// every instant of that span — in particular every start event no later
/// than the last end, and every end event no earlier than the first start —
/// into exactly one window.
pub proof fn lemma_instant_coverage(starts: Seq<i64>, ends: Seq<i64>, dur: int, t: int)
    requires
        dur > 0,
        starts.len() > 0,
        ends.len() > 0,
        seq_min(starts) <= t <= seq_max(ends),
    ensures
        exists|k: int|
            0 <= k < num_windows(seq_min(starts), seq_max(ends), dur) && in_window(
                t,
                window_start(seq_min(starts), dur, k),
                dur,
            ),
        forall|k1: int, k2: int|
            0 <= k1 < num_windows(seq_min(starts), seq_max(ends), dur) && 0 <= k2 < num_windows(
                seq_min(starts),
                seq_max(ends),
                dur,
            ) && in_window(t, window_start(seq_min(starts), dur, k1), dur) && in_window(
                t,
                window_start(seq_min(starts), dur, k2),
                dur,
            ) ==> k1 == k2,
{
    lemma_window_coverage(t, seq_min(starts), seq_max(ends), dur);
}

/// Windowed-mode sum law: when every end lies at or after the earliest
/// start and every start at or before the latest end — so the tiling of
/// `[min(starts), max(ends)]` covers every event — the net deltas of all
/// windows add up to `len(starts) - len(ends)`.
pub proof fn lemma_windowed_sum(starts: Seq<i64>, ends: Seq<i64>, dur: int)
    requires
        dur > 0,
        starts.len() > 0,
        ends.len() > 0,
        forall|i: int| 0 <= i < ends.len() ==> seq_min(starts) <= ends[i],
        forall|i: int| 0 <= i < starts.len() ==> starts[i] <= seq_max(ends),
    ensures
        cumulative(
            starts,
            ends,
            seq_min(starts),
            dur,
            num_windows(seq_min(starts), seq_max(ends), dur),
        ) == starts.len() - ends.len(),
{
    let lo = seq_min(starts);
    let hi = seq_max(ends);
    let n = num_windows(lo, hi, dur);
    lemma_seq_min_le(starts, 0);
    assert(lo <= hi);
    lemma_num_windows_spans(lo, hi, dur);
    assert forall|i: int| 0 <= i < starts.len() implies lo <= starts[i] && starts[i] < lo + n
        * dur by {
        lemma_seq_min_le(starts, i);
    }
    assert forall|i: int| 0 <= i < ends.len() implies lo <= ends[i] && ends[i] < lo + n * dur by {
        lemma_seq_max_ge(ends, i);
    }
    lemma_sum_counts_full(starts, lo, dur, n);
    lemma_sum_counts_full(ends, lo, dur, n);
}

/// Cumulative-mode consistency: under the same coverage hypothesis as the
/// sum law, the running count after all windows is
/// `len(starts) - len(ends)`; each window moves the running count by exactly
/// its net delta; and window timestamps strictly increase.
pub proof fn lemma_cumulative_consistency(starts: Seq<i64>, ends: Seq<i64>, dur: int)
    requires
        dur > 0,
        starts.len() > 0,
        ends.len() > 0,
        forall|i: int| 0 <= i < ends.len() ==> seq_min(starts) <= ends[i],
        forall|i: int| 0 <= i < starts.len() ==> starts[i] <= seq_max(ends),
    ensures
        cumulative(
            starts,
            ends,
            seq_min(starts),
            dur,
            num_windows(seq_min(starts), seq_max(ends), dur),
        ) == starts.len() - ends.len(),
        forall|k: int|
            0 <= k ==> cumulative(starts, ends, seq_min(starts), dur, k + 1) == cumulative(
                starts,
                ends,
                seq_min(starts),
                dur,
                k,
            ) + window_delta(starts, ends, seq_min(starts), dur, k),
        forall|k: int|
            #[trigger] window_start(seq_min(starts), dur, k) < window_start(seq_min(starts), dur, k + 1),
{
    lemma_windowed_sum(starts, ends, dur);
    assert forall|k: int|
        #[trigger] window_start(seq_min(starts), dur, k) < window_start(seq_min(starts), dur, k + 1) by {
        lemma_monotonic_tiling(seq_min(starts), dur, k);
    }
}

/// Bridges the bucketing engine's output to the model: when the `j`-th count
/// is the number of events in the `j`-th window, partial sums of the counts
/// equal the model's per-window sums.
pub proof fn lemma_sum_to_matches_sum_counts(
    counts: Seq<usize>,
    s: Seq<i64>,
    lo: int,
    dur: int,
    k: int,
)
    requires
        0 <= k <= counts.len(),
        forall|j: int|
            0 <= j < counts.len() ==> counts[j] == count_in_window(s, window_start(lo, dur, j), dur),
    ensures
        sum_to(counts, k) == sum_counts(s, lo, dur, k),
    decreases k,
{
    if k > 0 {
        lemma_sum_to_matches_sum_counts(counts, s, lo, dur, k - 1);
    }
}

} // verus!
