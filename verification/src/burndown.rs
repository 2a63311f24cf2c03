//! The burndown core: resolution parsing, the bucketing engine, and the two
//! aggregation modes.

use vstd::prelude::*;

use crate::model::{
    count_in_window, cumulative, fold_char, is_days_code, is_hours_code, is_minutes_code,
    is_weeks_code, matches_code, num_windows, secs_of, seq_max, seq_min, subsec_of, sum_to,
    window_delta, window_start,
};
use crate::time_text::{instant_to_rfc3339, rfc3339_of};

verus! {

/// The time unit of a resolution; paired with a multiplier it fixes the
/// width of every window.
#[derive(Clone, Copy, Debug, PartialEq, Eq, Structural)]
pub enum Resolution {
    Minutes,
    Hours,
    Days,
    Weeks,
}

/// How the per-window counts are folded into the output series.
#[derive(Clone, Copy, Debug, PartialEq, Eq, Structural)]
pub enum Aggregation {
    /// A running net-open count, sampled twice per window (before and after
    /// the window's delta) to form a step function.
    Cumulative,
    /// One net delta per window, with no running state.
    Windowed,
}

/// Everything that can go wrong: each computation either returns a whole
/// series or fails fast with one of these.
#[derive(Debug)]
pub enum BurndownError {
    /// The resolution code is not one of the recognized aliases; carries the
    /// offending input.
    InvalidResolution(String),
    /// `starts` or `ends` is empty, so the time span is undefined.
    EmptyEventSet,
    /// The resolution multiplier is not positive, or the window width
    /// overflows the instant axis.
    InvalidDuration,
}

/// Whether `e` is the `InvalidResolution` error carrying exactly `input`.
pub open spec fn is_invalid_resolution(e: BurndownError, input: Seq<char>) -> bool {
    match e {
        BurndownError::InvalidResolution(s) => s@ == input,
        _ => false,
    }
}

impl Resolution {
    /// The width of one unit, in nanoseconds.
    pub open spec fn unit_ns(self) -> int {
        match self {
            Resolution::Minutes => 60_000_000_000,
            Resolution::Hours => 3_600_000_000_000,
            Resolution::Days => 86_400_000_000_000,
            Resolution::Weeks => 604_800_000_000_000,
        }
    }

    /// What a resolution code denotes: the unit whose alias set the code
    /// falls in (case-insensitively), if any.
    pub open spec fn spec_parse(s: Seq<char>) -> Option<Resolution> {
        if is_minutes_code(s) {
            Some(Resolution::Minutes)
        } else if is_hours_code(s) {
            Some(Resolution::Hours)
        } else if is_days_code(s) {
            Some(Resolution::Days)
        } else if is_weeks_code(s) {
            Some(Resolution::Weeks)
        } else {
            None
        }
    }

    /// Parses a resolution code. Exactly the thirteen recognized aliases
    /// succeed; anything else fails with `InvalidResolution` carrying the
    /// input.
    pub fn from_str(input: &str) -> (r: Result<Resolution, BurndownError>)
        ensures
            match r {
                Ok(res) => Self::spec_parse(input@) == Some(res),
                Err(e) => Self::spec_parse(input@) is None && is_invalid_resolution(e, input@),
            },
    {
        if code_matches(input, "m") || code_matches(input, "min") || code_matches(input, "minute")
            || code_matches(input, "minutes") {
            Ok(Resolution::Minutes)
        } else if code_matches(input, "h") || code_matches(input, "hour") || code_matches(
            input,
            "hours",
        ) {
            Ok(Resolution::Hours)
        } else if code_matches(input, "d") || code_matches(input, "day") || code_matches(
            input,
            "days",
        ) {
            Ok(Resolution::Days)
        } else if code_matches(input, "w") || code_matches(input, "week") || code_matches(
            input,
            "weeks",
        ) {
            Ok(Resolution::Weeks)
        } else {
            Err(BurndownError::InvalidResolution(input.to_owned()))
        }
    }

    /// The window width defined by this unit and a multiplier, in
    /// nanoseconds. A multiplier that is not positive, or a width beyond the
    /// instant axis, is rejected as `InvalidDuration`.
    pub fn to_duration(&self, value: i64) -> (r: Result<i64, BurndownError>)
        ensures
            match r {
                Ok(d) => {
                    &&& 1 <= value
                    &&& d == value * self.unit_ns()
                    &&& d <= i64::MAX
                },
                Err(e) => {
                    &&& (value < 1 || value * self.unit_ns() > i64::MAX)
                    &&& e is InvalidDuration
                },
            },
    {
        let unit: i64 = match self {
            Resolution::Minutes => 60_000_000_000,
            Resolution::Hours => 3_600_000_000_000,
            Resolution::Days => 86_400_000_000_000,
            Resolution::Weeks => 604_800_000_000_000,
        };
        if value < 1 {
            return Err(BurndownError::InvalidDuration);
        }
        proof {
            assert(1 <= value as int * unit as int <= i64::MAX * 604_800_000_000_000)
                by (nonlinear_arith)
                requires
                    1 <= value <= i64::MAX,
                    1 <= unit <= 604_800_000_000_000,
            ;
        }
        let wide: i128 = (value as i128) * (unit as i128);
        if wide > i64::MAX as i128 {
            Err(BurndownError::InvalidDuration)
        } else {
            Ok(wide as i64)
        }
    }
}

/// The output of the bucketing engine: the start instant of every window of
/// the tiling, and, per window, how many start events and how many end
/// events fall inside it.
pub struct WindowCounts {
    /// The start instant of each window, in tiling order.
    pub window_starts: Vec<i64>,
    /// Per window, the number of start events it contains.
    pub start_counts: Vec<usize>,
    /// Per window, the number of end events it contains.
    pub end_counts: Vec<usize>,
}

/// The least element of a non-empty vector of instants.
fn min_instant(v: &Vec<i64>) -> (r: i64)
    requires
        v@.len() > 0,
    ensures
        r == seq_min(v@),
{
    let mut cur: i64 = v[0];
    let mut i: usize = 1;
    while i < v.len()
        invariant
            1 <= i <= v@.len(),
            cur == seq_min(v@.take(i as int)),
        decreases v@.len() - i,
    {
        proof {
            assert(v@.take(i + 1).drop_last() =~= v@.take(i as int));
        }
        if v[i] <= cur {
            cur = v[i];
        }
        i += 1;
    }
    proof {
        assert(v@.take(v@.len() as int) =~= v@);
    }
    cur
}

/// The greatest element of a non-empty vector of instants.
fn max_instant(v: &Vec<i64>) -> (r: i64)
    requires
        v@.len() > 0,
    ensures
        r == seq_max(v@),
{
    let mut cur: i64 = v[0];
    let mut i: usize = 1;
    while i < v.len()
        invariant
            1 <= i <= v@.len(),
            cur == seq_max(v@.take(i as int)),
        decreases v@.len() - i,
    {
        proof {
            assert(v@.take(i + 1).drop_last() =~= v@.take(i as int));
        }
        if v[i] >= cur {
            cur = v[i];
        }
        i += 1;
    }
    proof {
        assert(v@.take(v@.len() as int) =~= v@);
    }
    cur
}

/// How many elements of `events` fall in the half-open window that begins
/// at `lo` and is `dur` wide.
fn count_events_in_window(events: &Vec<i64>, lo: i128, dur: i128) -> (c: usize)
    requires
        1 <= dur <= i64::MAX,
        i64::MIN <= lo <= i64::MAX,
    ensures
        c == count_in_window(events@, lo as int, dur as int),
        c <= events@.len(),
{
    let upper: i128 = lo + dur;
    let mut c: usize = 0;
    let mut j: usize = 0;
    while j < events.len()
        invariant
            0 <= j <= events@.len(),
            c <= j,
            upper == lo + dur,
            c == count_in_window(events@.take(j as int), lo as int, dur as int),
        decreases events@.len() - j,
    {
        proof {
            assert(events@.take(j + 1).drop_last() =~= events@.take(j as int));
        }
        let t: i128 = events[j] as i128;
        if lo <= t && t < upper {
            c += 1;
        }
        j += 1;
    }
    proof {
        assert(events@.take(events@.len() as int) =~= events@);
    }
    c
}

/// The bucketing engine: tiles `[min(starts), max(ends)]` with contiguous
/// half-open windows of width `duration_ns`, beginning exactly at
/// `min(starts)`, and counts per window how many start and end events fall
/// in it. Fails with `EmptyEventSet` — before any `min`/`max` is taken — if
/// either event sequence is empty.
pub fn bucket_events(duration_ns: i64, starts: &Vec<i64>, ends: &Vec<i64>) -> (r: Result<
    WindowCounts,
    BurndownError,
>)
    requires
        duration_ns >= 1,
    ensures
        match r {
            Ok(w) => {
                let lo = seq_min(starts@);
                let dur = duration_ns as int;
                let n = num_windows(lo, seq_max(ends@), dur);
                &&& starts@.len() > 0 && ends@.len() > 0
                &&& w.window_starts@.len() == n
                &&& w.start_counts@.len() == n
                &&& w.end_counts@.len() == n
                &&& forall|k: int| 0 <= k < n ==> w.window_starts@[k] == window_start(lo, dur, k)
                &&& forall|k: int|
                    0 <= k < n ==> w.start_counts@[k] == count_in_window(
                        starts@,
                        window_start(lo, dur, k),
                        dur,
                    )
                &&& forall|k: int|
                    0 <= k < n ==> w.end_counts@[k] == count_in_window(
                        ends@,
                        window_start(lo, dur, k),
                        dur,
                    )
            },
            Err(e) => (starts@.len() == 0 || ends@.len() == 0) && e is EmptyEventSet,
        },
{
    if starts.len() == 0 || ends.len() == 0 {
        return Err(BurndownError::EmptyEventSet);
    }
    let lo: i64 = min_instant(starts);
    let hi: i64 = max_instant(ends);
    let dur: i128 = duration_ns as i128;
    let ghost lo_i = lo as int;
    let ghost dur_i = duration_ns as int;
    let ghost n = num_windows(lo_i, hi as int, dur_i);
    let mut w = WindowCounts {
        window_starts: Vec::new(),
        start_counts: Vec::new(),
        end_counts: Vec::new(),
    };
    let mut cursor: i128 = lo as i128;
    proof {
        assert(0int * dur_i == 0) by (nonlinear_arith);
    }
    while cursor <= hi as i128
        invariant
            1 <= duration_ns,
            dur == duration_ns as int,
            lo_i == lo as int,
            dur_i == duration_ns as int,
            n == num_windows(lo_i, hi as int, dur_i),
            w.window_starts@.len() == w.start_counts@.len() == w.end_counts@.len(),
            cursor == window_start(lo_i, dur_i, w.window_starts@.len() as int),
            lo as int <= cursor,
            n == w.window_starts@.len() + num_windows(cursor as int, hi as int, dur_i),
            forall|k: int|
                0 <= k < w.window_starts@.len() ==> w.window_starts@[k] == window_start(
                    lo_i,
                    dur_i,
                    k,
                ),
            forall|k: int|
                0 <= k < w.window_starts@.len() ==> w.start_counts@[k] == count_in_window(
                    starts@,
                    window_start(lo_i, dur_i, k),
                    dur_i,
                ),
            forall|k: int|
                0 <= k < w.window_starts@.len() ==> w.end_counts@[k] == count_in_window(
                    ends@,
                    window_start(lo_i, dur_i, k),
                    dur_i,
                ),
        decreases hi as int + dur_i - cursor,
    {
        let sc = count_events_in_window(starts, cursor, dur);
        let ec = count_events_in_window(ends, cursor, dur);
        proof {
            let len = w.window_starts@.len() as int;
            assert((len + 1) * dur_i == len * dur_i + dur_i) by (nonlinear_arith);
            assert(window_start(lo_i, dur_i, len + 1) == cursor + dur_i);
            assert(num_windows(cursor as int, hi as int, dur_i) == 1 + num_windows(
                cursor as int + dur_i,
                hi as int,
                dur_i,
            ));
        }
        w.window_starts.push(cursor as i64);
        w.start_counts.push(sc);
        w.end_counts.push(ec);
        cursor = cursor + dur;
    }
    Ok(w)
}

/// The aggregation strategy: folds the per-window counts into the output
/// series, in window order.
///
/// In windowed mode the result has one sample per window: the window's start
/// instant and its net delta. In cumulative mode it has two samples per
/// window, both at the window's start instant: the running net-open count
/// before the window's delta is applied, then after.
pub fn aggregate(mode: Aggregation, w: &WindowCounts) -> (r: (Vec<i64>, Vec<i64>))
    requires
        w.window_starts@.len() == w.start_counts@.len(),
        w.window_starts@.len() == w.end_counts@.len(),
        sum_to(w.start_counts@, w.start_counts@.len() as int) + sum_to(
            w.end_counts@,
            w.end_counts@.len() as int,
        ) <= i64::MAX,
    ensures
        ({
            let n = w.window_starts@.len() as int;
            match mode {
                Aggregation::Windowed => {
                    &&& r.0@ == w.window_starts@
                    &&& r.1@.len() == n
                    &&& forall|k: int|
                        0 <= k < n ==> r.1@[k] == w.start_counts@[k] - w.end_counts@[k]
                },
                Aggregation::Cumulative => {
                    &&& r.0@.len() == 2 * n
                    &&& r.1@.len() == 2 * n
                    &&& forall|k: int|
                        0 <= k < n ==> r.0@[2 * k] == w.window_starts@[k] && r.0@[2 * k + 1]
                            == w.window_starts@[k]
                    &&& forall|k: int|
                        0 <= k < n ==> r.1@[2 * k] == #[trigger] sum_to(w.start_counts@, k)
                            - sum_to(w.end_counts@, k) && r.1@[2 * k + 1] == sum_to(
                            w.start_counts@,
                            k + 1,
                        ) - sum_to(w.end_counts@, k + 1)
                },
            }
        }),
{
    let n = w.window_starts.len();
    let ghost total = sum_to(w.start_counts@, n as int) + sum_to(w.end_counts@, n as int);
    let mut dates: Vec<i64> = Vec::new();
    let mut values: Vec<i64> = Vec::new();
    match mode {
        Aggregation::Windowed => {
            let mut k: usize = 0;
            while k < n
                invariant
                    n == w.window_starts@.len(),
                    n == w.start_counts@.len(),
                    n == w.end_counts@.len(),
                    total == sum_to(w.start_counts@, n as int) + sum_to(w.end_counts@, n as int),
                    total <= i64::MAX,
                    0 <= k <= n,
                    dates@ == w.window_starts@.take(k as int),
                    values@.len() == k,
                    forall|j: int|
                        0 <= j < k ==> values@[j] == w.start_counts@[j] - w.end_counts@[j],
                decreases n - k,
            {
                proof {
                    lemma_count_within_total(w.start_counts@, w.end_counts@, k as int);
                    assert(w.window_starts@.take(k + 1) =~= w.window_starts@.take(k as int).push(
                        w.window_starts@[k as int],
                    ));
                }
                let sc = w.start_counts[k];
                let ec = w.end_counts[k];
                dates.push(w.window_starts[k]);
                values.push(sc as i64 - ec as i64);
                k += 1;
            }
            proof {
                assert(w.window_starts@.take(n as int) =~= w.window_starts@);
            }
        },
        Aggregation::Cumulative => {
            let mut acc: i64 = 0;
            let mut k: usize = 0;
            while k < n
                invariant
                    n == w.window_starts@.len(),
                    n == w.start_counts@.len(),
                    n == w.end_counts@.len(),
                    total == sum_to(w.start_counts@, n as int) + sum_to(w.end_counts@, n as int),
                    total <= i64::MAX,
                    0 <= k <= n,
                    acc == sum_to(w.start_counts@, k as int) - sum_to(w.end_counts@, k as int),
                    dates@.len() == 2 * k,
                    values@.len() == 2 * k,
                    forall|j: int|
                        0 <= j < k ==> dates@[2 * j] == w.window_starts@[j] && dates@[2 * j + 1]
                            == w.window_starts@[j],
                    forall|j: int|
                        0 <= j < k ==> values@[2 * j] == #[trigger] sum_to(w.start_counts@, j)
                            - sum_to(w.end_counts@, j) && values@[2 * j + 1] == sum_to(
                            w.start_counts@,
                            j + 1,
                        ) - sum_to(w.end_counts@, j + 1),
                decreases n - k,
            {
                proof {
                    lemma_count_within_total(w.start_counts@, w.end_counts@, k as int);
                }
                let date = w.window_starts[k];
                let sc = w.start_counts[k];
                let ec = w.end_counts[k];
                dates.push(date);
                values.push(acc);
                acc = acc + sc as i64;
                acc = acc - ec as i64;
                dates.push(date);
                values.push(acc);
                k += 1;
            }
        },
    }
    (dates, values)
}

/// Within a pair of count sequences whose grand total fits the output type,
/// every partial sum and every single count does too.
proof fn lemma_count_within_total(sc: Seq<usize>, ec: Seq<usize>, k: int)
    requires
        sc.len() == ec.len(),
        0 <= k < sc.len(),
        sum_to(sc, sc.len() as int) + sum_to(ec, ec.len() as int) <= i64::MAX,
    ensures
        0 <= sum_to(sc, k),
        0 <= sum_to(ec, k),
        sum_to(sc, k + 1) <= sum_to(sc, sc.len() as int),
        sum_to(ec, k + 1) <= sum_to(ec, ec.len() as int),
        sc[k] <= i64::MAX,
        ec[k] <= i64::MAX,
{
    crate::laws::lemma_sum_to_nonneg(sc, k);
    crate::laws::lemma_sum_to_nonneg(ec, k);
    crate::laws::lemma_sum_to_mono(sc, k + 1, sc.len() as int);
    crate::laws::lemma_sum_to_mono(ec, k + 1, ec.len() as int);
    crate::laws::lemma_sum_to_nonneg(sc, k + 1);
    crate::laws::lemma_sum_to_nonneg(ec, k + 1);
    crate::laws::lemma_sum_to_nonneg(sc, sc.len() as int);
    crate::laws::lemma_sum_to_nonneg(ec, ec.len() as int);
}

/// Buckets the events into windows of `resolution_val` times the unit of
/// `resolution_type` and folds the counts as `mode` says. The result pairs a
/// window-start instant with each series value.
#[verifier::rlimit(60)]
#[verifier::spinoff_prover]
pub fn iter_burndown_dates(
    resolution_type: Resolution,
    resolution_val: i64,
    mode: Aggregation,
    rust_start: &Vec<i64>,
    rust_end: &Vec<i64>,
) -> (r: Result<(Vec<i64>, Vec<i64>), BurndownError>)
    requires
        rust_start@.len() + rust_end@.len() <= i64::MAX,
    ensures
        match r {
            Ok(series) => {
                let dur = resolution_val * resolution_type.unit_ns();
                let lo = seq_min(rust_start@);
                let n = num_windows(lo, seq_max(rust_end@), dur);
                &&& 1 <= resolution_val && dur <= i64::MAX
                &&& rust_start@.len() > 0 && rust_end@.len() > 0
                &&& match mode {
                    Aggregation::Windowed => {
                        &&& series.0@.len() == n
                        &&& series.1@.len() == n
                        &&& forall|k: int|
                            0 <= k < n ==> series.0@[k] == window_start(lo, dur, k)
                        &&& forall|k: int|
                            0 <= k < n ==> series.1@[k] == window_delta(
                                rust_start@,
                                rust_end@,
                                lo,
                                dur,
                                k,
                            )
                    },
                    Aggregation::Cumulative => {
                        &&& series.0@.len() == 2 * n
                        &&& series.1@.len() == 2 * n
                        &&& forall|k: int|
                            0 <= k < n ==> series.0@[2 * k] == window_start(lo, dur, k)
                                && series.0@[2 * k + 1] == window_start(lo, dur, k)
                        &&& forall|k: int|
                            0 <= k < n ==> series.1@[2 * k] == #[trigger] cumulative(
                                rust_start@,
                                rust_end@,
                                lo,
                                dur,
                                k,
                            ) && series.1@[2 * k + 1] == cumulative(
                                rust_start@,
                                rust_end@,
                                lo,
                                dur,
                                k + 1,
                            )
                    },
                }
            },
            Err(e) => match e {
                BurndownError::EmptyEventSet => rust_start@.len() == 0 || rust_end@.len() == 0,
                BurndownError::InvalidDuration => {
                    &&& rust_start@.len() > 0 && rust_end@.len() > 0
                    &&& (resolution_val < 1 || resolution_val * resolution_type.unit_ns()
                        > i64::MAX)
                },
                BurndownError::InvalidResolution(_) => false,
            },
        },
{
    if rust_start.len() == 0 || rust_end.len() == 0 {
        return Err(BurndownError::EmptyEventSet);
    }
    let dur = match resolution_type.to_duration(resolution_val) {
        Ok(d) => d,
        Err(e) => {
            return Err(e);
        },
    };
    let w = match bucket_events(dur, rust_start, rust_end) {
        Ok(w) => w,
        Err(e) => {
            return Err(e);
        },
    };
    let ghost lo = seq_min(rust_start@);
    let ghost dur_i = dur as int;
    let ghost n = w.window_starts@.len() as int;
    proof {
        crate::laws::lemma_sum_to_matches_sum_counts(w.start_counts@, rust_start@, lo, dur_i, n);
        crate::laws::lemma_sum_to_matches_sum_counts(w.end_counts@, rust_end@, lo, dur_i, n);
        crate::laws::lemma_sum_counts_le_len(rust_start@, lo, dur_i, n);
        crate::laws::lemma_sum_counts_le_len(rust_end@, lo, dur_i, n);
    }
    let series = aggregate(mode, &w);
    proof {
        match mode {
            Aggregation::Windowed => {},
            Aggregation::Cumulative => {
                assert forall|k: int| 0 <= k < n implies series.1@[2 * k] == #[trigger] cumulative(
                    rust_start@,
                    rust_end@,
                    lo,
                    dur_i,
                    k,
                ) && series.1@[2 * k + 1] == cumulative(rust_start@, rust_end@, lo, dur_i, k
                    + 1) by {
                    crate::laws::lemma_sum_to_matches_sum_counts(
                        w.start_counts@,
                        rust_start@,
                        lo,
                        dur_i,
                        k,
                    );
                    crate::laws::lemma_sum_to_matches_sum_counts(
                        w.end_counts@,
                        rust_end@,
                        lo,
                        dur_i,
                        k,
                    );
                    crate::laws::lemma_sum_to_matches_sum_counts(
                        w.start_counts@,
                        rust_start@,
                        lo,
                        dur_i,
                        k + 1,
                    );
                    crate::laws::lemma_sum_to_matches_sum_counts(
                        w.end_counts@,
                        rust_end@,
                        lo,
                        dur_i,
                        k + 1,
                    );
                }
            },
        }
    }
    Ok(series)
}

/// The whole burndown computation: parses the resolution code, buckets the
/// two nanosecond-instant sequences, folds the counts as `mode` says, and
/// renders each window-start instant as RFC 3339 text.
pub fn compute_burndown(
    resolution_type: &str,
    resolution_val: i64,
    mode: Aggregation,
    start_dates: &Vec<i64>,
    end_dates: &Vec<i64>,
) -> (r: Result<(Vec<String>, Vec<i64>), BurndownError>)
    requires
        start_dates@.len() + end_dates@.len() <= i64::MAX,
    ensures
        match r {
            Ok(series) => Resolution::spec_parse(resolution_type@) matches Some(res) && {
                let dur = resolution_val * res.unit_ns();
                let lo = seq_min(start_dates@);
                let n = num_windows(lo, seq_max(end_dates@), dur);
                &&& 1 <= resolution_val && dur <= i64::MAX
                &&& start_dates@.len() > 0 && end_dates@.len() > 0
                &&& match mode {
                    Aggregation::Windowed => {
                        &&& series.0@.len() == n
                        &&& series.1@.len() == n
                        &&& forall|k: int|
                            0 <= k < n ==> series.0@[k]@ == rfc3339_of(
                                secs_of(window_start(lo, dur, k)),
                                subsec_of(window_start(lo, dur, k)),
                            )
                        &&& forall|k: int|
                            0 <= k < n ==> series.1@[k] == window_delta(
                                start_dates@,
                                end_dates@,
                                lo,
                                dur,
                                k,
                            )
                    },
                    Aggregation::Cumulative => {
                        &&& series.0@.len() == 2 * n
                        &&& series.1@.len() == 2 * n
                        &&& forall|k: int|
                            0 <= k < n ==> series.0@[2 * k]@ == rfc3339_of(
                                secs_of(window_start(lo, dur, k)),
                                subsec_of(window_start(lo, dur, k)),
                            ) && series.0@[2 * k + 1]@ == rfc3339_of(
                                secs_of(window_start(lo, dur, k)),
                                subsec_of(window_start(lo, dur, k)),
                            )
                        &&& forall|k: int|
                            0 <= k < n ==> series.1@[2 * k] == #[trigger] cumulative(
                                start_dates@,
                                end_dates@,
                                lo,
                                dur,
                                k,
                            ) && series.1@[2 * k + 1] == cumulative(
                                start_dates@,
                                end_dates@,
                                lo,
                                dur,
                                k + 1,
                            )
                    },
                }
            },
            Err(e) => match e {
                BurndownError::InvalidResolution(s) => Resolution::spec_parse(resolution_type@)
                    is None && s@ == resolution_type@,
                BurndownError::EmptyEventSet => Resolution::spec_parse(resolution_type@) is Some
                    && (start_dates@.len() == 0 || end_dates@.len() == 0),
                BurndownError::InvalidDuration => Resolution::spec_parse(resolution_type@)
                    matches Some(res) && {
                    &&& start_dates@.len() > 0 && end_dates@.len() > 0
                    &&& (resolution_val < 1 || resolution_val * res.unit_ns() > i64::MAX)
                },
            },
        },
{
    let resolution = match Resolution::from_str(resolution_type) {
        Ok(res) => res,
        Err(e) => {
            return Err(e);
        },
    };
    let (dates, values) = match iter_burndown_dates(
        resolution,
        resolution_val,
        mode,
        start_dates,
        end_dates,
    ) {
        Ok(series) => series,
        Err(e) => {
            return Err(e);
        },
    };
    let mut texts: Vec<String> = Vec::new();
    let mut i: usize = 0;
    while i < dates.len()
        invariant
            0 <= i <= dates@.len(),
            texts@.len() == i,
            forall|j: int|
                0 <= j < i ==> texts@[j]@ == rfc3339_of(
                    secs_of(dates@[j] as int),
                    subsec_of(dates@[j] as int),
                ),
        decreases dates@.len() - i,
    {
        texts.push(instant_to_rfc3339(dates[i]));
        i += 1;
    }
    Ok((texts, values))
}

/// The code point of `c` with upper-case letters folded to lower case:
/// ASCII A–Z, and the Kelvin sign, whose lower-case form is `k`.
fn fold_char_exec(c: char) -> (r: u32)
    ensures
        r == fold_char(c),
{
    let v = c as u32;
    if 65 <= v && v <= 90 {
        v + 32
    } else if v == 8490 {
        107
    } else {
        v
    }
}

/// Whether `s` equals `code` up to ASCII case folding.
fn code_matches(s: &str, code: &str) -> (r: bool)
    ensures
        r == matches_code(s@, code@),
{
    let n = s.unicode_len();
    if n != code.unicode_len() {
        return false;
    }
    let mut i: usize = 0;
    while i < n
        invariant
            n == s@.len() == code@.len(),
            0 <= i <= n,
            forall|j: int| 0 <= j < i ==> fold_char(s@[j]) == fold_char(code@[j]),
        decreases n - i,
    {
        let a = s.get_char(i);
        let b = code.get_char(i);
        if fold_char_exec(a) != fold_char_exec(b) {
            return false;
        }
        i += 1;
    }
    true
}

} // verus!
