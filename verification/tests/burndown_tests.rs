use burndown_rs::burndown::{
    aggregate, bucket_events, compute_burndown, iter_burndown_dates, Aggregation, BurndownError,
    Resolution,
};
use burndown_rs::time_text::instant_to_rfc3339;

const SECOND: i64 = 1_000_000_000;
const MINUTE: i64 = 60 * SECOND;
const HOUR: i64 = 60 * MINUTE;
const DAY: i64 = 24 * HOUR;
const WEEK: i64 = 7 * DAY;

#[test]
fn parses_minutes_aliases() {
    for alias in ["m", "min", "minute", "minutes", "M", "MIN", "Minute", "MINUTES"] {
        assert!(matches!(Resolution::from_str(alias), Ok(Resolution::Minutes)));
    }
}

#[test]
fn parses_hours_aliases() {
    for alias in ["h", "hour", "hours", "H", "Hour", "HOURS"] {
        assert!(matches!(Resolution::from_str(alias), Ok(Resolution::Hours)));
    }
}

#[test]
fn parses_days_aliases() {
    for alias in ["d", "day", "days", "D", "Day", "DAYS"] {
        assert!(matches!(Resolution::from_str(alias), Ok(Resolution::Days)));
    }
}

#[test]
fn parses_weeks_aliases() {
    for alias in ["w", "week", "weeks", "W", "Week", "WEEKS"] {
        assert!(matches!(Resolution::from_str(alias), Ok(Resolution::Weeks)));
    }
}

#[test]
fn kelvin_sign_folds_to_k() {
    // U+212A (KELVIN SIGN) lowercases to `k`, so it spells the weeks aliases
    // just as `K` does; on its own it is no alias.
    assert!(matches!(
        Resolution::from_str("wee\u{212A}"),
        Ok(Resolution::Weeks)
    ));
    assert!(matches!(
        Resolution::from_str("wee\u{212A}s"),
        Ok(Resolution::Weeks)
    ));
    assert!(matches!(
        Resolution::from_str("\u{212A}"),
        Err(BurndownError::InvalidResolution(_))
    ));
}

#[test]
fn rejects_unrecognized_resolution_with_input() {
    match Resolution::from_str("fortnight") {
        Err(BurndownError::InvalidResolution(s)) => assert_eq!(s, "fortnight"),
        other => panic!("expected InvalidResolution, got {:?}", other),
    }
    assert!(matches!(
        Resolution::from_str(""),
        Err(BurndownError::InvalidResolution(_))
    ));
    assert!(matches!(
        Resolution::from_str("months"),
        Err(BurndownError::InvalidResolution(_))
    ));
    assert!(matches!(
        Resolution::from_str("mins"),
        Err(BurndownError::InvalidResolution(_))
    ));
}

#[test]
fn durations_follow_unit_and_multiplier() {
    assert_eq!(Resolution::Minutes.to_duration(1).unwrap(), MINUTE);
    assert_eq!(Resolution::Hours.to_duration(2).unwrap(), 2 * HOUR);
    assert_eq!(Resolution::Days.to_duration(3).unwrap(), 3 * DAY);
    assert_eq!(Resolution::Weeks.to_duration(1).unwrap(), WEEK);
}

#[test]
fn nonpositive_or_overflowing_multiplier_is_rejected() {
    assert!(matches!(
        Resolution::Minutes.to_duration(0),
        Err(BurndownError::InvalidDuration)
    ));
    assert!(matches!(
        Resolution::Hours.to_duration(-5),
        Err(BurndownError::InvalidDuration)
    ));
    assert!(matches!(
        Resolution::Weeks.to_duration(i64::MAX),
        Err(BurndownError::InvalidDuration)
    ));
}

#[test]
fn empty_starts_fail_with_empty_event_set() {
    let starts: Vec<i64> = vec![];
    let ends = vec![HOUR];
    let r = iter_burndown_dates(Resolution::Hours, 1, Aggregation::Cumulative, &starts, &ends);
    assert!(matches!(r, Err(BurndownError::EmptyEventSet)));
}

#[test]
fn empty_ends_fail_with_empty_event_set() {
    let starts = vec![0];
    let ends: Vec<i64> = vec![];
    let r = iter_burndown_dates(Resolution::Hours, 1, Aggregation::Windowed, &starts, &ends);
    assert!(matches!(r, Err(BurndownError::EmptyEventSet)));
}

#[test]
fn emptiness_is_checked_before_the_multiplier() {
    // The span is validated before the window width, as in the algorithm,
    // where min/max are taken before the duration is built.
    let starts: Vec<i64> = vec![];
    let ends = vec![HOUR];
    let r = iter_burndown_dates(Resolution::Hours, 0, Aggregation::Cumulative, &starts, &ends);
    assert!(matches!(r, Err(BurndownError::EmptyEventSet)));
    let r = compute_burndown("h", -3, Aggregation::Windowed, &starts, &ends);
    assert!(matches!(r, Err(BurndownError::EmptyEventSet)));
}

#[test]
fn one_start_one_end_two_hours_apart() {
    let starts = vec![0];
    let ends = vec![2 * HOUR];
    let (dates, deltas) =
        iter_burndown_dates(Resolution::Hours, 1, Aggregation::Windowed, &starts, &ends).unwrap();
    assert_eq!(dates, vec![0, HOUR, 2 * HOUR]);
    assert_eq!(deltas, vec![1, 0, -1]);
    let (dates, cumul) =
        iter_burndown_dates(Resolution::Hours, 1, Aggregation::Cumulative, &starts, &ends)
            .unwrap();
    assert_eq!(dates, vec![0, 0, HOUR, HOUR, 2 * HOUR, 2 * HOUR]);
    assert_eq!(cumul, vec![0, 1, 1, 1, 1, 0]);
}

#[test]
fn end_on_two_day_boundary_is_not_counted_in_first_window() {
    // starts at Jan 1 1970 00:00, ends at Jan 3 00:00, windows two days wide:
    // the end sits exactly on the first window's upper bound, so the first
    // window counts no closing; the end lands in the window that begins at
    // the boundary.
    let starts = vec![0];
    let ends = vec![2 * DAY];
    let w = bucket_events(2 * DAY, &starts, &ends).unwrap();
    assert_eq!(w.window_starts, vec![0, 2 * DAY]);
    assert_eq!(w.start_counts, vec![1, 0]);
    assert_eq!(w.end_counts, vec![0, 1]);
    let (dates, deltas) = aggregate(Aggregation::Windowed, &w);
    assert_eq!(dates, vec![0, 2 * DAY]);
    assert_eq!(deltas, vec![1, -1]);
}

#[test]
fn boundary_instant_counts_toward_following_window() {
    // An end exactly at the first window's upper bound (one minute) belongs
    // to the second window.
    let starts = vec![0, MINUTE];
    let ends = vec![MINUTE, MINUTE];
    let w = bucket_events(MINUTE, &starts, &ends).unwrap();
    assert_eq!(w.window_starts, vec![0, MINUTE]);
    assert_eq!(w.start_counts, vec![1, 1]);
    assert_eq!(w.end_counts, vec![0, 2]);
}

#[test]
fn identical_single_element_sets() {
    let starts = vec![5 * HOUR];
    let ends = vec![5 * HOUR];
    let (_, cumul) =
        iter_burndown_dates(Resolution::Hours, 1, Aggregation::Cumulative, &starts, &ends)
            .unwrap();
    assert_eq!(cumul, vec![0, 0]);
    let (dates, deltas) =
        iter_burndown_dates(Resolution::Hours, 1, Aggregation::Windowed, &starts, &ends).unwrap();
    assert_eq!(dates, vec![5 * HOUR]);
    assert_eq!(deltas, vec![0]);
}

#[test]
fn windowed_deltas_sum_to_length_difference() {
    let starts = vec![0, 10 * MINUTE, 3 * HOUR, 3 * HOUR + 1];
    let ends = vec![30 * MINUTE, 2 * HOUR, 5 * HOUR];
    let (_, deltas) =
        iter_burndown_dates(Resolution::Hours, 1, Aggregation::Windowed, &starts, &ends).unwrap();
    let sum: i64 = deltas.iter().sum();
    assert_eq!(sum, starts.len() as i64 - ends.len() as i64);
}

#[test]
fn cumulative_series_is_consistent() {
    let starts = vec![0, 10 * MINUTE, 3 * HOUR, 3 * HOUR + 1];
    let ends = vec![30 * MINUTE, 2 * HOUR, 5 * HOUR];
    let (dates_w, deltas) =
        iter_burndown_dates(Resolution::Hours, 1, Aggregation::Windowed, &starts, &ends).unwrap();
    let (dates_c, cumul) =
        iter_burndown_dates(Resolution::Hours, 1, Aggregation::Cumulative, &starts, &ends)
            .unwrap();
    assert_eq!(cumul.len(), 2 * deltas.len());
    assert_eq!(dates_c.len(), cumul.len());
    // The final emitted value is the net of all openings and closings.
    assert_eq!(
        *cumul.last().unwrap(),
        starts.len() as i64 - ends.len() as i64
    );
    // Each window's pair of emissions differs by exactly its net delta and
    // carries the window's start instant.
    for k in 0..deltas.len() {
        assert_eq!(cumul[2 * k + 1] - cumul[2 * k], deltas[k]);
        assert_eq!(dates_c[2 * k], dates_w[k]);
        assert_eq!(dates_c[2 * k + 1], dates_w[k]);
    }
    // Timestamps never decrease.
    for k in 1..dates_c.len() {
        assert!(dates_c[k - 1] <= dates_c[k]);
    }
}

#[test]
fn window_starts_step_by_exactly_one_duration() {
    let starts = vec![3, 5 * HOUR];
    let ends = vec![4, 13 * HOUR];
    let (dates, _) =
        iter_burndown_dates(Resolution::Hours, 2, Aggregation::Windowed, &starts, &ends).unwrap();
    assert_eq!(dates.len(), 7);
    for k in 1..dates.len() {
        assert_eq!(dates[k] - dates[k - 1], 2 * HOUR);
    }
    assert_eq!(dates[0], 3);
}

#[test]
fn every_event_is_counted_exactly_once() {
    // Coverage: all events lie within [min(starts), max(ends)], so the
    // per-window counts add up to the event totals.
    let starts = vec![0, 1, MINUTE, 90 * SECOND, 7 * MINUTE];
    let ends = vec![30 * SECOND, 2 * MINUTE, 2 * MINUTE, 8 * MINUTE];
    let w = bucket_events(MINUTE, &starts, &ends).unwrap();
    let counted_starts: usize = w.start_counts.iter().sum();
    let counted_ends: usize = w.end_counts.iter().sum();
    assert_eq!(counted_starts, starts.len());
    assert_eq!(counted_ends, ends.len());
}

#[test]
fn compute_burndown_renders_rfc3339_timestamps() {
    let starts = vec![0];
    let ends = vec![2 * HOUR];
    let (texts, values) =
        compute_burndown("hour", 1, Aggregation::Windowed, &starts, &ends).unwrap();
    assert_eq!(
        texts,
        vec![
            "1970-01-01T00:00:00+00:00",
            "1970-01-01T01:00:00+00:00",
            "1970-01-01T02:00:00+00:00",
        ]
    );
    assert_eq!(values, vec![1, 0, -1]);
}

#[test]
fn compute_burndown_cumulative_matches_step_function() {
    let starts = vec![0];
    let ends = vec![2 * HOUR];
    let (texts, values) =
        compute_burndown("H", 1, Aggregation::Cumulative, &starts, &ends).unwrap();
    assert_eq!(values, vec![0, 1, 1, 1, 1, 0]);
    assert_eq!(texts.len(), 6);
    assert_eq!(texts[0], "1970-01-01T00:00:00+00:00");
    assert_eq!(texts[0], texts[1]);
    assert_eq!(texts[2], "1970-01-01T01:00:00+00:00");
    assert_eq!(texts[4], "1970-01-01T02:00:00+00:00");
}

#[test]
fn compute_burndown_propagates_errors() {
    let starts = vec![0];
    let ends = vec![HOUR];
    match compute_burndown("fortnight", 1, Aggregation::Cumulative, &starts, &ends) {
        Err(BurndownError::InvalidResolution(s)) => assert_eq!(s, "fortnight"),
        other => panic!("expected InvalidResolution, got {:?}", other),
    }
    assert!(matches!(
        compute_burndown("hour", 0, Aggregation::Cumulative, &starts, &ends),
        Err(BurndownError::InvalidDuration)
    ));
    let empty: Vec<i64> = vec![];
    assert!(matches!(
        compute_burndown("hour", 1, Aggregation::Cumulative, &empty, &ends),
        Err(BurndownError::EmptyEventSet)
    ));
}

#[test]
fn rfc3339_rendering_handles_subseconds_and_negative_instants() {
    assert_eq!(instant_to_rfc3339(0), "1970-01-01T00:00:00+00:00");
    assert_eq!(
        instant_to_rfc3339(SECOND + SECOND / 2),
        "1970-01-01T00:00:01.500+00:00"
    );
    assert_eq!(instant_to_rfc3339(-SECOND), "1969-12-31T23:59:59+00:00");
    assert_eq!(
        instant_to_rfc3339(-1),
        "1969-12-31T23:59:59.999999999+00:00"
    );
}

#[test]
fn weekly_resolution_buckets_by_week() {
    let starts = vec![0, 6 * DAY, 8 * DAY];
    let ends = vec![13 * DAY];
    let (dates, deltas) =
        iter_burndown_dates(Resolution::Weeks, 1, Aggregation::Windowed, &starts, &ends).unwrap();
    assert_eq!(dates, vec![0, WEEK]);
    assert_eq!(deltas, vec![2, 0]);
}
