use sub_switcher::clock::{timestamp_in_range, Instant, MAX_TIMESTAMP, MIN_TIMESTAMP};
use sub_switcher::usage::{Limits, Percent, ResetTiming, Usage, UsageError, Window};

fn pct(v: f32) -> Percent {
    Percent { bits: v.to_bits() }
}

fn window(seconds: i64) -> Window {
    Window { used_percent: pct(42.5), limit_window_seconds: seconds, reset_at: Some(2000000000) }
}

fn usage(primary: Option<Window>, secondary: Option<Window>) -> Usage {
    Usage {
        rate_limit: Some(Limits { primary_window: primary, secondary_window: secondary }),
        rate_limit_reset_credits: None,
        pending_reset: false,
        reset_details: None,
        reset_details_error: None,
    }
}

fn labels(u: &Usage) -> Vec<String> {
    u.windows().iter().map(|w| w.label()).collect()
}

#[test]
fn weekly_only_primary_is_not_five_hours() {
    let u = Usage::parse(true, usage(Some(window(604800)), None)).unwrap();
    assert_eq!(u.windows().len(), 1);
    assert_eq!(u.windows()[0].label(), "Weekly");
}

#[test]
fn both_windows_and_absent_limits() {
    let u = Usage::parse(true, usage(Some(window(18000)), Some(window(604800)))).unwrap();
    assert_eq!(labels(&u), ["5h", "Weekly"]);
    let none = Usage { rate_limit: None, ..usage(None, None) };
    assert_eq!(Usage::parse(true, none).unwrap().windows().len(), 0);
    let absent = Usage { rate_limit: None, ..usage(None, None) };
    assert_eq!(Usage::parse(false, absent).err(), Some(UsageError::MissingLimits));
}

#[test]
fn malformed_data_is_not_zero_usage() {
    for used in [-1.0f32, 101.0, f32::NAN, f32::INFINITY] {
        let w = Window { used_percent: pct(used), limit_window_seconds: 18000, reset_at: None };
        assert_eq!(Usage::parse(true, usage(Some(w), None)).err(), Some(UsageError::InvalidLimits));
    }
    let w = Window { used_percent: pct(10.0), limit_window_seconds: 0, reset_at: None };
    assert_eq!(Usage::parse(true, usage(Some(w), None)).err(), Some(UsageError::InvalidLimits));
    let w = Window { used_percent: pct(10.0), limit_window_seconds: 18000, reset_at: Some(i64::MAX) };
    assert_eq!(Usage::parse(true, usage(Some(w), None)).err(), Some(UsageError::InvalidResetDate));
    for used in [0.0f32, -0.0, 100.0, 42.5] {
        let w = Window { used_percent: pct(used), limit_window_seconds: 18000, reset_at: None };
        assert!(Usage::parse(true, usage(Some(w), None)).is_ok());
    }
}

#[test]
fn expired_window_is_not_assumed_reset() {
    let w = Window { used_percent: pct(100.0), limit_window_seconds: 18000, reset_at: Some(1000) };
    assert!(w.reset_label(Instant { secs: 1001, nanos: 0 }).contains("waiting"));
    assert_eq!(w.reset_timing(Instant { secs: 1000, nanos: 0 }), ResetTiming::Waiting);
}

#[test]
fn reset_labels_count_whole_minutes_up() {
    let w = Window { used_percent: pct(1.0), limit_window_seconds: 18000, reset_at: Some(10_000) };
    let now = Instant { secs: 10_000 - 3661, nanos: 0 };
    assert_eq!(w.reset_timing(now), ResetTiming::Remaining(62));
    assert_eq!(w.reset_label_at(now, "May 1 10:00 UTC"), "Resets in 1h 2min · May 1 10:00 UTC");
    let far = Instant { secs: 10_000 - 2 * 86400 - 3600, nanos: 0 };
    assert_eq!(w.reset_label_at(far, "D"), "Resets in 2d 1h · D");
    let none = Window { reset_at: None, ..w };
    assert_eq!(none.reset_label_at(now, "D"), "Reset time unavailable");
    assert_eq!(none.reset_timing(now), ResetTiming::Unavailable);
    let past = Window { reset_at: Some(5), ..w };
    assert_eq!(past.reset_label_at(Instant { secs: 5, nanos: 1 }, "D"), "Reset D · waiting for updated data");
}

#[test]
fn window_labels_follow_the_duration() {
    let label = |s: i64| Window { limit_window_seconds: s, ..window(s) }.label();
    assert_eq!(label(18000), "5h");
    assert_eq!(label(604800), "Weekly");
    assert_eq!(label(86400), "1 day");
    assert_eq!(label(3 * 86400), "3 days");
    assert_eq!(label(7200), "2h");
    assert_eq!(label(90), "1 min");
}

fn reported(windows: &[(i64, f32)]) -> Usage {
    let w = |i: usize| {
        windows.get(i).map(|&(seconds, used)| Window {
            used_percent: pct(used),
            limit_window_seconds: seconds,
            reset_at: None,
        })
    };
    Usage::parse(true, usage(w(0), w(1))).unwrap()
}

#[test]
fn silent_reset_matches_window_duration_even_when_positions_change() {
    let previous = reported(&[(18000, 32.0), (604800, 89.0)]);
    let current = reported(&[(604800, 0.0), (18000, 0.0)]);
    assert_eq!(current.silent_resets_since(&previous), ["Weekly", "5h"]);
    assert_eq!(reported(&[(604800, 0.0)]).silent_resets_since(&previous), ["Weekly"]);
}

#[test]
fn silent_reset_requires_reported_positive_to_exact_zero_transition() {
    let previous = reported(&[(18000, 32.0)]);
    for current in [
        reported(&[]),
        reported(&[(604800, 0.0)]),
        reported(&[(18000, 0.01)]),
        reported(&[(18000, f32::EPSILON)]),
        reported(&[(18000, 32.0)]),
        reported(&[(18000, 90.0)]),
    ] {
        assert!(current.silent_resets_since(&previous).is_empty());
    }
    let zero = reported(&[(18000, 0.0)]);
    assert!(zero.silent_resets_since(&zero).is_empty());
    assert!(zero.silent_resets_since(&reported(&[])).is_empty());
    assert_eq!(zero.silent_resets_since(&reported(&[(18000, 0.01)])), ["5h"]);
}

#[test]
fn pending_manual_reset_is_not_a_silent_reset() {
    let mut previous = reported(&[(18000, 32.0)]);
    let mut current = reported(&[(18000, 0.0)]);
    previous.pending_reset = true;
    assert!(current.silent_resets_since(&previous).is_empty());
    previous.pending_reset = false;
    current.pending_reset = true;
    assert!(current.silent_resets_since(&previous).is_empty());
}

#[test]
fn smallest_positive_usage_before_counts_as_used() {
    let partially_used = reported(&[(18000, f32::EPSILON)]);
    assert_eq!(reported(&[(18000, 0.0)]).silent_resets_since(&partially_used), ["5h"]);
    let negative_zero = reported(&[(18000, -0.0)]);
    assert_eq!(negative_zero.silent_resets_since(&partially_used), ["5h"]);
}

#[test]
fn representable_timestamps_are_chronos_range() {
    for secs in [MIN_TIMESTAMP - 1, MIN_TIMESTAMP, -1, 0, 2_000_000_000, MAX_TIMESTAMP, MAX_TIMESTAMP + 1, i64::MIN, i64::MAX] {
        assert_eq!(timestamp_in_range(secs), chrono::DateTime::from_timestamp(secs, 0).is_some(), "{secs}");
    }
}
