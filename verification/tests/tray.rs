use sub_switcher::accounts::Account;
use sub_switcher::clock::Instant;
use sub_switcher::tray::{status_for, Line, UsageView};
use sub_switcher::usage::{Limits, Percent, ResetCredits, Usage, Window};

fn reading() -> Usage {
    let weekly = Window {
        used_percent: Percent { bits: 73f32.to_bits() },
        limit_window_seconds: 604800,
        reset_at: Some(2000000000),
    };
    let decoded = Usage {
        rate_limit: Some(Limits { primary_window: Some(weekly), secondary_window: None }),
        rate_limit_reset_credits: Some(ResetCredits { available_count: 2 }),
        pending_reset: false,
        reset_details: None,
        reset_details_error: None,
    };
    Usage::parse(true, decoded).unwrap()
}

fn texts(lines: &[Line]) -> Vec<String> {
    lines
        .iter()
        .filter_map(|l| match l {
            Line::Text(s) => Some(s.clone()),
            _ => None,
        })
        .collect()
}

#[test]
fn tray_shows_only_reported_windows_and_marks_stale_values() {
    let account = Account { id: "a".repeat(64), email: "demo@example.test".into(), plan: "pro".into() };
    let view = UsageView {
        data: Some(reading()),
        checked: Some(Instant { secs: 1_900_000_000, nanos: 0 }),
        error: Some("offline".into()),
    };
    let status = status_for(Some(&account), Some(&view), false);
    assert!(status.account.contains("demo@example.test"));
    assert!(status.lines.iter().any(|l| matches!(l, Line::Used(w)
        if w.label() == "Weekly" && w.used_percent.bits == 73f32.to_bits())));
    assert!(!status.lines.iter().any(|l| matches!(l, Line::Used(w) if w.label() == "5h")));
    assert!(texts(&status.lines).iter().any(|s| s.contains("nieaktualne")));
    assert!(texts(&status.lines).iter().any(|s| s.contains("Dostępne restarty: 2")));
    let empty = status_for(None, Some(&view), false);
    assert_eq!(empty.account, "Nie wybrano konta");
    assert!(!empty.lines.iter().any(|l| matches!(l, Line::Used(_))));
}

#[test]
fn tray_lines_follow_the_reading_state() {
    let account = Account { id: "b".repeat(64), email: "x@example.test".into(), plan: "plus".into() };
    let status = status_for(Some(&account), None, true);
    assert_eq!(status.account, "x@example.test · plus");
    assert_eq!(texts(&status.lines), ["Pobieranie limitów…", "Odświeżanie…"]);
    let none = Usage { rate_limit: None, ..reading() };
    let view = UsageView { data: Some(none), checked: None, error: None };
    let status = status_for(Some(&account), Some(&view), false);
    assert_eq!(texts(&status.lines), ["Brak udostępnionych okien limitów", "Dostępne restarty: 2"]);
    let idle = status_for(Some(&account), None, false);
    assert_eq!(texts(&idle.lines), ["Limity niedostępne"]);
    let checked = UsageView { data: Some(reading()), checked: Some(Instant { secs: 7, nanos: 0 }), error: None };
    let status = status_for(Some(&account), Some(&checked), false);
    assert!(matches!(status.lines.last(), Some(Line::Checked(t)) if t.secs == 7));
    assert!(matches!(status.lines[0], Line::Used(_)));
    assert!(matches!(status.lines[1], Line::Reset(_)));
}
