use sub_switcher::notifications::{Authorization, Notification, Notifications};
use sub_switcher::clock::Instant;
use sub_switcher::resets::Credit;
use sub_switcher::tray::{UsageBook, UsageView};
use sub_switcher::ui::{
    credit_badge, reading_fresh, remove_dialog_title, remove_disabled_reason, reset_confirmable,
    reset_disabled_reason, BudgetStatus, CreditBadge, activate_button, row_limits_note,
    row_resets_text, row_warnings,
};
use sub_switcher::usage::{Limits, Percent, ResetCredits, Usage, Window};
use sub_switcher::windows::{toggle_action, PanelActivation, PanelToggle};

fn notification(tag: &str, body: &str) -> Notification {
    Notification { tag: tag.to_owned(), title: "Reset".into(), body: body.to_owned() }
}

#[test]
fn permission_result_releases_queued_notifications_once() {
    let mut state = Notifications::new();
    let first = notification("account-a", "5h");
    let second = notification("account-b", "7d");
    state.show(first.clone());
    state.show(second.clone());
    assert_eq!(state.authorization(), Authorization::Checking);
    let delivered = state.resolve(Authorization::Granted);
    assert_eq!(delivered.len(), 2);
    assert!(delivered.contains(&first));
    assert!(delivered.contains(&second));
    assert!(state.resolve(Authorization::Granted).is_empty());
}

#[test]
fn denial_or_error_never_delivers_or_replays_old_notifications() {
    for authorization in [
        Authorization::Denied,
        Authorization::Unavailable,
        Authorization::Failed,
        Authorization::Demo,
    ] {
        let mut state = Notifications::new();
        state.show(notification("account-a", "5h"));
        assert!(state.resolve(authorization).is_empty());
        assert_eq!(state.authorization(), authorization);
        assert!(state.resolve(Authorization::Granted).is_empty());
    }
}

#[test]
fn a_newer_notification_replaces_one_with_the_same_tag() {
    let mut state = Notifications::new();
    assert!(!state.show(notification("account-a", "old")));
    assert!(!state.show(notification("account-a", "new")));
    let delivered = state.resolve(Authorization::Granted);
    assert_eq!(delivered, vec![notification("account-a", "new")]);
}

#[test]
fn delivery_rechecks_permission_unless_a_check_runs() {
    let mut state = Notifications::new();
    state.resolve(Authorization::Granted);
    assert!(state.can_test());
    assert!(state.show(notification("a", "x")));
    assert_eq!(state.authorization(), Authorization::Checking);
    assert!(!state.can_test());
    assert!(!state.show(notification("b", "y")));
    let mut demo = Notifications::new();
    demo.set_demo();
    assert!(!demo.show(notification("a", "x")));
    assert!(!demo.can_test());
    assert!(demo.resolve(Authorization::Granted).is_empty());
    assert_eq!(demo.status(), "Notifications: permission granted");
}

#[test]
fn permission_status_lines() {
    let mut state = Notifications::new();
    assert_eq!(state.status(), "Notifications: waiting for macOS permission…");
    state.resolve(Authorization::Unavailable);
    assert_eq!(state.status(), "Notifications require running Codex Sub Switcher.app.");
    state.set_demo();
    assert_eq!(state.status(), "Demo mode · system notifications disabled");
}

#[test]
fn reset_reason_matches_pending_and_credit_rules() {
    assert_eq!(
        reset_disabled_reason(false, false, false, false, true),
        Some("Refresh limits to use a reset")
    );
    assert_eq!(
        reset_disabled_reason(false, false, false, true, false),
        Some("No eligible reset credits")
    );
    assert_eq!(reset_disabled_reason(false, false, true, false, false), None);
    assert_eq!(
        reset_disabled_reason(false, true, true, true, true),
        Some("Refreshing limits before a reset can be used")
    );
}

#[test]
fn busy_blocks_every_account_action() {
    assert_eq!(
        reset_disabled_reason(true, false, true, true, true),
        Some("Another account operation is in progress")
    );
    assert_eq!(
        remove_disabled_reason(true, false),
        Some("Another account operation is in progress")
    );
    assert_eq!(reset_disabled_reason(false, false, false, true, true), None);
}

#[test]
fn active_account_explains_remove_block() {
    assert_eq!(
        remove_disabled_reason(false, true),
        Some("Activate another account before removing this one")
    );
    assert_eq!(remove_disabled_reason(false, false), None);
}

#[test]
fn remove_confirmation_identifies_the_selected_account() {
    assert_eq!(remove_dialog_title("Account a1b2c3d4"), "Remove “Account a1b2c3d4”?");
    assert_eq!(remove_dialog_title("Account e5f6a7b8"), "Remove “Account e5f6a7b8”?");
}

#[test]
fn opening_from_another_app_ignores_initial_inactive_notifications() {
    let mut panel = PanelActivation::default();
    assert!(!panel.changed(false));
    assert!(!panel.changed(false));
    assert!(!panel.changed(true));
    assert!(!panel.changed(true));
    assert!(panel.changed(false));
    assert!(!panel.changed(false));
}

#[test]
fn panel_already_active_at_creation_dismisses_on_first_blur() {
    let mut panel = PanelActivation { active: true };
    assert!(panel.changed(false));
}

#[test]
fn status_item_click_right_after_dismissal_is_ignored() {
    assert_eq!(toggle_action(Some(100), true), PanelToggle::Ignore);
    assert_eq!(toggle_action(Some(249), false), PanelToggle::Ignore);
    assert_eq!(toggle_action(Some(250), false), PanelToggle::Show);
    assert_eq!(toggle_action(None, true), PanelToggle::Close);
    assert_eq!(toggle_action(None, false), PanelToggle::Show);
}

#[test]
fn a_reading_is_fresh_for_two_minutes_without_errors() {
    let t = |secs: i64, nanos: u32| Instant { secs, nanos };
    let mut view = UsageView::new();
    assert!(!reading_fresh(Some(&view), t(100, 0)));
    view.record(Err("offline".into()), t(100, 0));
    assert!(!reading_fresh(Some(&view), t(100, 0)));
    view.error = None;
    view.checked = Some(t(100, 500));
    assert!(reading_fresh(Some(&view), t(219, 999_999_999)));
    assert!(reading_fresh(Some(&view), t(220, 499)));
    assert!(!reading_fresh(Some(&view), t(220, 500)));
    assert!(reading_fresh(Some(&view), t(0, 0)));
    assert!(!reading_fresh(None, t(100, 0)));
}

#[test]
fn failed_readings_keep_data_and_mark_it_stale() {
    let mut view = UsageView::new();
    view.interrupted();
    assert_eq!(view.error.as_deref(), Some("Reading the limits was interrupted."));
    assert!(view.data.is_none() && view.checked.is_none());
}

fn book_reading<'a>(book: &'a UsageBook, id: &str) -> Option<&'a UsageView> {
    book.entries.iter().rev().find(|(k, _)| k == id).map(|(_, v)| v)
}

#[test]
fn refreshes_track_listed_accounts_only() {
    let t = Instant { secs: 50, nanos: 0 };
    let listed = vec!["a".to_string(), "b".to_string()];
    let mut book = UsageBook::new();
    book.record(&listed, "a", Ok(reading(true, Some(1))), t);
    book.record(&listed, "gone", Ok(reading(true, None)), t);
    assert!(book_reading(&book, "gone").is_none());
    assert_eq!(book_reading(&book, "a").unwrap().checked, Some(t));
    book.record(&listed, "a", Err("offline".into()), Instant { secs: 60, nanos: 0 });
    let a = book_reading(&book, "a").unwrap();
    assert_eq!(a.checked, Some(t));
    assert!(a.data.is_some());
    assert_eq!(a.error.as_deref(), Some("offline"));
    book.interrupt(&listed);
    assert_eq!(book_reading(&book, "a").unwrap().error.as_deref(), Some("Reading the limits was interrupted."));
    assert_eq!(book_reading(&book, "a").unwrap().checked, Some(t));
    let b = book_reading(&book, "b").unwrap();
    assert!(b.data.is_none() && b.checked.is_none());
    book.retain_listed(&vec!["b".to_string()]);
    assert!(book_reading(&book, "a").is_none());
    assert!(book_reading(&book, "b").is_some());
}

#[test]
fn credits_are_marked_expired_next_or_available() {
    let now = Instant { secs: 1000, nanos: 0 };
    let credit = |id: &str, expires: Option<i64>| Credit {
        id: id.into(),
        expires_at: expires.map(|secs| Instant { secs, nanos: 0 }),
        granted_at: Instant { secs: 0, nanos: 0 },
        available: true,
    };
    assert_eq!(credit_badge(&credit("a", Some(999)), Some("a"), now), CreditBadge::Expired);
    assert_eq!(credit_badge(&credit("a", Some(1000)), Some("a"), now), CreditBadge::Expired);
    assert_eq!(credit_badge(&credit("a", Some(1001)), Some("a"), now), CreditBadge::NextToUse);
    assert_eq!(credit_badge(&credit("b", None), Some("a"), now), CreditBadge::Available);
    assert_eq!(credit_badge(&credit("b", None), None, now).label(), "Available");
    assert_eq!(CreditBadge::NextToUse.label(), "Next to use");
}

#[test]
fn a_reset_goes_ahead_only_for_the_credit_still_offered_first() {
    assert!(reset_confirmable(true, None, None));
    assert!(reset_confirmable(false, Some("c1"), Some("c1")));
    assert!(!reset_confirmable(false, Some("c2"), Some("c1")));
    assert!(!reset_confirmable(false, None, Some("c1")));
    assert!(!reset_confirmable(false, Some("c1"), None));
}

#[test]
fn weekly_budget_labels() {
    assert_eq!(BudgetStatus::Below.label(), "Faster than weekly budget");
    assert_eq!(BudgetStatus::On.label(), "On pace with weekly budget");
    assert_eq!(BudgetStatus::Within.label(), "Slower than weekly budget");
}

fn reading(windows: bool, credits: Option<u32>) -> Usage {
    let w = Window { used_percent: Percent { bits: 0 }, limit_window_seconds: 18000, reset_at: None };
    Usage {
        rate_limit: Some(Limits { primary_window: if windows { Some(w) } else { None }, secondary_window: None }),
        rate_limit_reset_credits: credits.map(|n| ResetCredits { available_count: n }),
        pending_reset: false,
        reset_details: None,
        reset_details_error: None,
    }
}

#[test]
fn account_rows_explain_activation_counts_and_missing_limits() {
    let b = activate_button(true, true, false);
    assert_eq!((b.label, b.tooltip, b.disabled), ("Active", "This account is active", true));
    let b = activate_button(false, false, false);
    assert_eq!((b.label, b.disabled), ("Activate", true));
    assert_eq!(b.tooltip, "The proxy is unavailable; open connection info in Settings");
    let b = activate_button(false, true, true);
    assert_eq!((b.tooltip, b.disabled), ("Wait for the current account operation to finish", true));
    let b = activate_button(false, true, false);
    assert_eq!((b.tooltip, b.disabled), ("Use this account for the next request", false));
    assert_eq!(row_resets_text(None), "· — resets");
    assert_eq!(row_resets_text(Some(&reading(true, Some(1)))), "· 1 reset");
    assert_eq!(row_resets_text(Some(&reading(true, Some(2)))), "· 2 resets");
    assert_eq!(row_limits_note(None, true), Some("Loading limits…"));
    assert_eq!(row_limits_note(None, false), Some("Limits unavailable"));
    assert_eq!(row_limits_note(Some(&reading(false, None)), false), Some("No limit windows reported"));
    assert_eq!(row_limits_note(Some(&reading(true, None)), false), None);
    let mut data = reading(true, None);
    assert!(row_warnings(Some(&data)).is_empty());
    data.pending_reset = true;
    data.reset_details_error = Some("x".into());
    assert_eq!(row_warnings(Some(&data)), ["Reset needs confirmation", "Reset data is outdated"]);
}
