use sub_switcher::activity::{minute_changed, Activity};

#[test]
fn one_refresh_at_a_time_and_only_the_latest_applies() {
    let mut a = Activity::new();
    assert_eq!(a.start_refresh(true, true), Some(1));
    assert!(a.usage_loading);
    assert_eq!(a.start_refresh(true, true), None);
    assert!(!a.finish_refresh(0));
    assert!(a.usage_loading);
    assert!(a.finish_refresh(1));
    assert!(!a.usage_loading);
    assert_eq!(a.start_refresh(false, true), None);
    assert_eq!(a.start_refresh(true, false), None);
    assert_eq!(a.usage_generation, 1);
    assert_eq!(a.start_refresh(true, true), Some(2));
}

#[test]
fn operations_exclude_each_other_and_resets_wait_for_refreshes() {
    let mut a = Activity::new();
    assert!(a.start_work());
    assert!(!a.start_work());
    assert_eq!(a.start_refresh(true, true), None);
    a.finish_work();
    assert!(!a.busy);
    assert_eq!(a.start_refresh(true, true), Some(1));
    assert!(!a.start_reset());
    assert!(a.finish_refresh(1));
    assert!(a.start_reset());
    assert!(a.busy);
}

#[test]
fn the_shown_minute_changes_on_minute_boundaries() {
    assert!(!minute_changed(60, 119));
    assert!(minute_changed(119, 120));
    assert!(!minute_changed(-59, 59));
    assert!(minute_changed(-60, 0));
}
