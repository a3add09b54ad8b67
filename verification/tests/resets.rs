use sub_switcher::accounts::Store;
use sub_switcher::clock::Instant;
use sub_switcher::resets::{
    finish, pending, read_request, request, request_path, Credits, CreditsError, Outcome,
    ResetError, Response,
};

fn store() -> Store {
    Store { codex_home: "/tmp/codex".into(), root: "/tmp/store".into() }
}

fn at(text: &str) -> Instant {
    let t = chrono::DateTime::parse_from_rfc3339(text).unwrap();
    Instant { secs: t.timestamp(), nanos: t.timestamp_subsec_nanos() }
}

fn credit(id: &str, expires: Option<&str>, status: &str, kind: &str) -> String {
    let expires = match expires {
        Some(e) => format!("\"{e}\""),
        None => "null".to_string(),
    };
    format!(
        r#"{{"id":"{id}","reset_type":"{kind}","status":"{status}","granted_at":"2026-09-01T00:00:00Z","expires_at":{expires}}}"#
    )
}

fn listing(first_expiry: &str) -> String {
    let credits = [
        credit("no-expiry", None, "available", "codex_rate_limits"),
        credit("later", Some("2026-09-12T10:00:00Z"), "available", "codex_rate_limits"),
        credit("earliest", Some("2026-09-12T11:00:00+02:00"), "available", "codex_rate_limits"),
        credit("expired", Some("2026-09-09T10:00:00Z"), "available", "codex_rate_limits"),
        credit("used", Some("2026-09-11T10:00:00Z"), "redeemed", "codex_rate_limits"),
        credit("unknown", Some("2026-09-11T10:00:00Z"), "available", "future_type"),
    ];
    let mut credits = credits.to_vec();
    if first_expiry != "null" {
        credits[0] = credits[0].replace("\"expires_at\":null", &format!("\"expires_at\":\"{first_expiry}\""));
    }
    format!(r#"{{"available_count":3,"credits":[{}]}}"#, credits.join(","))
}

#[test]
fn selects_earliest_expiry_by_instant_and_skips_ineligible_credits() {
    let mut details = Credits::parse(listing("null").as_bytes()).unwrap();
    let now = at("2026-09-10T00:00:00Z");
    assert_eq!(details.next(now).unwrap().id, "earliest");
    let later = Instant { secs: now.secs + 3 * 86400, nanos: 0 };
    assert_eq!(details.next(later).unwrap().id, "no-expiry");
    details.available_count = 0;
    assert!(details.next(now).is_none());
    assert!(Credits::parse(listing("invalid").as_bytes()).is_err());
}

#[test]
fn credits_are_ordered_by_instant_then_grant_then_id() {
    let details = Credits::parse(listing("null").as_bytes()).unwrap();
    let ids: Vec<&str> = details.credits.iter().map(|c| c.id.as_str()).collect();
    assert_eq!(ids, ["expired", "unknown", "used", "earliest", "later", "no-expiry"]);
    assert_eq!(details.available_count, 3);
}

#[test]
fn credit_listing_errors_name_their_cause() {
    assert_eq!(Credits::parse(b"not json").err(), Some(CreditsError::Malformed));
    assert_eq!(Credits::parse(b"{\"credits\":[]}").err(), Some(CreditsError::Malformed));
    let twice = format!(
        r#"{{"available_count":1,"credits":[{},{}]}}"#,
        credit("same", None, "available", "codex_rate_limits"),
        credit("same", None, "available", "codex_rate_limits")
    );
    assert_eq!(Credits::parse(twice.as_bytes()).err(), Some(CreditsError::InvalidIds));
    assert_eq!(
        Credits::parse(listing("invalid").as_bytes()).err(),
        Some(CreditsError::InvalidDate)
    );
    let many: Vec<String> = (0..1001)
        .map(|i| credit(&format!("c{i}"), None, "available", "codex_rate_limits"))
        .collect();
    let many = format!(r#"{{"available_count":1,"credits":[{}]}}"#, many.join(","));
    assert_eq!(Credits::parse(many.as_bytes()).err(), Some(CreditsError::TooMany));
}

#[test]
fn a_new_reset_requires_an_explicit_credit() {
    let store = store();
    let id = "a".repeat(64);
    assert!(request(&store, &id, None, None).is_err());
    assert_eq!(request(&store, &id, Some(""), None).err(), Some(ResetError::NeedsCredit));
    assert!(!pending(&store, &id, false).unwrap());
}

#[test]
fn ambiguous_request_reuses_key_across_store_instances_and_accounts_are_isolated() {
    let store = store();
    let a = "a".repeat(64);
    let b = "b".repeat(64);
    let (key, fresh) = request(&store, &a, Some("credit-a"), None).unwrap();
    assert!(fresh);
    let record = key.to_json();
    let other = Store { codex_home: store.codex_home.clone(), root: store.root.clone() };
    let (again, fresh) = request(&other, &a, Some("different-credit"), Some(record.clone())).unwrap();
    assert!(!fresh);
    assert_eq!(again, key);
    assert_ne!(request(&store, &b, Some("credit-b"), None).unwrap().0, key);
    assert!(finish(&store, &a, "wrong", &record).is_err());
    assert_eq!(request(&store, &a, Some("credit-a"), Some(record.clone())).unwrap().0, key);
    let path = finish(&store, &a, &key.redeem_request_id, &record).unwrap();
    assert_eq!(path, request_path(&store, &a).unwrap());
    assert_ne!(request(&store, &a, Some("credit-a"), None).unwrap().0, key);
}

#[test]
fn fresh_keys_are_random_hex() {
    let (one, _) = request(&store(), &"c".repeat(64), Some("x"), None).unwrap();
    let (two, _) = request(&store(), &"c".repeat(64), Some("x"), None).unwrap();
    assert_eq!(one.redeem_request_id.len(), 64);
    assert!(one.redeem_request_id.bytes().all(|b| b.is_ascii_hexdigit() && !b.is_ascii_uppercase()));
    assert_ne!(one.redeem_request_id, two.redeem_request_id);
    assert_eq!(one.credit_id.as_deref(), Some("x"));
}

#[test]
fn saved_records_of_both_formats_are_read() {
    let key = "0123456789abcdef".repeat(4);
    let bare = read_request(format!("\"{key}\"").as_bytes()).unwrap();
    assert_eq!(bare.redeem_request_id, key);
    assert_eq!(bare.credit_id, None);
    let current = read_request(
        format!(r#"{{"redeem_request_id":"{key}","credit_id":"credit-z"}}"#).as_bytes(),
    )
    .unwrap();
    assert_eq!(current.credit_id.as_deref(), Some("credit-z"));
    assert_eq!(read_request(b"{").err(), Some(ResetError::Malformed));
    assert_eq!(read_request(b"\"short\"").err(), Some(ResetError::InvalidRecord));
    assert_eq!(
        read_request(format!(r#"{{"redeem_request_id":"{key}","credit_id":""}}"#).as_bytes()).err(),
        Some(ResetError::InvalidRecord)
    );
}

#[test]
fn invalid_profiles_and_changed_records_are_refused() {
    let store = store();
    assert_eq!(pending(&store, "../../auth", true).err(), Some(ResetError::InvalidProfile));
    assert_eq!(request_path(&store, "g".repeat(64).as_str()).err(), Some(ResetError::InvalidProfile));
    assert!(request_path(&store, &"A".repeat(64)).is_ok());
    let a = "a".repeat(64);
    assert!(pending(&store, &a, true).unwrap());
    assert_eq!(
        request_path(&store, &a).unwrap(),
        format!("/tmp/store/reset-{a}.json")
    );
    let key = "f".repeat(64);
    let record = format!("\"{key}\"").into_bytes();
    assert_eq!(finish(&store, &a, &"e".repeat(64), &record).err(), Some(ResetError::RecordChanged));
}

#[test]
fn reset_outcomes_are_explicit_and_unknown_codes_are_refused() {
    assert_eq!(Response::parse(br#"{"code":"reset"}"#).unwrap().code, Outcome::Reset);
    assert_eq!(
        Response::parse(br#"{"code":"nothing_to_reset"}"#).unwrap().code,
        Outcome::NothingToReset
    );
    assert_eq!(Response::parse(br#"{"code":"no_credit"}"#).unwrap().code, Outcome::NoCredit);
    assert_eq!(
        Response::parse(br#"{"code":"already_redeemed"}"#).unwrap().code,
        Outcome::AlreadyRedeemed
    );
    assert!(Response::parse(br#"{"code":"future_unknown"}"#).is_none());
    assert!(Response::parse(br#"["reset"]"#).is_none());
    assert_eq!(Outcome::Reset.message(), "A reset was used. Fetching current limits.");
    assert_eq!(Outcome::AlreadyRedeemed.message(), "This reset was already used. Fetching current limits.");
    assert_eq!(Outcome::NothingToReset.message(), "No reset is needed now.");
    assert_eq!(Outcome::NoCredit.message(), "This account has no reset credit available.");
}

#[test]
fn each_account_keeps_its_own_reset_record() {
    let store = store();
    let a = request_path(&store, &"a".repeat(64)).unwrap();
    let b = request_path(&store, &"b".repeat(64)).unwrap();
    assert_ne!(a, b);
    assert!(a.ends_with(&format!("reset-{}.json", "a".repeat(64))));
}

#[test]
fn saved_records_read_back_as_written() {
    let key = "0123456789abcdef".repeat(4);
    for credit in [None, Some("credit-a".to_string()), Some("odd \"credit\" \\ id".to_string())] {
        let record = sub_switcher::resets::Request { redeem_request_id: key.clone(), credit_id: credit };
        assert_eq!(read_request(&record.to_json()).unwrap(), record);
    }
    let record = sub_switcher::resets::Request { redeem_request_id: key.clone(), credit_id: None };
    assert_eq!(record.to_json(), format!("{{\"redeem_request_id\":\"{key}\"}}").into_bytes());
}

#[test]
fn expiry_lines_name_the_local_date() {
    let mut c = sub_switcher::resets::Credit {
        id: "c".into(),
        expires_at: Some(Instant { secs: 1, nanos: 0 }),
        granted_at: Instant { secs: 0, nanos: 0 },
        available: true,
    };
    assert_eq!(c.expiry_label("01.01.1970 00:00 UTC"), "Expires 01.01.1970 00:00 UTC");
    c.expires_at = None;
    assert_eq!(c.expiry_label("ignored"), "No expiration date");
}
