use sha2::Digest;
use base64::Engine;
use base64::engine::general_purpose::URL_SAFE_NO_PAD;
use sub_switcher::accounts::{AuthError, CliConfig, Credential, Store, StoreError, MAX_AUTH};

fn jwt(claims: &str) -> String {
    format!("e30.{}.sig", URL_SAFE_NO_PAD.encode(claims.as_bytes()))
}

fn fixture(workspace: &str, user: &str, marker: &str) -> Vec<u8> {
    fixture_with_exp(workspace, user, marker, 4_000_000_000)
}

fn fixture_with_exp(workspace: &str, user: &str, marker: &str, exp: i64) -> Vec<u8> {
    let id_token = jwt(&format!(
        r#"{{"sub":"{user}","email":"{user}@example.test","https://api.openai.com/auth":{{"chatgpt_account_id":"{workspace}","chatgpt_plan_type":"plus"}}}}"#
    ));
    let access = jwt(&format!(r#"{{"exp":{exp},"marker":"{marker}"}}"#));
    format!(
        r#"{{"auth_mode":"chatgpt","OPENAI_API_KEY":null,"tokens":{{"id_token":"{id_token}","access_token":"{access}","refresh_token":"fake-refresh-{marker}","account_id":"{workspace}"}},"last_refresh":"2026-09-10T00:00:00Z"}}"#
    )
    .into_bytes()
}

fn store() -> Store {
    Store { codex_home: "/tmp/codex".into(), root: "/tmp/store".into() }
}

fn id_of(bytes: &[u8]) -> String {
    Credential::parse(bytes.to_vec()).unwrap().account.id.clone()
}

#[test]
fn malformed_auth_never_exposes_raw_secrets() {
    let err = Credential::parse(br#"{"OPENAI_API_KEY":"sk-do-not-print"}"#.to_vec())
        .err()
        .unwrap();
    assert!(!err.to_string().contains("sk-do-not-print"));
    assert!(Credential::parse(vec![0; MAX_AUTH + 1]).is_err());
}

#[test]
fn users_in_same_workspace_have_distinct_profiles() {
    assert_ne!(id_of(&fixture("team", "alice", "alice")), id_of(&fixture("team", "bob", "bob")));
}

#[test]
fn parse_reads_identity_workspace_and_token() {
    let bytes = fixture("ws-1", "carol", "m");
    let c = Credential::parse(bytes.clone()).unwrap();
    assert_eq!(c.account.email, "carol@example.test");
    assert_eq!(c.account.plan, "plus");
    assert_eq!(c.workspace(), "ws-1");
    assert_eq!(c.bytes(), &bytes[..]);
    assert_eq!(c.account.id.len(), 64);
    assert!(c.account.id.bytes().all(|b| b.is_ascii_hexdigit() && !b.is_ascii_uppercase()));
    assert!(c.access_token().starts_with("e30."));
}

#[test]
fn profile_id_is_sha256_of_workspace_and_subject() {
    let expected = format!("{:x}", sha2::Sha256::digest(b"ws-1\0carol"));
    assert_eq!(id_of(&fixture("ws-1", "carol", "m")), expected);
}

#[test]
fn parse_errors_are_reported_in_order() {
    assert_eq!(Credential::parse(b"not json".to_vec()).err(), Some(AuthError::InvalidFormat));
    assert_eq!(
        Credential::parse(br#"{"auth_mode":"apikey"}"#.to_vec()).err(),
        Some(AuthError::NotChatGpt)
    );
    assert_eq!(
        Credential::parse(br#"{"tokens":{"id_token":"a","access_token":"","refresh_token":"r"}}"#.to_vec()).err(),
        Some(AuthError::IncompleteLogin)
    );
    assert_eq!(
        Credential::parse(br#"{"tokens":{"id_token":"nodots","access_token":"a","refresh_token":"r"}}"#.to_vec()).err(),
        Some(AuthError::InvalidIdToken)
    );
    let not_json = format!("x.{}.y", URL_SAFE_NO_PAD.encode(b"not json"));
    assert_eq!(
        Credential::parse(format!(r#"{{"tokens":{{"id_token":"{not_json}","access_token":"a","refresh_token":"r"}}}}"#).into_bytes()).err(),
        Some(AuthError::InvalidMetadata)
    );
    let no_ws = jwt(r#"{"sub":"u"}"#);
    assert_eq!(
        Credential::parse(format!(r#"{{"tokens":{{"id_token":"{no_ws}","access_token":"a","refresh_token":"r"}}}}"#).into_bytes()).err(),
        Some(AuthError::MissingWorkspace)
    );
    let no_user = jwt(r#"{"https://api.openai.com/auth":{"chatgpt_account_id":"w"}}"#);
    assert_eq!(
        Credential::parse(format!(r#"{{"tokens":{{"id_token":"{no_user}","access_token":"a","refresh_token":"r"}}}}"#).into_bytes()).err(),
        Some(AuthError::MissingUser)
    );
}

#[test]
fn defaults_fill_missing_email_and_plan() {
    let token = jwt(r#"{"https://api.openai.com/auth":{"chatgpt_account_id":"w","chatgpt_user_id":"u"}}"#);
    let c = Credential::parse(
        format!(r#"{{"tokens":{{"id_token":"{token}=","access_token":"a","refresh_token":"r"}}}}"#).into_bytes(),
    )
    .unwrap();
    assert_eq!(c.account.email, "Konto ChatGPT");
    assert_eq!(c.account.plan, "nieznany plan");
    assert_eq!(c.workspace(), "w");
}

#[test]
fn expiry_is_read_from_the_access_token() {
    let c = Credential::parse(fixture_with_exp("a", "a", "a", 1000)).unwrap();
    assert!(c.expires_soon_at(700));
    assert!(!c.expires_soon_at(699));
    assert!(c.expires_soon());
    let far = Credential::parse(fixture_with_exp("a", "a", "a", 4_000_000_000)).unwrap();
    assert!(!far.expires_soon());
}

#[test]
fn invalid_target_and_active_removal_leave_selection_intact() {
    let s = store();
    let a = fixture("a", "a", "a");
    let a_id = id_of(&a);
    assert_eq!(s.switch(&a_id, Some(a.clone())).unwrap(), a_id);
    assert!(s.switch(&"f".repeat(64), None).is_err());
    assert_eq!(s.switch("../../auth", Some(a.clone())).err(), Some(StoreError::InvalidProfileId));
    let current = Credential::parse(a.clone()).unwrap().account.clone();
    assert_eq!(s.remove(&a_id, Some(&current)).err(), Some(StoreError::SwitchFirst));
    assert_eq!(s.active_id(Some(a_id.clone())).unwrap().unwrap(), a_id);
}

#[test]
fn switch_rejects_a_profile_holding_another_identity() {
    let s = store();
    let a = fixture("a", "a", "a");
    let b_id = id_of(&fixture("b", "b", "b"));
    assert_eq!(s.switch(&b_id, Some(a)).err(), Some(StoreError::IdentityMismatch));
}

#[test]
fn refresh_never_overwrites_newer_login() {
    let s = store();
    let original = fixture("a", "a", "a");
    let before = Credential::parse(original.clone()).unwrap();
    let newer = fixture("a", "a", "new-login");
    assert_eq!(
        s.persist_refresh(&before, &before, Some(newer)).err(),
        Some(StoreError::ProfileChanged)
    );
    assert!(s.persist_refresh(&before, &before, Some(original)).is_ok());
    let other = Credential::parse(fixture("b", "b", "b")).unwrap();
    assert_eq!(
        s.persist_refresh(&before, &other, None).err(),
        Some(StoreError::RefreshChangedIdentity)
    );
}

#[test]
fn file_import_rejects_keyring_and_duplicate_stale_auth() {
    let s = store();
    let bytes = fixture("a", "a", "a");
    let keyring = CliConfig::read(Some("cli_auth_credentials_store = 'keyring'\n")).unwrap();
    assert_eq!(
        s.import_current(&keyring, Some(bytes.clone()), &Vec::new()).err(),
        Some(StoreError::UnsupportedStore)
    );
    let empty = CliConfig::read(Some("")).unwrap();
    let c = s.import_current(&empty, Some(bytes.clone()), &Vec::new()).unwrap();
    assert_eq!(
        s.import_current(&empty, Some(bytes), &vec![c.account.id.clone()]).err(),
        Some(StoreError::AlreadySaved)
    );
    assert_eq!(s.import_current(&empty, None, &Vec::new()).err(), Some(StoreError::NoCliLogin));
}

#[test]
fn config_rules_cover_login_method_and_workspace() {
    let s = store();
    let bytes = fixture("team", "a", "a");
    let method = CliConfig::read(Some("forced_login_method = 'api'\n")).unwrap();
    assert_eq!(s.import_from(&method, Some(bytes.clone())).err(), Some(StoreError::LoginMethod));
    let other = CliConfig::read(Some("forced_chatgpt_workspace_id = 'other'\n")).unwrap();
    assert_eq!(s.import_from(&other, Some(bytes.clone())).err(), Some(StoreError::WorkspaceMismatch));
    let listed = CliConfig::read(Some("forced_chatgpt_workspace_id = ['x', 'team']\n")).unwrap();
    assert!(s.import_from(&listed, Some(bytes.clone())).is_ok());
    assert_eq!(CliConfig::read(Some("not valid toml!")).err().map(|e| e), Some(StoreError::ConfigUnreadable));
    assert!(CliConfig::read(None).is_ok());
    assert_eq!(s.import_from(&listed, None).err(), Some(StoreError::LoginNotSaved));
}

#[test]
fn account_paths_accept_only_profile_ids() {
    let s = store();
    let id = "ab".repeat(32);
    assert_eq!(s.account_path(&id).unwrap(), format!("/tmp/store/accounts/{id}.json"));
    assert!(s.account_path("../../auth").is_err());
    let slash = Store { codex_home: String::new(), root: "/r/".into() };
    assert_eq!(slash.account_path(&id).unwrap(), format!("/r/accounts/{id}.json"));
}

#[test]
fn snapshot_sorts_by_email_and_checks_file_names() {
    let s = store();
    let b = fixture("w", "bob", "b");
    let a = fixture("w", "alice", "a");
    let profiles = vec![(id_of(&b), Some(b.clone())), (id_of(&a), Some(a.clone()))];
    let snap = s
        .snapshot(Some(id_of(&b)), Some(b.clone()), &profiles, true, false)
        .unwrap();
    let emails: Vec<_> = snap.accounts.iter().map(|a| a.email.clone()).collect();
    assert_eq!(emails, ["alice@example.test", "bob@example.test"]);
    assert_eq!(snap.current.unwrap().email, "bob@example.test");
    assert!(snap.config_enabled && !snap.config_backup);
    let wrong = vec![(id_of(&a), Some(b.clone()))];
    assert_eq!(s.snapshot(None, None, &wrong, false, false).err(), Some(StoreError::FileIdentityMismatch));
    let vanished = vec![(id_of(&a), None)];
    assert_eq!(s.snapshot(None, None, &vanished, false, false).err(), Some(StoreError::ProfileVanished));
    assert_eq!(
        s.active_credential(None, None).err(),
        Some(StoreError::NoActiveAccount)
    );
}

#[test]
fn switching_preserves_cli_and_targets_correct_identity() {
    let s = store();
    let a = fixture("a", "user-a", "user-a");
    let b = fixture("b", "user-b", "user-b");
    let (ida, idb) = (id_of(&a), id_of(&b));
    let active = s.switch(&ida, Some(a.clone())).unwrap();
    assert_eq!(active, ida);
    let active = s.switch(&idb, Some(b.clone())).unwrap();
    assert_eq!(active, idb);
    let selected = s.active_credential(Some(active), Some(b.clone())).unwrap();
    assert_eq!(selected.account().id, idb);
    assert_eq!(selected.bytes(), &b[..]);
    assert!(s.switch(&idb, Some(a.clone())).is_err());
}

#[test]
fn the_refresh_token_is_read_from_the_stored_login() {
    let c = Credential::parse(fixture("ws", "dana", "m1")).unwrap();
    assert_eq!(c.refresh_token().as_deref(), Some("fake-refresh-m1"));
}
