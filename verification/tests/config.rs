use sub_switcher::clock::Instant;
use sub_switcher::config::{
    backup_name, enable_check, enable_config, provider_entry, TomlLeaf, enabled, enabled_in, restore_config, restore_plan, ConfigError,
    EnableState, ProviderChoice, ProviderSettings, ProvidersShape, RestoreState,
};

const PROVIDER: &str = "subscription_switcher";

fn settings(binary: &str) -> ProviderSettings {
    ProviderSettings::new(12345, binary, "/store/connection.json")
}

fn value(text: &str) -> toml::Value {
    toml::from_str(text).unwrap()
}

fn fresh() -> EnableState {
    EnableState {
        home_is_dir: true,
        parsed: true,
        record_exists: false,
        providers: ProvidersShape::Absent,
        selects_proxy: false,
    }
}

fn recorded() -> RestoreState {
    RestoreState {
        record_found: true,
        same_home: true,
        parsed: true,
        entry_unchanged: Some(true),
        selects_proxy: true,
        backup_has_model_provider: true,
        providers_left_empty: true,
        backup_has_providers: false,
    }
}

#[test]
fn restore_plan_refuses_a_hand_edited_entry() {
    let edited = RestoreState { entry_unchanged: Some(false), ..recorded() };
    assert_eq!(restore_plan(edited), Err(ConfigError::ProviderEdited));
    assert!(ConfigError::ProviderEdited.message().contains("preserved"));
}

#[test]
fn enable_check_refuses_taken_names_and_unreadable_files() {
    let taken = EnableState { providers: ProvidersShape::Table(true), ..fresh() };
    assert_eq!(enable_check(taken), Err(ConfigError::ProviderTaken));
    let malformed = EnableState { parsed: false, ..fresh() };
    assert_eq!(enable_check(malformed), Err(ConfigError::InvalidConfig));
}

#[test]
fn restore_plan_of_an_empty_configuration_removes_everything() {
    assert_eq!(enable_check(fresh()), Ok(()));
    let second = EnableState {
        record_exists: true,
        providers: ProvidersShape::Table(true),
        selects_proxy: true,
        ..fresh()
    };
    assert_eq!(enable_check(second), Err(ConfigError::PreviousChange));
    let empty = RestoreState { backup_has_model_provider: false, ..recorded() };
    let plan = restore_plan(empty).unwrap();
    assert_eq!(plan.model_provider, ProviderChoice::Remove);
    assert!(plan.remove_providers);
}

#[test]
fn restoring_brings_back_the_previous_provider_and_keeps_later_edits() {
    let plan = restore_plan(recorded()).unwrap();
    assert_eq!(plan.model_provider, ProviderChoice::FromBackup);
    assert!(plan.remove_providers);
    let switched_by_hand = RestoreState { selects_proxy: false, ..recorded() };
    assert_eq!(restore_plan(switched_by_hand).unwrap().model_provider, ProviderChoice::Keep);
    let others_left = RestoreState { providers_left_empty: false, ..recorded() };
    assert!(!restore_plan(others_left).unwrap().remove_providers);
    let had_table = RestoreState { backup_has_providers: true, ..recorded() };
    assert!(!restore_plan(had_table).unwrap().remove_providers);
    let entry_gone = RestoreState { entry_unchanged: None, ..recorded() };
    assert!(restore_plan(entry_gone).is_ok());
}

#[test]
fn enabling_refusals_come_in_order() {
    assert_eq!(enable_check(EnableState { home_is_dir: false, parsed: false, ..fresh() }), Err(ConfigError::HomeMissing));
    assert_eq!(enable_check(EnableState { selects_proxy: true, ..fresh() }), Err(ConfigError::AlreadySelected));
    assert_eq!(
        enable_check(EnableState { providers: ProvidersShape::Other(false), ..fresh() }),
        Err(ConfigError::InlineProviders)
    );
    assert_eq!(enable_check(EnableState { providers: ProvidersShape::Table(false), ..fresh() }), Ok(()));
    assert_eq!(restore_plan(RestoreState { record_found: false, ..recorded() }), Err(ConfigError::NoRecord));
    assert_eq!(restore_plan(RestoreState { same_home: false, ..recorded() }), Err(ConfigError::OtherHome));
    assert_eq!(restore_plan(RestoreState { parsed: false, ..recorded() }), Err(ConfigError::InvalidConfig));
}

#[test]
fn the_provider_entry_never_holds_a_token() {
    let p = ProviderSettings::new(12345, "/Applications/Example App/bin/switcher", "/store/connection.json");
    assert_eq!(p.base_url, "http://127.0.0.1:12345/v1");
    assert_eq!(p.auth_command, "/Applications/Example App/bin/switcher");
    assert_eq!(p.auth_args, ["--proxy-token", "/store/connection.json"]);
    assert_eq!((p.auth_timeout_ms, p.auth_refresh_interval_ms), (5000, 60000));
    assert!(!p.requires_openai_auth && !p.supports_websockets);
    assert_eq!(p.wire_api, "responses");
}

#[test]
fn provider_selection_and_backup_names() {
    assert!(enabled(Some("subscription_switcher")));
    assert!(!enabled(Some("openai")));
    assert!(!enabled(None));
    assert_eq!(
        backup_name(Instant { secs: 1, nanos: 5 }),
        "config-before-proxy-1000000005.toml"
    );
    assert_eq!(backup_name(Instant { secs: -1, nanos: 0 }), "config-before-proxy--1000000000.toml");
    assert_eq!(backup_name(Instant { secs: i64::MAX, nanos: 0 }), "config-before-proxy-0.toml");
}

#[test]
fn patch_and_restore_preserve_comments_and_unrelated_later_edits() {
    let original = "# keep my comment\nmodel = 'gpt-5.4'\nmodel_provider = 'openai' # original\n\n[projects.'/tmp/example']\ntrust_level = 'trusted'\n";
    let patch = enable_config(true, original, false, &settings("/Applications/Example App/bin/switcher")).unwrap();
    let patched = patch.text.clone();
    assert!(patched.contains("# keep my comment"));
    let doc = value(&patched);
    assert!(enabled(doc["model_provider"].as_str()));
    assert_eq!(
        doc["model_providers"][PROVIDER]["auth"]["command"].as_str(),
        Some("/Applications/Example App/bin/switcher")
    );
    assert!(!patched.contains("Bearer"));
    assert!(!patched.contains("refresh_token"));
    let later = format!("{patched}\n[another]\nvalue = 42\n");
    let restored = restore_config(true, true, &later, original, &patch.provider).unwrap();
    assert!(restored.contains("# keep my comment"));
    assert!(restored.contains("# original"));
    let doc = value(&restored);
    assert_eq!(doc["model_provider"].as_str(), Some("openai"));
    assert_eq!(doc["another"]["value"].as_integer(), Some(42));
    assert!(doc.get("model_providers").is_none());
}

#[test]
fn restore_does_not_overwrite_manually_changed_provider() {
    let patch = enable_config(true, "", false, &settings("/switcher")).unwrap();
    let mut doc: toml_edit::DocumentMut = patch.text.parse().unwrap();
    doc["model_providers"][PROVIDER]["base_url"] = toml_edit::value("https://example.test");
    let edited = doc.to_string();
    assert_eq!(
        restore_config(true, true, &edited, "", &patch.provider),
        Err(ConfigError::ProviderEdited)
    );
}

#[test]
fn existing_provider_and_malformed_config_are_not_overwritten() {
    let taken = "[model_providers.subscription_switcher]\nname='Mine'\n";
    assert_eq!(
        enable_config(true, taken, false, &settings("/switcher")).err(),
        Some(ConfigError::ProviderTaken)
    );
    assert_eq!(
        enable_config(true, "not valid toml!", false, &settings("/switcher")).err(),
        Some(ConfigError::InvalidConfig)
    );
}

#[test]
fn empty_config_and_second_enable_restore_cleanly() {
    let patch = enable_config(true, "", false, &settings("/switcher")).unwrap();
    assert_eq!(
        enable_config(true, &patch.text, true, &settings("/switcher")).err(),
        Some(ConfigError::PreviousChange)
    );
    let restored = restore_config(true, true, &patch.text, "", &patch.provider).unwrap();
    assert_eq!(restored.trim(), "");
}

#[test]
fn enabling_keeps_other_providers_and_refuses_inline_tables() {
    let other = "[model_providers.local]\nname = 'Local'\n";
    let patch = enable_config(true, other, false, &settings("/switcher")).unwrap();
    let doc = value(&patch.text);
    assert_eq!(doc["model_providers"]["local"]["name"].as_str(), Some("Local"));
    assert_eq!(doc["model_providers"][PROVIDER]["wire_api"].as_str(), Some("responses"));
    let restored = restore_config(true, true, &patch.text, other, &patch.provider).unwrap();
    let doc = value(&restored);
    assert_eq!(doc["model_providers"]["local"]["name"].as_str(), Some("Local"));
    assert!(doc.get("model_provider").is_none());
    assert!(doc["model_providers"].get(PROVIDER).is_none());
    assert_eq!(
        enable_config(true, "model_providers = { local = { name = 'x' } }\n", false, &settings("/s")).err(),
        Some(ConfigError::InlineProviders)
    );
    assert_eq!(
        enable_config(true, "model_provider = 'subscription_switcher'\n", false, &settings("/s")).err(),
        Some(ConfigError::AlreadySelected)
    );
    assert_eq!(enable_config(false, "", false, &settings("/s")).err(), Some(ConfigError::HomeMissing));
}

#[test]
fn restoration_refusals() {
    let patch = enable_config(true, "", false, &settings("/switcher")).unwrap();
    assert_eq!(restore_config(false, true, &patch.text, "", &patch.provider), Err(ConfigError::NoRecord));
    assert_eq!(restore_config(true, false, &patch.text, "", &patch.provider), Err(ConfigError::OtherHome));
    assert_eq!(restore_config(true, true, "oops = ", "", &patch.provider), Err(ConfigError::InvalidConfig));
    assert_eq!(restore_config(true, true, &patch.text, "oops = ", &patch.provider), Err(ConfigError::InvalidConfig));
    assert_eq!(restore_config(true, true, &patch.text, "", "not toml ="), Err(ConfigError::CannotCompare));
    let switched = patch.text.replace("model_provider = \"subscription_switcher\"", "model_provider = \"openai\"");
    let restored = restore_config(true, true, &switched, "", &patch.provider).unwrap();
    assert_eq!(value(&restored)["model_provider"].as_str(), Some("openai"));
}

#[test]
fn the_configuration_text_tells_whether_the_proxy_is_selected() {
    assert!(enabled_in("model_provider = 'subscription_switcher'\n"));
    assert!(!enabled_in("model_provider = 'openai'\n"));
    assert!(!enabled_in(""));
    assert!(!enabled_in("model_provider = "));
}

#[test]
fn the_provider_entry_has_the_documented_layout() {
    let e = provider_entry(&settings("/switcher"));
    let keys: Vec<&str> = e.entries.iter().map(|(k, _)| k.as_str()).collect();
    assert_eq!(keys, ["name", "base_url", "wire_api", "requires_openai_auth", "supports_websockets"]);
    assert_eq!(e.table, "auth");
    let keys: Vec<&str> = e.table_entries.iter().map(|(k, _)| k.as_str()).collect();
    assert_eq!(keys, ["command", "args", "timeout_ms", "refresh_interval_ms"]);
    assert!(matches!(&e.table_entries[1].1, TomlLeaf::Texts(v) if v[0] == "--proxy-token"));
    let patch = enable_config(true, "", false, &settings("/switcher")).unwrap();
    let entry = value(&patch.provider);
    assert_eq!(entry["wire_api"].as_str(), Some("responses"));
    let doc = value(&patch.text);
    assert_eq!(doc["model_providers"][PROVIDER]["auth"]["timeout_ms"].as_integer(), Some(5000));
    assert_eq!(doc["model_providers"][PROVIDER]["auth"]["refresh_interval_ms"].as_integer(), Some(60000));
    assert_eq!(entry["name"].as_str(), Some("Subscription Switcher"));
}
