use sub_switcher::launcher::{launcher_script, login_step, provider_args, shell_quote, DeviceLogin, LoginMode, LoginStep};

const PROMPT: &str = "Welcome to Codex [v0.114.0]\n\
    1. Open this link in your browser and sign in to your account\n\
       \x1b[94mhttps://auth.openai.com/codex/device\x1b[0m\n\
    2. Enter this one-time code \x1b[90m(expires in 15 minutes)\x1b[0m\n\
       \x1b[94mABCD-12345\x1b[0m\n\
    Continue only if you started this login in Codex.\n";

#[test]
fn extracts_colored_device_prompt_and_copies_only_link_and_code() {
    let details = DeviceLogin::parse(PROMPT).unwrap();
    assert_eq!(details.code(), "ABCD-12345");
    assert_eq!(
        details.copy_text(),
        "https://auth.openai.com/codex/device\nOne-time code: ABCD-12345"
    );
}

#[test]
fn waits_for_the_complete_code_line() {
    let end = PROMPT.find("ABCD-12345").unwrap();
    for offset in 0.."ABCD-12345\x1b[0m".len() {
        assert!(DeviceLogin::parse(&PROMPT[..end + offset]).is_none());
    }
    assert!(DeviceLogin::parse(&PROMPT[..end + "ABCD-12345\x1b[0m\n".len()]).is_some());
}

#[test]
fn supports_plain_output_and_crlf() {
    let plain = "https://auth.openai.com/codex/device\r\n\r\n2. Enter this one-time code\r\n\r\nABCD-12345\r\n";
    assert_eq!(DeviceLogin::parse(plain).unwrap().code(), "ABCD-12345");
}

#[test]
fn rejects_other_urls_and_error_output() {
    assert!(DeviceLogin::parse(&PROMPT.replace("auth.openai.com", "example.com")).is_none());
    assert!(DeviceLogin::parse(&PROMPT.replace("ABCD-12345", "Error: access denied")).is_none());
    assert!(DeviceLogin::parse("https://auth.openai.com/oauth/authorize?state=secret\n").is_none());
    assert!(DeviceLogin::parse("Device sign-in failed\n").is_none());
}

#[test]
fn device_url_is_fixed() {
    let details = DeviceLogin::parse(PROMPT).unwrap();
    assert_eq!(details.url(), "https://auth.openai.com/codex/device");
}

#[test]
fn escape_without_bracket_or_at_end_is_rejected() {
    assert!(DeviceLogin::parse("\x1b").is_none());
    assert!(DeviceLogin::parse("https://auth.openai.com/codex/device\n\x1bX").is_none());
}

#[test]
fn codes_outside_length_or_alphabet_are_rejected() {
    let base = "https://auth.openai.com/codex/device\nEnter this one-time code\n";
    assert!(DeviceLogin::parse(&format!("{base}ABC-1\n")).is_none());
    assert!(DeviceLogin::parse(&format!("{base}{}\n", "A".repeat(33))).is_none());
    assert!(DeviceLogin::parse(&format!("{base}abcd-1234\n")).is_none());
    assert_eq!(
        DeviceLogin::parse(&format!("{base}{}\n", "Z".repeat(32))).unwrap().code(),
        "Z".repeat(32)
    );
    assert_eq!(DeviceLogin::parse(&format!("{base}  \n 123456 \n")).unwrap().code(), "123456");
}

#[test]
fn shell_quote_escapes_single_quotes() {
    assert_eq!(shell_quote("plain"), "'plain'");
    assert_eq!(shell_quote("it's"), "'it'\\''s'");
    assert_eq!(shell_quote(""), "''");
}

#[test]
fn launcher_script_quotes_every_path() {
    assert_eq!(
        launcher_script("/a b", "/c'd", "/e"),
        "#!/bin/sh\nexec /usr/bin/env CODEX_SWITCHER_HOME='/a b' CODEX_HOME='/c'\\''d' '/e' --cli \"$@\"\n"
    );
}

#[test]
fn provider_args_point_the_cli_at_the_local_proxy() {
    let args = provider_args(12345, "/Applications/Example App/bin/switcher", "/tmp/connection.json");
    assert_eq!(args.len(), 22);
    for pair in args.chunks(2) {
        assert_eq!(pair[0], "-c");
    }
    assert_eq!(args[1], "model_provider=\"subscription_switcher\"");
    assert_eq!(
        args[5],
        "model_providers.subscription_switcher.base_url=\"http://127.0.0.1:12345/v1\""
    );
    assert_eq!(
        args[7],
        "model_providers.subscription_switcher.auth.command=\"/Applications/Example App/bin/switcher\""
    );
    assert_eq!(
        args[9],
        "model_providers.subscription_switcher.auth.args=[\"--proxy-token\", \"/tmp/connection.json\"]"
    );
    assert_eq!(args[21], "features.enable_request_compression=false");
    assert_eq!(provider_args(0, "/x", "/y")[5], "model_providers.subscription_switcher.base_url=\"http://127.0.0.1:0/v1\"");
}

#[test]
fn sign_in_steps_follow_cancel_timeout_exit_and_prompt() {
    let prompt = PROMPT;
    assert!(matches!(login_step(LoginMode::Device, 10, true, Some(true), false, Some(prompt)), LoginStep::Canceled));
    assert!(matches!(login_step(LoginMode::Browser, 300_001, false, Some(true), false, None), LoginStep::TimedOut));
    assert!(matches!(login_step(LoginMode::Browser, 300_000, false, Some(true), false, None), LoginStep::Import));
    assert!(matches!(login_step(LoginMode::Device, 900_001, false, None, false, None), LoginStep::TimedOut));
    let failed = login_step(LoginMode::Browser, 5, false, Some(false), false, None);
    assert!(failed.message().contains("port 1455"));
    let failed = login_step(LoginMode::Device, 5, false, Some(false), false, None);
    assert!(failed.message().starts_with("Device sign-in failed"));
    match login_step(LoginMode::Device, 5, false, None, false, Some(prompt)) {
        LoginStep::ShowPrompt(d) => assert_eq!(d.code(), "ABCD-12345"),
        _ => panic!("the complete prompt is shown"),
    }
    assert!(matches!(login_step(LoginMode::Device, 5, false, None, true, Some(prompt)), LoginStep::Wait));
    assert!(matches!(login_step(LoginMode::Device, 60_000, false, None, false, Some("")), LoginStep::Wait));
    assert!(matches!(login_step(LoginMode::Device, 60_001, false, None, false, Some("")), LoginStep::PromptUnreadable));
    assert!(matches!(login_step(LoginMode::Browser, 60_001, false, None, false, None), LoginStep::Wait));
    assert_eq!(LoginStep::Canceled.message(), "Sign-in canceled.");
}

#[test]
fn a_bare_escape_makes_the_prompt_unreadable() {
    let prompt = "\x1bXhttps://auth.openai.com/codex/device\n2. Enter this one-time code\nABCD-12345\n";
    assert!(DeviceLogin::parse(prompt).is_none());
    assert!(DeviceLogin::parse(&prompt[1..]).is_none());
    assert!(DeviceLogin::parse(&prompt[2..]).is_some());
}
