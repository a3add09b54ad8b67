use base64::Engine;
use base64::engine::general_purpose::URL_SAFE_NO_PAD;
use sub_switcher::accounts::Credential;
use sub_switcher::proxy::{
    refreshed_credential, upstream_payload,
    accept_request, forwards_request_header, forwards_response_header, Refusal,
    authorized, check_payload, details_endpoint, forces_streaming, is_switcher_health,
    model_client_version, proxy_token, reply, reply_fits, Connection, ProxyError, RefreshedTokens,
    Reply, MAX_REPLY, Forward, Phase, reuses_current,
};

#[test]
fn local_auth_rejects_browser_origins_and_missing_or_wrong_keys() {
    assert!(!authorized(false, None, "secret"));
    assert!(!authorized(false, Some("Bearer wrong"), "secret"));
    assert!(authorized(false, Some("Bearer secret"), "secret"));
    assert!(!authorized(true, Some("Bearer secret"), "secret"));
}

#[test]
fn local_auth_needs_the_exact_bearer_form() {
    assert!(!authorized(false, Some("bearer secret"), "secret"));
    assert!(!authorized(false, Some("Bearer secret "), "secret"));
    assert!(!authorized(false, Some("Bearer"), "secret"));
    assert!(!authorized(false, Some("Bearer secre"), "secret"));
    assert!(authorized(false, Some("Bearer "), ""));
}

#[test]
fn payloads_must_be_objects_without_continuation_ids() {
    assert_eq!(check_payload(br#"{"input":[]}"#), Ok(()));
    assert_eq!(check_payload(br#"{"previous_response_id":null}"#), Ok(()));
    assert_eq!(
        check_payload(br#"{"previous_response_id":"resp_a"}"#),
        Err(ProxyError::Continuation)
    );
    assert_eq!(check_payload(br#"[1,2]"#), Err(ProxyError::InvalidJson));
    assert_eq!(check_payload(b"not json"), Err(ProxyError::InvalidJson));
}

#[test]
fn only_the_responses_endpoint_is_forced_to_stream() {
    assert!(forces_streaming("/responses"));
    assert!(!forces_streaming("/responses/compact"));
}

#[test]
fn model_list_version_defaults_and_is_bounded() {
    assert_eq!(model_client_version(None), Ok("0.154.0"));
    assert_eq!(model_client_version(Some("1.2.3")), Ok("1.2.3"));
    let long = "9".repeat(81);
    assert_eq!(model_client_version(Some(&long)), Err(ProxyError::InvalidClientVersion));
    let edge = "9".repeat(80);
    assert_eq!(model_client_version(Some(&edge)), Ok(edge.as_str()));
}

#[test]
fn credit_details_sit_beside_the_usage_endpoint() {
    assert_eq!(
        details_endpoint("https://chatgpt.com/backend-api/wham/usage").unwrap(),
        "https://chatgpt.com/backend-api/wham/rate-limit-reset-credits"
    );
    assert_eq!(details_endpoint("http://127.0.0.1:1/usage").unwrap(), "http://127.0.0.1:1/rate-limit-reset-credits");
    assert_eq!(details_endpoint("usage"), Err(ProxyError::InvalidEndpoint));
}

#[test]
fn unauthorized_is_retried_once_and_other_failures_keep_their_status() {
    assert_eq!(reply(0, 401), Reply::RefreshAndRetry);
    assert_eq!(reply(1, 401), Reply::Failed(401));
    assert_eq!(reply(0, 429), Reply::Failed(429));
    assert_eq!(reply(0, 500), Reply::Failed(500));
    assert_eq!(reply(0, 200), Reply::Accept);
    assert_eq!(reply(1, 204), Reply::Accept);
}

#[test]
fn upstream_bodies_are_bounded() {
    assert!(reply_fits(0, MAX_REPLY));
    assert!(!reply_fits(1, MAX_REPLY));
    assert!(reply_fits(MAX_REPLY - 10, 10));
    assert!(!reply_fits(usize::MAX, 1));
}

#[test]
fn connection_files_and_keys() {
    let c = Connection::read(br#"{"port":4242,"token":"abc"}"#).unwrap();
    assert_eq!(c, Connection { port: 4242, token: "abc".into() });
    assert_eq!(Connection::read(br#"{"port":70000,"token":"abc"}"#), Err(ProxyError::InvalidConnectionFile));
    assert_eq!(Connection::read(br#"{"port":1}"#), Err(ProxyError::InvalidConnectionFile));
    assert_eq!(proxy_token(Some(&c)), Err(ProxyError::InvalidKey));
    let good = Connection { port: 1, token: "k".repeat(64) };
    assert_eq!(proxy_token(Some(&good)).unwrap(), "k".repeat(64));
    let fresh = proxy_token(None).unwrap();
    assert_eq!(fresh.len(), 64);
    assert!(fresh.bytes().all(|b| b.is_ascii_hexdigit()));
    assert_ne!(fresh, proxy_token(None).unwrap());
}

#[test]
fn refresh_answers_must_carry_a_new_access_token() {
    let t = RefreshedTokens::read(br#"{"access_token":"new","refresh_token":"","id_token":"id"}"#).unwrap();
    assert_eq!(t.access_token, "new");
    assert_eq!(t.refresh_token, None);
    assert_eq!(t.id_token.as_deref(), Some("id"));
    assert_eq!(RefreshedTokens::read(br#"{"access_token":""}"#).err(), Some(ProxyError::InvalidRefresh));
    assert_eq!(RefreshedTokens::read(b"oops").err(), Some(ProxyError::InvalidRefresh));
}

#[test]
fn health_answers_identify_the_application() {
    assert!(is_switcher_health(br#"{"service":"codex-sub-switcher","version":1}"#));
    assert!(!is_switcher_health(br#"{"service":"other"}"#));
    assert!(!is_switcher_health(b"<html>"));
}

#[test]
fn requests_are_refused_in_checking_order() {
    let body = br#"{"input":[]}"#;
    assert_eq!(accept_request(false, Some("Bearer k"), "k", false, true, body), Ok(()));
    let r = accept_request(true, Some("Bearer k"), "k", true, false, b"x").unwrap_err();
    assert_eq!((r, r.status()), (Refusal::Unauthorized, 401));
    let r = accept_request(false, Some("Bearer k"), "k", true, false, b"x").unwrap_err();
    assert_eq!((r, r.status()), (Refusal::Compressed, 415));
    let r = accept_request(false, Some("Bearer k"), "k", false, false, b"x").unwrap_err();
    assert_eq!((r, r.status()), (Refusal::Busy, 429));
    let r = accept_request(false, Some("Bearer k"), "k", false, true, b"x").unwrap_err();
    assert_eq!((r, r.status()), (Refusal::Invalid(ProxyError::InvalidJson), 400));
    assert_eq!(r.message(), "Invalid JSON request.");
}

#[test]
fn caller_credentials_and_routing_headers_stay_local() {
    for name in ["user-agent", "openai-beta", "session_id", "conversation_id", "x-codex-turn-metadata", "x-codex-beta-features"] {
        assert!(forwards_request_header(name));
    }
    for name in ["authorization", "cookie", "x-codex-turn-state", "chatgpt-account-id", "openai-organization"] {
        assert!(!forwards_request_header(name));
    }
    for name in ["content-type", "retry-after", "x-request-id"] {
        assert!(forwards_response_header(name));
    }
    assert!(!forwards_response_header("set-cookie"));
}

#[test]
fn responses_bodies_are_forced_to_stream_without_storage() {
    let body = br#"{"input":[],"store":true,"model":"m"}"#;
    let sent: serde_json::Value = serde_json::from_slice(&upstream_payload(body, "/responses").unwrap()).unwrap();
    assert_eq!(sent["store"], serde_json::Value::Bool(false));
    assert_eq!(sent["stream"], serde_json::Value::Bool(true));
    assert_eq!(sent["model"].as_str(), Some("m"));
    let compact: serde_json::Value =
        serde_json::from_slice(&upstream_payload(body, "/responses/compact").unwrap()).unwrap();
    assert_eq!(compact["store"], serde_json::Value::Bool(true));
    assert!(compact.get("stream").is_none());
    assert_eq!(upstream_payload(b"[1]", "/responses"), Err(ProxyError::InvalidJson));
    assert_eq!(
        upstream_payload(br#"{"previous_response_id":"r"}"#, "/responses"),
        Err(ProxyError::Continuation)
    );
}

fn login(access: &str, refresh: &str) -> Vec<u8> {
    let id_token = format!(
        "e30.{}.sig",
        URL_SAFE_NO_PAD.encode(r#"{"sub":"alice","email":"alice@example.test","https://api.openai.com/auth":{"chatgpt_account_id":"ws"}}"#)
    );
    format!(
        r#"{{"tokens":{{"id_token":"{id_token}","access_token":"{access}","refresh_token":"{refresh}","account_id":"ws"}},"last_refresh":"2026-01-01T00:00:00Z"}}"#
    )
    .into_bytes()
}

#[test]
fn a_refresh_replaces_only_the_tokens_it_carries() {
    let current = Credential::parse(login("old-access", "old-refresh")).unwrap();
    let answer = RefreshedTokens::read(br#"{"access_token":"new-access"}"#).unwrap();
    let next = refreshed_credential(&current, &answer, "2026-09-10T00:00:00+00:00").unwrap();
    assert_eq!(next.access_token(), "new-access");
    assert_eq!(next.account().id, current.account().id);
    let value: serde_json::Value = serde_json::from_slice(next.bytes()).unwrap();
    assert_eq!(value["tokens"]["refresh_token"].as_str(), Some("old-refresh"));
    assert_eq!(value["last_refresh"].as_str(), Some("2026-09-10T00:00:00+00:00"));
    let rotated = RefreshedTokens::read(br#"{"access_token":"a2","refresh_token":"r2"}"#).unwrap();
    let next = refreshed_credential(&next, &rotated, "t").unwrap();
    let value: serde_json::Value = serde_json::from_slice(next.bytes()).unwrap();
    assert_eq!(value["tokens"]["refresh_token"].as_str(), Some("r2"));
    let broken = RefreshedTokens::read(br#"{"access_token":"a3","id_token":"not-a-jwt"}"#).unwrap();
    assert_eq!(refreshed_credential(&next, &broken, "t").err(), Some(ProxyError::RefreshedLogin));
}

#[test]
fn a_forwarded_request_keeps_its_account_and_retries_once() {
    let captured = Credential::parse(login("first", "r")).unwrap();
    let mut request = Forward::new(&captured);
    assert_eq!(request.send(), ("ws".to_string(), "first".to_string()));
    assert!(request.answer(401));
    let refreshed = Credential::parse(login("second", "r2")).unwrap();
    request.refreshed(&refreshed);
    assert_eq!(request.phase(), Phase::Ready);
    assert_eq!(request.send(), ("ws".to_string(), "second".to_string()));
    assert!(!request.answer(401));
    assert_eq!(request.phase(), Phase::Done);
    let mut ok = Forward::new(&captured);
    ok.send();
    assert!(!ok.answer(200));
}

#[test]
fn a_second_refresh_uses_what_the_first_stored() {
    let fresh = format!("e30.{}.sig", URL_SAFE_NO_PAD.encode(r#"{"exp":4102444800}"#));
    let captured = Credential::parse(login("e30.eyJleHAiOjB9.sig", "r")).unwrap();
    let stored = Credential::parse(login(&fresh, "r2")).unwrap();
    assert!(reuses_current(&captured, &stored, false, 1_700_000_000));
    assert!(!reuses_current(&captured, &captured, false, 1_700_000_000));
    assert!(reuses_current(&captured, &stored, true, 1_700_000_000));
    assert!(!reuses_current(&captured, &captured, true, 1_700_000_000));
}
