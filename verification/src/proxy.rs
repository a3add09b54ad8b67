//! Decisions of the loopback proxy: who may use it, which requests it
//! forwards, when a credential is refreshed, and how upstream replies are
//! taken. The HTTP transport itself stays outside.
use vstd::prelude::*;
use subtle::ConstantTimeEq;
use vstd::string::StringSliceAdditionalSpecFns;
use std::sync::atomic::AtomicUsize;
use crate::accounts::{Credential, auth_error, token_expiring};
use crate::doc::{
    Doc, json_document, json_reencode, json_reencoded, json_set_bool, json_set_nested_text,
    json_set_text, json_with_bool, json_with_nested_text, json_with_text, parse_json,
};
use crate::text::{chars_of, position, same_text, slice_string, string_of, utf8};

verus! {

/// Where the running proxy listens and the key clients present.
#[derive(Clone, Debug, PartialEq)]
pub struct Connection {
    pub port: u16,
    pub token: String,
}

/// Request counters shown in the application footer.
#[derive(Default)]
pub struct Metrics {
    pub requests: AtomicUsize,
    pub failures: AtomicUsize,
    pub inflight: AtomicUsize,
}

/// Why the proxy refused something.
#[derive(Debug, Clone, Copy, PartialEq, Eq, Structural)]
pub enum ProxyError {
    InvalidConnectionFile,
    InvalidKey,
    InvalidJson,
    Continuation,
    InvalidClientVersion,
    InvalidEndpoint,
    InvalidRefresh,
    /// The refreshed login could not be written back as a usable credential.
    RefreshedLogin,
}

/// The text shown for each `ProxyError`.
pub open spec fn proxy_error_text(e: ProxyError) -> Seq<char> {
    match e {
        ProxyError::InvalidConnectionFile => "Invalid proxy connection file."@,
        ProxyError::InvalidKey => "Invalid local proxy key."@,
        ProxyError::InvalidJson => "Invalid JSON request."@,
        ProxyError::Continuation => "The proxy requires the full HTTP history, without previous_response_id."@,
        ProxyError::InvalidClientVersion => "Invalid client version."@,
        ProxyError::InvalidEndpoint => "Invalid endpoint."@,
        ProxyError::InvalidRefresh => "The refresh answer carries no new token."@,
        ProxyError::RefreshedLogin => "Invalid sign-in refresh response."@,
    }
}

impl ProxyError {
    pub fn message(&self) -> (r: &'static str)
        ensures
            r@ == proxy_error_text(*self),
    {
        match self {
            ProxyError::InvalidConnectionFile => "Invalid proxy connection file.",
            ProxyError::InvalidKey => "Invalid local proxy key.",
            ProxyError::InvalidJson => "Invalid JSON request.",
            ProxyError::Continuation => "The proxy requires the full HTTP history, without previous_response_id.",
            ProxyError::InvalidClientVersion => "Invalid client version.",
            ProxyError::InvalidEndpoint => "Invalid endpoint.",
            ProxyError::InvalidRefresh => "The refresh answer carries no new token.",
            ProxyError::RefreshedLogin => "Invalid sign-in refresh response.",
        }
    }
}

/// The connection a saved `connection.json` describes: an object with a
/// `u16` `port` and a string `token`.
pub open spec fn connection_fields(bytes: Seq<u8>) -> Option<(u16, Seq<char>)> {
    match json_document(bytes) {
        Some(d) => if d is Table && d.index_key("port"@).unsigned() is Some
            && d.index_key("port"@).unsigned()->0 <= u16::MAX && d.index_key("token"@).text() is Some {
            Some((d.index_key("port"@).unsigned()->0 as u16, d.index_key("token"@).text()->0))
        } else {
            None
        },
        None => None,
    }
}

impl Connection {
    /// Reads a saved `connection.json`.
    pub fn read(bytes: &[u8]) -> (r: Result<Connection, ProxyError>)
        ensures
            match r {
                Ok(c) => connection_fields(bytes@) == Some((c.port, c.token@)),
                Err(e) => connection_fields(bytes@) is None && e == ProxyError::InvalidConnectionFile,
            },
    {
        let d = match parse_json(bytes) {
            Some(d) => d,
            None => return Err(ProxyError::InvalidConnectionFile),
        };
        match &d {
            Doc::Table(_) => {},
            _ => return Err(ProxyError::InvalidConnectionFile),
        }
        let port = match d.at_key("port").as_u64() {
            Some(p) => if p <= 65535 {
                p as u16
            } else {
                return Err(ProxyError::InvalidConnectionFile);
            },
            None => return Err(ProxyError::InvalidConnectionFile),
        };
        let token = match d.at_key("token").as_str() {
            Some(t) => String::from_str(t),
            None => return Err(ProxyError::InvalidConnectionFile),
        };
        Ok(Connection { port, token })
    }
}

/// The key the proxy uses: the saved one, which must be 64 bytes long, or
/// a fresh random 256-bit key in hexadecimal when none was saved.
pub fn proxy_token(saved: Option<&Connection>) -> (r: Result<String, ProxyError>)
    ensures
        match saved {
            Some(c) => if utf8(c.token@).len() == 64 {
                r matches Ok(t) && t@ == c.token@
            } else {
                r == Err::<String, ProxyError>(ProxyError::InvalidKey)
            },
            None => r matches Ok(t) && exists|b: Seq<u8>|
                b.len() == 32 && t@ == crate::text::hex_text(b),
        },
{
    match saved {
        Some(c) => {
            let t = c.token.as_str();
            assert(t.spec_bytes() == utf8(c.token@));
            if t.as_bytes().len() != 64 {
                Err(ProxyError::InvalidKey)
            } else {
                Ok(c.token.clone())
            }
        },
        None => Ok(crate::resets::random_key()),
    }
}

/// Calls `subtle::ConstantTimeEq::ct_eq` on two byte strings: equal exactly
/// when they hold the same bytes.
#[verifier::external_body]
fn constant_time_eq(a: &[u8], b: &[u8]) -> (r: bool)
    ensures
        r == (a@ == b@),
{
    bool::from(a.ct_eq(b))
}

/// Whether a local client may use the proxy: no `Origin` header (browsers
/// send one), and `Authorization: Bearer <key>` with exactly the proxy key.
pub open spec fn client_authorized(has_origin: bool, authorization: Option<Seq<char>>, token: Seq<
    char,
>) -> bool {
    !has_origin && authorization is Some && authorization->0.len() >= 7
        && authorization->0.subrange(0, 7) == "Bearer "@ && utf8(
        authorization->0.subrange(7, authorization->0.len() as int),
    ) == utf8(token)
}

/// Checks a local client. `authorization` is the `Authorization` header
/// when it is present and readable as text.
pub fn authorized(has_origin: bool, authorization: Option<&str>, token: &str) -> (r: bool)
    ensures
        r == client_authorized(has_origin, match authorization {
            Some(a) => Some(a@),
            None => None,
        }, token@),
{
    if has_origin {
        return false;
    }
    let header = match authorization {
        Some(h) => h,
        None => return false,
    };
    let cs = chars_of(header);
    if cs.len() < 7 {
        return false;
    }
    let head = slice_string(&cs, 0, 7);
    if !same_text(head.as_str(), "Bearer ") {
        return false;
    }
    let rest = slice_string(&cs, 7, cs.len());
    constant_time_eq(rest.as_str().as_bytes(), token.as_bytes())
}

/// Whether a request body may be forwarded: a JSON object without a
/// non-null `previous_response_id` (continuation ids belong to one upstream
/// account and cannot cross identities).
pub open spec fn payload_error(body: Seq<u8>) -> Option<ProxyError> {
    match json_document(body) {
        Some(d) => if !(d is Table) {
            Some(ProxyError::InvalidJson)
        } else if d.get_key("previous_response_id"@) is Some && !d.get_key(
            "previous_response_id"@,
        )->0.is_null() {
            Some(ProxyError::Continuation)
        } else {
            None
        },
        None => Some(ProxyError::InvalidJson),
    }
}

pub fn check_payload(body: &[u8]) -> (r: Result<(), ProxyError>)
    ensures
        match r {
            Ok(()) => payload_error(body@) is None,
            Err(e) => payload_error(body@) == Some(e),
        },
{
    let d = match parse_json(body) {
        Some(d) => d,
        None => return Err(ProxyError::InvalidJson),
    };
    match &d {
        Doc::Table(_) => {},
        _ => return Err(ProxyError::InvalidJson),
    }
    match d.get("previous_response_id") {
        Some(v) => if !v.is_null_node() {
            return Err(ProxyError::Continuation);
        },
        None => {},
    }
    Ok(())
}

/// Why a request to the Responses endpoints is refused before anything is
/// sent upstream.
#[derive(Debug, Clone, Copy, PartialEq, Eq, Structural)]
pub enum Refusal {
    /// Not a local client holding the proxy key.
    Unauthorized,
    /// A compressed body: the CLI must be started through the switcher command.
    Compressed,
    /// Every forwarding slot is taken.
    Busy,
    /// The body cannot be forwarded.
    Invalid(ProxyError),
}

/// The text shown for each `Refusal`.
pub open spec fn refusal_text(e: Refusal) -> Seq<char> {
    match e {
        Refusal::Unauthorized => "Unauthorized proxy client."@,
        Refusal::Compressed => "Start the CLI through the switcher command (without request compression)."@,
        Refusal::Busy => "The proxy is already handling 32 requests. Try again shortly."@,
        Refusal::Invalid(e) => proxy_error_text(e),
    }
}

impl Refusal {
    /// The HTTP status the refusal is answered with.
    pub fn status(&self) -> (r: u16)
        ensures
            r == refusal_status(*self),
    {
        match self {
            Refusal::Unauthorized => 401,
            Refusal::Compressed => 415,
            Refusal::Busy => 429,
            Refusal::Invalid(_) => 400,
        }
    }

    pub fn message(&self) -> (r: &'static str)
        ensures
            r@ == refusal_text(*self),
    {
        match self {
            Refusal::Unauthorized => "Unauthorized proxy client.",
            Refusal::Compressed => "Start the CLI through the switcher command (without request compression).",
            Refusal::Busy => "The proxy is already handling 32 requests. Try again shortly.",
            Refusal::Invalid(e) => e.message(),
        }
    }
}

pub open spec fn refusal_status(r: Refusal) -> u16 {
    match r {
        Refusal::Unauthorized => 401,
        Refusal::Compressed => 415,
        Refusal::Busy => 429,
        Refusal::Invalid(_) => 400,
    }
}

/// The first reason to refuse a request, in checking order: the client,
/// then compression, then a free slot, then the body.
pub open spec fn refusal_of(
    has_origin: bool,
    authorization: Option<Seq<char>>,
    token: Seq<char>,
    compressed: bool,
    slot_free: bool,
    body: Seq<u8>,
) -> Option<Refusal> {
    if !client_authorized(has_origin, authorization, token) {
        Some(Refusal::Unauthorized)
    } else if compressed {
        Some(Refusal::Compressed)
    } else if !slot_free {
        Some(Refusal::Busy)
    } else if payload_error(body) is Some {
        Some(Refusal::Invalid(payload_error(body)->0))
    } else {
        None
    }
}

/// Checks a request to the Responses endpoints. `compressed` tells whether
/// it carries a `Content-Encoding` header and `slot_free` whether a
/// forwarding slot could be taken.
pub fn accept_request(
    has_origin: bool,
    authorization: Option<&str>,
    token: &str,
    compressed: bool,
    slot_free: bool,
    body: &[u8],
) -> (r: Result<(), Refusal>)
    ensures
        match r {
            Ok(()) => refusal_of(has_origin, match authorization {
                Some(a) => Some(a@),
                None => None,
            }, token@, compressed, slot_free, body@) is None,
            Err(e) => refusal_of(has_origin, match authorization {
                Some(a) => Some(a@),
                None => None,
            }, token@, compressed, slot_free, body@) == Some(e),
        },
{
    if !authorized(has_origin, authorization, token) {
        return Err(Refusal::Unauthorized);
    }
    if compressed {
        return Err(Refusal::Compressed);
    }
    if !slot_free {
        return Err(Refusal::Busy);
    }
    match check_payload(body) {
        Ok(()) => Ok(()),
        Err(e) => Err(Refusal::Invalid(e)),
    }
}

/// Request headers passed on upstream. Sticky routing, cookies,
/// organization headers and the caller's `Authorization` never cross accounts.
pub open spec fn forwarded_request_header(name: Seq<char>) -> bool {
    name == "user-agent"@ || name == "openai-beta"@ || name == "session_id"@ || name
        == "conversation_id"@ || name == "x-codex-turn-metadata"@ || name
        == "x-codex-beta-features"@
}

/// Whether a (lowercase) request header is passed on upstream.
pub fn forwards_request_header(name: &str) -> (r: bool)
    ensures
        r == forwarded_request_header(name@),
{
    same_text(name, "user-agent") || same_text(name, "openai-beta") || same_text(name, "session_id")
        || same_text(name, "conversation_id") || same_text(name, "x-codex-turn-metadata")
        || same_text(name, "x-codex-beta-features")
}

/// Response headers passed back to the client.
pub open spec fn forwarded_response_header(name: Seq<char>) -> bool {
    name == "content-type"@ || name == "retry-after"@ || name == "x-request-id"@
}

/// Whether a (lowercase) upstream response header is passed back.
pub fn forwards_response_header(name: &str) -> (r: bool)
    ensures
        r == forwarded_response_header(name@),
{
    same_text(name, "content-type") || same_text(name, "retry-after") || same_text(name, "x-request-id")
}

/// No credential of the caller or of another account crosses the proxy:
/// the caller's `Authorization`, cookies and routing or organization headers
/// are never forwarded upstream.
pub proof fn law_caller_credentials_stay_local()
    ensures
        !forwarded_request_header("authorization"@),
        !forwarded_request_header("cookie"@),
        !forwarded_request_header("x-codex-turn-state"@),
        !forwarded_request_header("chatgpt-account-id"@),
        !forwarded_request_header("openai-organization"@),
        !forwarded_response_header("set-cookie"@),
{
    reveal_strlit("authorization");
    reveal_strlit("cookie");
    reveal_strlit("x-codex-turn-state");
    reveal_strlit("chatgpt-account-id");
    reveal_strlit("openai-organization");
    reveal_strlit("set-cookie");
    reveal_strlit("user-agent");
    reveal_strlit("openai-beta");
    reveal_strlit("session_id");
    reveal_strlit("conversation_id");
    reveal_strlit("x-codex-turn-metadata");
    reveal_strlit("x-codex-beta-features");
    reveal_strlit("content-type");
    reveal_strlit("retry-after");
    reveal_strlit("x-request-id");
    assert("authorization"@.len() == 13);
    assert("cookie"@.len() == 6);
    assert("x-codex-turn-state"@.len() == 18);
    assert("chatgpt-account-id"@.len() == 18);
    assert("openai-organization"@.len() == 19);
    assert("set-cookie"@.len() == 10);
    assert("user-agent"@.len() == 10);
    assert("openai-beta"@.len() == 11);
    assert("session_id"@.len() == 10);
    assert("conversation_id"@.len() == 15);
    assert("x-codex-turn-metadata"@.len() == 21);
    assert("x-codex-beta-features"@.len() == 21);
    assert("content-type"@.len() == 12);
    assert("retry-after"@.len() == 11);
    assert("x-request-id"@.len() == 12);
}

/// A refused request is answered with a client-error status.
pub proof fn law_refusals_are_client_errors(r: Refusal)
    ensures
        400 <= refusal_status(r) < 500,
{
}

/// Whether a forwarded request is rewritten to `store: false`, `stream: true`:
/// only for the Responses endpoint itself, not for compaction.
pub fn forces_streaming(path: &str) -> (r: bool)
    ensures
        r == (path@ == "/responses"@),
{
    same_text(path, "/responses")
}

/// The `client_version` asked of the model list: the client's own, or the
/// checked CLI version when it gave none; longer than 80 bytes is refused.
pub fn model_client_version(requested: Option<&str>) -> (r: Result<&str, ProxyError>)
    ensures
        match requested {
            Some(v) => if utf8(v@).len() > 80 {
                r == Err::<&str, ProxyError>(ProxyError::InvalidClientVersion)
            } else {
                r matches Ok(s) && s@ == v@
            },
            None => r matches Ok(s) && s@ == "0.154.0"@,
        },
{
    match requested {
        Some(v) => {
            assert(v.spec_bytes() == utf8(v@));
            if v.as_bytes().len() > 80 {
                Err(ProxyError::InvalidClientVersion)
            } else {
                Ok(v)
            }
        },
        None => Ok("0.154.0"),
    }
}

/// Index of the last `c` in `s`, or `-1`.
pub open spec fn last_position(s: Seq<char>, c: char) -> int
    decreases s.len(),
{
    if s.len() == 0 {
        -1
    } else if s.last() == c {
        s.len() - 1
    } else {
        last_position(s.drop_last(), c)
    }
}

/// The credit-list endpoint beside a usage endpoint: its last path segment
/// replaced by `rate-limit-reset-credits`.
pub open spec fn details_endpoint_of(endpoint: Seq<char>) -> Option<Seq<char>> {
    if last_position(endpoint, '/') < 0 {
        None
    } else {
        Some(endpoint.subrange(0, last_position(endpoint, '/')) + "/rate-limit-reset-credits"@)
    }
}

pub fn details_endpoint(endpoint: &str) -> (r: Result<String, ProxyError>)
    ensures
        match r {
            Ok(s) => details_endpoint_of(endpoint@) == Some(s@),
            Err(e) => details_endpoint_of(endpoint@) is None && e == ProxyError::InvalidEndpoint,
        },
{
    let cs = chars_of(endpoint);
    let mut i = cs.len();
    assert(cs@.subrange(0, cs@.len() as int) =~= cs@);
    while i > 0 && cs[i - 1] != '/'
        invariant
            i <= cs@.len(),
            last_position(cs@, '/') == last_position(cs@.subrange(0, i as int), '/'),
        decreases i,
    {
        assert(cs@.subrange(0, i as int).drop_last() =~= cs@.subrange(0, i - 1));
        i = i - 1;
    }
    if i == 0 {
        return Err(ProxyError::InvalidEndpoint);
    }
    let mut out: Vec<char> = Vec::new();
    let head = slice_string(&cs, 0, i - 1);
    crate::text::push_str(&mut out, head.as_str());
    crate::text::push_str(&mut out, "/rate-limit-reset-credits");
    Ok(string_of(out.as_slice()))
}

/// What to do with an upstream reply to an account request.
#[derive(Debug, Clone, Copy, PartialEq, Eq, Structural)]
pub enum Reply {
    /// Refresh the captured account's login and send the same request once more.
    RefreshAndRetry,
    /// Refuse with this HTTP status; the body is never shown.
    Failed(u16),
    /// Read the body.
    Accept,
}

/// An account request is retried once, only after HTTP 401 on the first
/// attempt; any other non-success status is a failure.
pub open spec fn reply_for(attempt: u32, status: u16) -> Reply {
    if status == 401 && attempt == 0 {
        Reply::RefreshAndRetry
    } else if !(200 <= status < 300) {
        Reply::Failed(status)
    } else {
        Reply::Accept
    }
}

pub fn reply(attempt: u32, status: u16) -> (r: Reply)
    ensures
        r == reply_for(attempt, status),
{
    if status == 401 && attempt == 0 {
        Reply::RefreshAndRetry
    } else if !(200 <= status && status < 300) {
        Reply::Failed(status)
    } else {
        Reply::Accept
    }
}

/// Largest upstream body read for limits and reset answers.
pub const MAX_REPLY: usize = 1048576;

/// Whether a body that already holds `read` bytes may take a chunk of `chunk` more.
pub fn reply_fits(read: usize, chunk: usize) -> (r: bool)
    ensures
        r == (read + chunk <= MAX_REPLY),
{
    read <= MAX_REPLY && chunk <= MAX_REPLY - read
}

/// Whether a request may go on with the credential it captured, without
/// taking the refresh lock: not forced, and the token not expiring at `now`.
pub fn keeps_captured(captured: &Credential, force: bool, now: i64) -> (r: bool)
    ensures
        r == (!force && !token_expiring(captured.token(), now)),
{
    !force && !captured.expires_soon_at(now)
}

/// Whether a request that captured the token `captured` uses the stored
/// credential (token `stored`) instead of calling the refresh endpoint.
pub open spec fn reuses_stored(captured: Seq<char>, stored: Seq<char>, force: bool, now: i64) -> bool {
    (!force && !token_expiring(stored, now)) || (force && stored != captured)
}

/// Refreshes of one account that run at once call the refresh endpoint
/// once. They take the refresh lock one at a time, and the later one reads
/// the credential the earlier one stored: when that token no longer
/// expires (a refresh for expiry) or is no longer the rejected one (a
/// refresh after HTTP 401), the later refresh uses it as it is.
pub proof fn law_refresh_called_once(captured: Seq<char>, stored: Seq<char>, force: bool, now: i64)
    requires
        force ==> stored != captured,
        !force ==> !token_expiring(stored, now),
    ensures
        reuses_stored(captured, stored, force, now),
{
}

/// Under the refresh lock, with `current` the stored profile: whether it is
/// used as it is instead of refreshing again. A plain expiry check uses it
/// once it no longer expires; a forced refresh (after HTTP 401) uses it once
/// another request already replaced the rejected token.
pub fn reuses_current(captured: &Credential, current: &Credential, force: bool, now: i64) -> (r:
    bool)
    ensures
        r == reuses_stored(captured.token(), current.token(), force, now),
{
    if !force {
        !current.expires_soon_at(now)
    } else {
        let a = current.access_token();
        let b = captured.access_token();
        !same_text(a.as_str(), b.as_str())
    }
}

/// A token in a refresh answer that replaces the stored one: a non-empty string.
pub open spec fn new_token(d: Doc, key: Seq<char>) -> Option<Seq<char>> {
    match d.index_key(key).text() {
        Some(t) => if t.len() > 0 {
            Some(t)
        } else {
            None
        },
        None => None,
    }
}

/// The tokens an OAuth refresh answer carries.
#[derive(Clone, Debug)]
pub struct RefreshedTokens {
    pub access_token: String,
    pub refresh_token: Option<String>,
    pub id_token: Option<String>,
}

fn token_field(d: &Doc, key: &str) -> (r: Option<String>)
    ensures
        match r {
            Some(s) => new_token(*d, key@) == Some(s@),
            None => new_token(*d, key@) is None,
        },
{
    match d.at_key(key).as_str() {
        Some(t) => if t.is_empty() {
            None
        } else {
            Some(String::from_str(t))
        },
        None => None,
    }
}

impl RefreshedTokens {
    /// Reads an OAuth refresh answer; it must carry a new access token.
    pub fn read(bytes: &[u8]) -> (r: Result<RefreshedTokens, ProxyError>)
        ensures
            match r {
                Ok(t) => json_document(bytes@) is Some && new_token(
                    json_document(bytes@)->0,
                    "access_token"@,
                ) == Some(t.access_token@) && match t.refresh_token {
                    Some(s) => new_token(json_document(bytes@)->0, "refresh_token"@) == Some(s@),
                    None => new_token(json_document(bytes@)->0, "refresh_token"@) is None,
                } && match t.id_token {
                    Some(s) => new_token(json_document(bytes@)->0, "id_token"@) == Some(s@),
                    None => new_token(json_document(bytes@)->0, "id_token"@) is None,
                },
                Err(e) => e == ProxyError::InvalidRefresh && (json_document(bytes@) is None
                    || new_token(json_document(bytes@)->0, "access_token"@) is None),
            },
    {
        let d = match parse_json(bytes) {
            Some(d) => d,
            None => return Err(ProxyError::InvalidRefresh),
        };
        let access = match token_field(&d, "access_token") {
            Some(t) => t,
            None => return Err(ProxyError::InvalidRefresh),
        };
        Ok(RefreshedTokens {
            access_token: access,
            refresh_token: token_field(&d, "refresh_token"),
            id_token: token_field(&d, "id_token"),
        })
    }
}

/// Whether the answer of the local health endpoint identifies this application.
pub fn is_switcher_health(bytes: &[u8]) -> (r: bool)
    ensures
        r == (json_document(bytes@) is Some && json_document(bytes@)->0.index_key(
            "service"@,
        ).text() == Some("codex-sub-switcher"@)),
{
    match parse_json(bytes) {
        Some(d) => match d.at_key("service").as_str() {
            Some(s) => same_text(s, "codex-sub-switcher"),
            None => false,
        },
        None => false,
    }
}

/// The body sent upstream: the client's object as `serde_json` writes it
/// again; for the Responses endpoint with `store` false and `stream` true.
pub open spec fn upstream_body(body: Seq<u8>, path: Seq<char>) -> Option<Seq<u8>> {
    if path == "/responses"@ {
        let stored = json_with_bool(body, "store"@, false);
        if json_document(stored) is Some && json_document(stored)->0.keyed() {
            Some(json_with_bool(stored, "stream"@, true))
        } else {
            None
        }
    } else {
        Some(json_reencoded(body))
    }
}

/// The request body forwarded for `path`, from the client's `body`.
pub fn upstream_payload(body: &[u8], path: &str) -> (r: Result<Vec<u8>, ProxyError>)
    ensures
        match r {
            Ok(b) => payload_error(body@) is None && upstream_body(body@, path@) == Some(b@),
            Err(e) => if payload_error(body@) is Some {
                payload_error(body@) == Some(e)
            } else {
                e == ProxyError::InvalidJson && upstream_body(body@, path@) is None
            },
        },
{
    match check_payload(body) {
        Ok(()) => {},
        Err(e) => return Err(e),
    }
    if !forces_streaming(path) {
        return match json_reencode(body) {
            Some(b) => Ok(b),
            None => Err(ProxyError::InvalidJson),
        };
    }
    let stored = match json_set_bool(body, "store", false) {
        Some(b) => b,
        None => return Err(ProxyError::InvalidJson),
    };
    let keyed = match parse_json(stored.as_slice()) {
        Some(d) => d.is_keyed(),
        None => false,
    };
    if !keyed {
        return Err(ProxyError::InvalidJson);
    }
    match json_set_bool(stored.as_slice(), "stream", true) {
        Some(b) => Ok(b),
        None => Err(ProxyError::InvalidJson),
    }
}

/// One token written into `tokens` of a stored login, when there is one to write.
pub open spec fn with_token(bytes: Option<Seq<u8>>, key: Seq<char>, token: Option<Seq<char>>) -> Option<
    Seq<u8>,
> {
    match bytes {
        None => None,
        Some(b) => match token {
            None => Some(b),
            Some(t) => if json_document(b) is Some && json_document(b)->0.nested_keyed(
                "tokens"@,
            ) {
                Some(json_with_nested_text(b, "tokens"@, key, t))
            } else {
                None
            },
        },
    }
}

pub open spec fn token_view(t: Option<String>) -> Option<Seq<char>> {
    match t {
        Some(s) => Some(s@),
        None => None,
    }
}

/// The stored login after a refresh: the new access token, the refresh and
/// identity tokens the answer carried, and `last_refresh` set to `refreshed_at`.
pub open spec fn refreshed_bytes(current: Seq<u8>, t: RefreshedTokens, refreshed_at: Seq<char>) -> Option<
    Seq<u8>,
> {
    let with_access = with_token(Some(current), "access_token"@, Some(t.access_token@));
    let with_refresh = with_token(with_access, "refresh_token"@, token_view(t.refresh_token));
    match with_token(with_refresh, "id_token"@, token_view(t.id_token)) {
        None => None,
        Some(b) => if json_document(b) is Some && json_document(b)->0.keyed() {
            Some(json_with_text(b, "last_refresh"@, refreshed_at))
        } else {
            None
        },
    }
}

fn write_token(bytes: Vec<u8>, key: &str, token: &Option<String>) -> (r: Option<Vec<u8>>)
    ensures
        match r {
            Some(b) => with_token(Some(bytes@), key@, token_view(*token)) == Some(b@),
            None => with_token(Some(bytes@), key@, token_view(*token)) is None,
        },
{
    let t = match token {
        Some(t) => t,
        None => return Some(bytes),
    };
    let keyed = match parse_json(bytes.as_slice()) {
        Some(d) => d.is_keyed() && d.at_key("tokens").is_keyed(),
        None => false,
    };
    if !keyed {
        return None;
    }
    json_set_nested_text(bytes.as_slice(), "tokens", key, t.as_str())
}

/// The credential that replaces `current` after a refresh answered with
/// `tokens`, stamped `refreshed_at` (an RFC 3339 time).
pub fn refreshed_credential(current: &Credential, tokens: &RefreshedTokens, refreshed_at: &str) -> (r:
    Result<Credential, ProxyError>)
    ensures
        match r {
            Ok(c) => refreshed_bytes(current.raw(), *tokens, refreshed_at@) matches Some(b)
                && auth_error(b) is None && c.read_from(b),
            Err(e) => e == ProxyError::RefreshedLogin && (refreshed_bytes(
                current.raw(),
                *tokens,
                refreshed_at@,
            ) matches Some(b) ==> auth_error(b) is Some),
        },
{
    let start = crate::accounts::bytes_of(current);
    let access = Some(tokens.access_token.clone());
    let with_access = match write_token(start, "access_token", &access) {
        Some(b) => b,
        None => return Err(ProxyError::RefreshedLogin),
    };
    let with_refresh = match write_token(with_access, "refresh_token", &tokens.refresh_token) {
        Some(b) => b,
        None => return Err(ProxyError::RefreshedLogin),
    };
    let with_id = match write_token(with_refresh, "id_token", &tokens.id_token) {
        Some(b) => b,
        None => return Err(ProxyError::RefreshedLogin),
    };
    let keyed = match parse_json(with_id.as_slice()) {
        Some(d) => d.is_keyed(),
        None => false,
    };
    if !keyed {
        return Err(ProxyError::RefreshedLogin);
    }
    let stamped = match json_set_text(with_id.as_slice(), "last_refresh", refreshed_at) {
        Some(b) => b,
        None => return Err(ProxyError::RefreshedLogin),
    };
    match Credential::parse(stamped) {
        Ok(c) => Ok(c),
        Err(_) => Err(ProxyError::RefreshedLogin),
    }
}

} // verus!

verus! {

/// Where a forwarded request stands.
#[derive(Debug, Clone, Copy, PartialEq, Eq, Structural)]
pub enum Phase {
    /// Ready to send to the service.
    Ready,
    /// Sent; waiting for the reply status.
    Sent,
    /// Rejected with HTTP 401: waiting for the captured account's refreshed token.
    Refreshing,
    /// The reply is passed on to the client.
    Done,
}

/// A forwarded request as contracts speak of it: the workspace of the
/// account captured when it began, the bearer token of its next call, how
/// many times it was refreshed, how many calls it made, and its phase.
pub struct ForwardState {
    pub workspace: Seq<char>,
    pub token: Seq<char>,
    pub attempt: nat,
    pub sends: nat,
    pub phase: Phase,
}

/// What happens to a forwarded request.
pub enum ForwardEvent {
    /// A call to the service.
    Send,
    /// The service answered with this status.
    Answer(u16),
    /// The captured account's token was refreshed to this one.
    Refreshed(Seq<char>),
}

/// A request that has just captured an account.
pub open spec fn forward_start(workspace: Seq<char>, token: Seq<char>) -> ForwardState {
    ForwardState { workspace, token, attempt: 0, sends: 0, phase: Phase::Ready }
}

/// One step of a forwarded request; `None` where the event cannot happen in
/// this phase.
pub open spec fn forward_step(s: ForwardState, e: ForwardEvent) -> Option<ForwardState> {
    match e {
        ForwardEvent::Send => if s.phase == Phase::Ready {
            Some(ForwardState { sends: s.sends + 1, phase: Phase::Sent, ..s })
        } else {
            None
        },
        ForwardEvent::Answer(status) => if s.phase == Phase::Sent {
            if reply_for(s.attempt as u32, status) == Reply::RefreshAndRetry {
                Some(ForwardState { phase: Phase::Refreshing, ..s })
            } else {
                Some(ForwardState { phase: Phase::Done, ..s })
            }
        } else {
            None
        },
        ForwardEvent::Refreshed(token) => if s.phase == Phase::Refreshing {
            Some(ForwardState { token, attempt: s.attempt + 1, phase: Phase::Ready, ..s })
        } else {
            None
        },
    }
}

/// The state after `events`, from `s`; `None` if one of them cannot happen.
pub open spec fn forward_run(s: ForwardState, events: Seq<ForwardEvent>) -> Option<ForwardState>
    decreases events.len(),
{
    if events.len() == 0 {
        Some(s)
    } else {
        match forward_run(s, events.drop_last()) {
            Some(t) => forward_step(t, events.last()),
            None => None,
        }
    }
}

/// What every reachable state of a forwarded request keeps.
pub open spec fn forward_wf(s: ForwardState) -> bool {
    &&& s.attempt <= 1
    &&& match s.phase {
        Phase::Ready => s.sends == s.attempt,
        Phase::Sent => s.sends == s.attempt + 1,
        Phase::Refreshing => s.sends == 1 && s.attempt == 0,
        Phase::Done => s.sends == s.attempt + 1,
    }
}

proof fn lemma_forward_step_wf(s: ForwardState, e: ForwardEvent)
    requires
        forward_wf(s),
    ensures
        forward_step(s, e) matches Some(t) ==> forward_wf(t) && t.workspace == s.workspace,
{
}

/// A forwarded request keeps the account it captured: whatever happens to
/// it (a switch of the selected account included, which is no event of the
/// request), every call it makes carries the captured workspace, and it
/// calls the service at most twice: once, and once more after HTTP 401 and
/// a refresh of that same account.
pub proof fn law_forward_keeps_captured_account(
    workspace: Seq<char>,
    token: Seq<char>,
    events: Seq<ForwardEvent>,
)
    ensures
        forward_run(forward_start(workspace, token), events) matches Some(s) ==> {
            &&& s.workspace == workspace
            &&& s.sends <= 2
            &&& s.attempt <= 1
        },
    decreases events.len(),
{
    if events.len() > 0 {
        law_forward_keeps_captured_account(workspace, token, events.drop_last());
        match forward_run(forward_start(workspace, token), events.drop_last()) {
            Some(t) => {
                lemma_forward_wf_run(workspace, token, events.drop_last());
                lemma_forward_step_wf(t, events.last());
            },
            None => {},
        }
    }
}

proof fn lemma_forward_wf_run(workspace: Seq<char>, token: Seq<char>, events: Seq<ForwardEvent>)
    ensures
        forward_run(forward_start(workspace, token), events) matches Some(s) ==> forward_wf(s)
            && s.workspace == workspace,
    decreases events.len(),
{
    if events.len() > 0 {
        lemma_forward_wf_run(workspace, token, events.drop_last());
        match forward_run(forward_start(workspace, token), events.drop_last()) {
            Some(t) => lemma_forward_step_wf(t, events.last()),
            None => {},
        }
    }
}

/// A forwarded request in the running program.
pub struct Forward {
    workspace: String,
    token: String,
    attempt: u32,
    sends: u32,
    phase: Phase,
}

impl Forward {
    pub closed spec fn state(self) -> ForwardState {
        ForwardState {
            workspace: self.workspace@,
            token: self.token@,
            attempt: self.attempt as nat,
            sends: self.sends as nat,
            phase: self.phase,
        }
    }

    #[verifier::type_invariant]
    closed spec fn inv(self) -> bool {
        forward_wf(self.state())
    }

    /// Starts a request with the account it captured.
    pub fn new(captured: &Credential) -> (r: Forward)
        ensures
            r.state() == forward_start(captured.workspace_id(), captured.token()),
    {
        Forward {
            workspace: String::from_str(captured.workspace()),
            token: captured.access_token(),
            attempt: 0,
            sends: 0,
            phase: Phase::Ready,
        }
    }

    pub fn phase(&self) -> (r: Phase)
        ensures
            r == self.state().phase,
    {
        self.phase
    }

    /// The workspace and bearer token of the next call to the service.
    pub fn send(&mut self) -> (r: (String, String))
        requires
            old(self).state().phase == Phase::Ready,
        ensures
            forward_step(old(self).state(), ForwardEvent::Send) == Some(final(self).state()),
            r.0@ == old(self).state().workspace,
            r.1@ == old(self).state().token,
    {
        proof {
            use_type_invariant(&*self);
        }
        let workspace = self.workspace.clone();
        let token = self.token.clone();
        *self = Forward {
            workspace: self.workspace.clone(),
            token: self.token.clone(),
            attempt: self.attempt,
            sends: self.sends + 1,
            phase: Phase::Sent,
        };
        (workspace, token)
    }

    /// Takes the status of the service's reply; `true` when the captured
    /// account's token must be refreshed and the request sent again.
    pub fn answer(&mut self, status: u16) -> (retry: bool)
        requires
            old(self).state().phase == Phase::Sent,
        ensures
            forward_step(old(self).state(), ForwardEvent::Answer(status)) == Some(final(self).state()),
            retry == (final(self).state().phase == Phase::Refreshing),
    {
        proof {
            use_type_invariant(&*self);
        }
        if reply(self.attempt, status) == Reply::RefreshAndRetry {
            self.phase = Phase::Refreshing;
            true
        } else {
            self.phase = Phase::Done;
            false
        }
    }

    /// Takes the refreshed credential of the captured account; only its
    /// token is used, the workspace stays the captured one.
    pub fn refreshed(&mut self, refreshed: &Credential)
        requires
            old(self).state().phase == Phase::Refreshing,
        ensures
            forward_step(old(self).state(), ForwardEvent::Refreshed(refreshed.token())) == Some(
                final(self).state(),
            ),
    {
        proof {
            use_type_invariant(&*self);
        }
        *self = Forward {
            workspace: self.workspace.clone(),
            token: refreshed.access_token(),
            attempt: self.attempt + 1,
            sends: self.sends,
            phase: Phase::Ready,
        };
    }
}

} // verus!
