//! Codex identities read from `auth.json`-shaped credentials, and the
//! decisions of the file-backed account store. Raw credentials never leave
//! this module except as the exact bytes that were validated.
use vstd::prelude::*;
use base64::Engine;
use sha2::Digest;
use crate::doc::{Doc, json_document, parse_json, parse_toml, toml_document};
use crate::text::{
    chars_of, check_hex64, find_from, hex_lower, hex_text, is_hex64, position, lemma_position,
    same_text, slice_string, text_le,
    string_of, trim_end,
};

verus! {

/// Largest credential file accepted, in bytes.
pub const MAX_AUTH: usize = 1048576;

/// Why a credential was refused. Messages never quote the credential.
#[derive(Debug, Clone, Copy, PartialEq, Eq, Structural)]
pub enum AuthError {
    TooLarge,
    InvalidFormat,
    NotChatGpt,
    IncompleteLogin,
    InvalidIdToken,
    InvalidMetadata,
    MissingWorkspace,
    MissingUser,
}

/// The text shown for each `AuthError`.
pub open spec fn auth_error_text(e: AuthError) -> Seq<char> {
    match e {
        AuthError::TooLarge => "The sign-in file is too large."@,
        AuthError::InvalidFormat => "The sign-in file has an invalid format."@,
        AuthError::NotChatGpt => "Only ChatGPT accounts are supported, not API keys."@,
        AuthError::IncompleteLogin => "The ChatGPT sign-in is incomplete. Sign in to the account again."@,
        AuthError::InvalidIdToken => "Invalid identity token."@,
        AuthError::InvalidMetadata => "Invalid account metadata."@,
        AuthError::MissingWorkspace => "The account identifier is missing."@,
        AuthError::MissingUser => "The user identifier is missing."@,
    }
}

impl AuthError {
    pub fn message(&self) -> (r: &'static str)
        ensures
            r@ == auth_error_text(*self),
    {
        match self {
            AuthError::TooLarge => "The sign-in file is too large.",
            AuthError::InvalidFormat => "The sign-in file has an invalid format.",
            AuthError::NotChatGpt => "Only ChatGPT accounts are supported, not API keys.",
            AuthError::IncompleteLogin => "The ChatGPT sign-in is incomplete. Sign in to the account again.",
            AuthError::InvalidIdToken => "Invalid identity token.",
            AuthError::InvalidMetadata => "Invalid account metadata.",
            AuthError::MissingWorkspace => "The account identifier is missing.",
            AuthError::MissingUser => "The user identifier is missing.",
        }
    }

    /// The message shown to the user.
    pub fn to_string(&self) -> (r: String)
        ensures
            r@ == auth_error_text(*self),
    {
        String::from_str(self.message())
    }
}

/// `URL_SAFE_NO_PAD` decoding as `base64` performs it; `None` on a decode error.
pub uninterp spec fn base64_url_decode(input: Seq<u8>) -> Option<Seq<u8>>;

/// The SHA-256 digest that `sha2::Sha256::digest` computes.
pub uninterp spec fn sha256_digest(data: Seq<u8>) -> Seq<u8>;

/// Calls `base64::engine::general_purpose::URL_SAFE_NO_PAD.decode`.
#[verifier::external_body]
fn decode_base64_url(input: &[u8]) -> (r: Option<Vec<u8>>)
    ensures
        match r {
            Some(v) => base64_url_decode(input@) == Some(v@),
            None => base64_url_decode(input@) is None,
        },
{
    base64::engine::general_purpose::URL_SAFE_NO_PAD.decode(input).ok()
}

/// Calls `sha2::Sha256::digest`; the digest is 32 bytes long.
#[verifier::external_body]
fn sha256(data: &[u8]) -> (r: Vec<u8>)
    ensures
        r@ == sha256_digest(data@),
        r@.len() == 32,
{
    sha2::Sha256::digest(data).to_vec()
}

/// The second `.`-separated segment of a JWT, if there is one.
pub open spec fn second_segment(s: Seq<char>) -> Option<Seq<char>> {
    let i = position(s, '.');
    if i >= s.len() {
        None
    } else {
        let rest = s.subrange(i + 1, s.len() as int);
        Some(rest.subrange(0, position(rest, '.')))
    }
}

/// The claims object of a JWT: its payload segment, trailing `=` removed,
/// base64url-decoded and read as JSON.
pub open spec fn jwt_claims(token: Seq<char>) -> Option<Doc> {
    match second_segment(token) {
        None => None,
        Some(p) => match base64_url_decode(crate::text::utf8(trim_end(p, '='))) {
            None => None,
            Some(b) => json_document(b),
        },
    }
}

/// The `exp` claim of a JWT, when its claims are readable.
pub open spec fn token_expiry(token: Seq<char>) -> Option<i64> {
    match jwt_claims(token) {
        Some(c) => c.index_key("exp"@).signed(),
        None => None,
    }
}

/// Whether a token counts as expiring at `now`: no readable expiry, or one
/// at most 300 seconds after `now`.
pub open spec fn token_expiring(token: Seq<char>, now: i64) -> bool {
    match token_expiry(token) {
        Some(exp) => exp <= now + 300,
        None => true,
    }
}

/// The first present value.
pub open spec fn or_else(a: Option<Seq<char>>, b: Option<Seq<char>>) -> Option<Seq<char>> {
    if a is Some {
        a
    } else {
        b
    }
}

pub open spec fn text_or(a: Option<Seq<char>>, default: Seq<char>) -> Seq<char> {
    match a {
        Some(t) => t,
        None => default,
    }
}

/// A string member that is present and not empty.
pub open spec fn filled(d: Doc) -> bool {
    d.text() is Some && d.text()->0.len() > 0
}

pub open spec fn auth_value(bytes: Seq<u8>) -> Doc {
    json_document(bytes)->0
}

pub open spec fn auth_tokens(bytes: Seq<u8>) -> Doc {
    auth_value(bytes).index_key("tokens"@)
}

pub open spec fn auth_id_token(bytes: Seq<u8>) -> Seq<char> {
    auth_tokens(bytes).index_key("id_token"@).text()->0
}

pub open spec fn auth_claims(bytes: Seq<u8>) -> Doc {
    jwt_claims(auth_id_token(bytes))->0
}

pub open spec fn auth_section(bytes: Seq<u8>) -> Doc {
    auth_claims(bytes).index_key("https://api.openai.com/auth"@)
}

/// The workspace: `tokens.account_id`, else the token's `chatgpt_account_id`.
pub open spec fn workspace_choice(bytes: Seq<u8>) -> Option<Seq<char>> {
    or_else(
        auth_tokens(bytes).index_key("account_id"@).text(),
        auth_section(bytes).index_key("chatgpt_account_id"@).text(),
    )
}

/// The user: the token's `sub`, else its `chatgpt_user_id`.
pub open spec fn subject_choice(bytes: Seq<u8>) -> Option<Seq<char>> {
    or_else(
        auth_claims(bytes).index_key("sub"@).text(),
        auth_section(bytes).index_key("chatgpt_user_id"@).text(),
    )
}

/// Whether the file is a ChatGPT sign-in rather than an API key.
pub open spec fn chatgpt_mode(v: Doc) -> bool {
    (match v.get_key("auth_mode"@) {
        Some(m) => match m.text() {
            Some(t) => t == "chatgpt"@,
            None => true,
        },
        None => true,
    }) && (match v.get_key("OPENAI_API_KEY"@) {
        Some(k) => k.is_null(),
        None => true,
    })
}

/// The first reason, in checking order, why `bytes` is not a usable credential.
pub open spec fn auth_error(bytes: Seq<u8>) -> Option<AuthError> {
    if bytes.len() > MAX_AUTH {
        Some(AuthError::TooLarge)
    } else if json_document(bytes) is None {
        Some(AuthError::InvalidFormat)
    } else if !chatgpt_mode(auth_value(bytes)) {
        Some(AuthError::NotChatGpt)
    } else if !(filled(auth_tokens(bytes).index_key("id_token"@)) && filled(
        auth_tokens(bytes).index_key("access_token"@),
    ) && filled(auth_tokens(bytes).index_key("refresh_token"@))) {
        Some(AuthError::IncompleteLogin)
    } else if second_segment(auth_id_token(bytes)) is None || base64_url_decode(
        crate::text::utf8(trim_end(second_segment(auth_id_token(bytes))->0, '=')),
    ) is None {
        Some(AuthError::InvalidIdToken)
    } else if jwt_claims(auth_id_token(bytes)) is None {
        Some(AuthError::InvalidMetadata)
    } else if workspace_choice(bytes) is None || workspace_choice(bytes)->0.len() == 0 {
        Some(AuthError::MissingWorkspace)
    } else if subject_choice(bytes) is None {
        Some(AuthError::MissingUser)
    } else {
        None
    }
}

/// Stable profile identifier: hex SHA-256 of `workspace`, NUL, `subject`.
pub open spec fn profile_id(workspace: Seq<char>, subject: Seq<char>) -> Seq<char> {
    hex_text(sha256_digest(crate::text::utf8(workspace + seq!['\0'] + subject)))
}

pub open spec fn auth_account_id(bytes: Seq<u8>) -> Seq<char> {
    profile_id(workspace_choice(bytes)->0, subject_choice(bytes)->0)
}

pub open spec fn auth_email(bytes: Seq<u8>) -> Seq<char> {
    text_or(auth_claims(bytes).index_key("email"@).text(), "Konto ChatGPT"@)
}

pub open spec fn auth_plan(bytes: Seq<u8>) -> Seq<char> {
    text_or(auth_section(bytes).index_key("chatgpt_plan_type"@).text(), "nieznany plan"@)
}

pub open spec fn auth_access_token(bytes: Seq<u8>) -> Seq<char> {
    auth_tokens(bytes).index_key("access_token"@).text()->0
}

/// Public identity of a saved profile.
#[derive(Clone, Debug)]
pub struct Account {
    pub id: String,
    pub email: String,
    pub plan: String,
}

impl Account {
    /// A field-for-field copy.
    pub fn duplicate(&self) -> (r: Account)
        ensures
            r == *self,
    {
        Account { id: self.id.clone(), email: self.email.clone(), plan: self.plan.clone() }
    }
}

/// A validated ChatGPT credential and the identity read from it.
pub struct Credential {
    bytes: Vec<u8>,
    pub account: Account,
    workspace: String,
    access_token: String,
}

impl Credential {
    /// The exact bytes that were validated.
    pub closed spec fn raw(self) -> Seq<u8> {
        self.bytes@
    }

    /// The identity read from the credential.
    pub closed spec fn ident(self) -> Account {
        self.account
    }

    pub closed spec fn token(self) -> Seq<char> {
        self.access_token@
    }

    pub closed spec fn workspace_id(self) -> Seq<char> {
        self.workspace@
    }

    /// What `parse` promises of a credential made from `bytes`.
    pub open spec fn read_from(self, bytes: Seq<u8>) -> bool {
        &&& self.raw() == bytes
        &&& self.ident().id@ == auth_account_id(bytes)
        &&& self.ident().email@ == auth_email(bytes)
        &&& self.ident().plan@ == auth_plan(bytes)
        &&& self.workspace_id() == workspace_choice(bytes)->0
        &&& self.token() == auth_access_token(bytes)
    }

    /// The identity read from the credential.
    pub fn account(&self) -> (r: &Account)
        ensures
            *r == self.ident(),
    {
        &self.account
    }

    /// The validated bytes, for writing to a profile file.
    pub fn bytes(&self) -> (r: &[u8])
        ensures
            r@ == self.raw(),
    {
        self.bytes.as_slice()
    }

    /// The OAuth access token.
    pub fn access_token(&self) -> (r: String)
        ensures
            r@ == self.token(),
    {
        self.access_token.clone()
    }

    /// The OAuth refresh token stored with the credential.
    pub fn refresh_token(&self) -> (r: Option<String>)
        ensures
            match r {
                Some(t) => json_document(self.raw()) is Some && auth_tokens(self.raw()).index_key(
                    "refresh_token"@,
                ).text() == Some(t@),
                None => json_document(self.raw()) is None || auth_tokens(self.raw()).index_key(
                    "refresh_token"@,
                ).text() is None,
            },
    {
        match parse_json(self.bytes.as_slice()) {
            Some(d) => match d.at_key("tokens").at_key("refresh_token").as_str() {
                Some(t) => Some(String::from_str(t)),
                None => None,
            },
            None => None,
        }
    }

    /// The ChatGPT workspace the credential belongs to.
    pub fn workspace(&self) -> (r: &str)
        ensures
            r@ == self.workspace_id(),
    {
        self.workspace.as_str()
    }

    /// Whether the access token expires within five minutes of `now` (UNIX
    /// seconds), or carries no readable `exp` claim.
    pub fn expires_soon_at(&self, now: i64) -> (r: bool)
        ensures
            r == token_expiring(self.token(), now),
    {
        match jwt_claims_of(self.access_token.as_str()) {
            ClaimsRead::Claims(c) => match c.at_key("exp").as_i64() {
                Some(exp) => (exp as i128) <= (now as i128) + 300,
                None => true,
            },
            _ => true,
        }
    }

    /// `expires_soon_at` the current time. A token without a readable
    /// expiry counts as expiring whatever the time.
    pub fn expires_soon(&self) -> (r: bool)
        ensures
            exists|now: i64| r == token_expiring(self.token(), now),
            token_expiry(self.token()) is None ==> r,
    {
        let now = crate::clock::now();
        self.expires_soon_at(now.secs)
    }

    /// Validates an `auth.json`-shaped ChatGPT credential and reads its identity.
    pub fn parse(bytes: Vec<u8>) -> (r: Result<Credential, AuthError>)
        ensures
            match r {
                Ok(c) => auth_error(bytes@) is None && c.read_from(bytes@),
                Err(e) => auth_error(bytes@) == Some(e),
            },
    {
        if bytes.len() > MAX_AUTH {
            return Err(AuthError::TooLarge);
        }
        let value = match parse_json(bytes.as_slice()) {
            Some(v) => v,
            None => return Err(AuthError::InvalidFormat),
        };
        let mode_ok = match value.get("auth_mode") {
            Some(m) => match m.as_str() {
                Some(t) => same_text(t, "chatgpt"),
                None => true,
            },
            None => true,
        };
        let key_ok = match value.get("OPENAI_API_KEY") {
            Some(k) => k.is_null_node(),
            None => true,
        };
        if !(mode_ok && key_ok) {
            return Err(AuthError::NotChatGpt);
        }
        let tokens = value.at_key("tokens");
        let id_token = match tokens.at_key("id_token").as_str() {
            Some(t) => t,
            None => return Err(AuthError::IncompleteLogin),
        };
        let access = match tokens.at_key("access_token").as_str() {
            Some(t) => t,
            None => return Err(AuthError::IncompleteLogin),
        };
        let refresh = match tokens.at_key("refresh_token").as_str() {
            Some(t) => t,
            None => return Err(AuthError::IncompleteLogin),
        };
        if id_token.is_empty() || access.is_empty() || refresh.is_empty() {
            return Err(AuthError::IncompleteLogin);
        }
        let claims = match jwt_claims_of(id_token) {
            ClaimsRead::NoPayload => return Err(AuthError::InvalidIdToken),
            ClaimsRead::NotJson => return Err(AuthError::InvalidMetadata),
            ClaimsRead::Claims(c) => c,
        };
        let auth = claims.at_key("https://api.openai.com/auth");
        let workspace = match tokens.at_key("account_id").as_str() {
            Some(w) => w,
            None => match auth.at_key("chatgpt_account_id").as_str() {
                Some(w) => w,
                None => return Err(AuthError::MissingWorkspace),
            },
        };
        if workspace.is_empty() {
            return Err(AuthError::MissingWorkspace);
        }
        let subject = match claims.at_key("sub").as_str() {
            Some(s) => s,
            None => match auth.at_key("chatgpt_user_id").as_str() {
                Some(s) => s,
                None => return Err(AuthError::MissingUser),
            },
        };
        let mut key: Vec<char> = chars_of(workspace);
        key.push('\0');
        let subject_chars = chars_of(subject);
        let mut joined = key;
        let mut i: usize = 0;
        let ghost prefix = joined@;
        while i < subject_chars.len()
            invariant
                i <= subject_chars@.len(),
                joined@ == prefix + subject_chars@.take(i as int),
            decreases subject_chars.len() - i,
        {
            joined.push(subject_chars[i]);
            i = i + 1;
            assert(joined@ =~= prefix + subject_chars@.take(i as int));
        }
        assert(subject_chars@.take(subject_chars@.len() as int) =~= subject@);
        let key_text = string_of(joined.as_slice());
        let digest = sha256(key_text.as_str().as_bytes());
        let id = hex_lower(digest.as_slice());
        let email = match claims.at_key("email").as_str() {
            Some(e) => String::from_str(e),
            None => String::from_str("Konto ChatGPT"),
        };
        let plan = match auth.at_key("chatgpt_plan_type").as_str() {
            Some(p) => String::from_str(p),
            None => String::from_str("nieznany plan"),
        };
        let workspace = String::from_str(workspace);
        let access_token = String::from_str(access);
        assert(auth_error(bytes@) is None);
        assert(workspace@ == workspace_choice(bytes@)->0);
        assert(key_text@ == workspace_choice(bytes@)->0 + seq!['\0'] + subject_choice(bytes@)->0);
        assert(id@ == auth_account_id(bytes@));
        assert(email@ == auth_email(bytes@));
        assert(plan@ == auth_plan(bytes@));
        assert(access_token@ == auth_access_token(bytes@));
        Ok(Credential { bytes, account: Account { id, email, plan }, workspace, access_token })
    }
}

/// A copy of the validated bytes of a credential.
pub fn bytes_of(c: &Credential) -> (r: Vec<u8>)
    ensures
        r@ == c.raw(),
{
    vstd::slice::slice_to_vec(c.bytes())
}

/// Outcome of reading the claims of a JWT.
pub enum ClaimsRead {
    /// No payload segment, or it is not valid base64url.
    NoPayload,
    /// The payload decodes but is not JSON.
    NotJson,
    Claims(Doc),
}

/// Reads the claims of a JWT as `Credential::parse` does.
pub fn jwt_claims_of(token: &str) -> (r: ClaimsRead)
    ensures
        match r {
            ClaimsRead::NoPayload => second_segment(token@) is None || base64_url_decode(
                crate::text::utf8(trim_end(second_segment(token@)->0, '=')),
            ) is None,
            ClaimsRead::NotJson => second_segment(token@) is Some && base64_url_decode(
                crate::text::utf8(trim_end(second_segment(token@)->0, '=')),
            ) is Some && jwt_claims(token@) is None,
            ClaimsRead::Claims(c) => jwt_claims(token@) == Some(c),
        },
{
    let cs = chars_of(token);
    proof {
        lemma_position(cs@, '.');
    }
    let dot = find_from(&cs, 0, '.');
    assert(cs@.subrange(0, cs@.len() as int) =~= cs@);
    if dot >= cs.len() {
        return ClaimsRead::NoPayload;
    }
    let start = dot + 1;
    let ghost rest = cs@.subrange(start as int, cs@.len() as int);
    proof {
        lemma_position(rest, '.');
    }
    let end = find_from(&cs, start, '.');
    // Trim trailing '=' of cs[start..end].
    let mut stop = end;
    assert(rest.subrange(0, position(rest, '.')) =~= cs@.subrange(start as int, end as int));
    while stop > start && cs[stop - 1] == '='
        invariant
            start <= stop <= end <= cs@.len(),
            trim_end(cs@.subrange(start as int, end as int), '=') == trim_end(
                cs@.subrange(start as int, stop as int),
                '=',
            ),
        decreases stop,
    {
        assert(cs@.subrange(start as int, stop as int).drop_last() =~= cs@.subrange(
            start as int,
            stop - 1,
        ));
        stop = stop - 1;
    }
    assert(trim_end(cs@.subrange(start as int, stop as int), '=') == cs@.subrange(
        start as int,
        stop as int,
    ));
    let payload = slice_string(&cs, start, stop);
    match decode_base64_url(payload.as_str().as_bytes()) {
        None => ClaimsRead::NoPayload,
        Some(decoded) => match parse_json(decoded.as_slice()) {
            None => ClaimsRead::NotJson,
            Some(c) => ClaimsRead::Claims(c),
        },
    }
}

} // verus!


verus! {

/// Why a store operation was refused.
#[derive(Debug, Clone, Copy, PartialEq, Eq, Structural)]
pub enum StoreError {
    Auth(AuthError),
    ConfigUnreadable,
    UnsupportedStore,
    LoginMethod,
    WorkspaceMismatch,
    InvalidProfileId,
    NoCliLogin,
    AlreadySaved,
    LoginNotSaved,
    AccountNotFound,
    IdentityMismatch,
    NoActiveAccount,
    ProfileNotFound,
    RefreshChangedIdentity,
    ProfileChanged,
    SwitchFirst,
    ProfileVanished,
    FileIdentityMismatch,
}

/// The text shown for each `StoreError`.
pub open spec fn store_error_text(e: StoreError) -> Seq<char> {
    match e {
        StoreError::Auth(e) => auth_error_text(e),
        StoreError::ConfigUnreadable => "Could not read config.toml."@,
        StoreError::UnsupportedStore => "Only the file credential store is supported. A different cli_auth_credentials_store was found; nothing was changed."@,
        StoreError::LoginMethod => "The configuration requires a different sign-in method."@,
        StoreError::WorkspaceMismatch => "The account does not match the workspace required by the configuration."@,
        StoreError::InvalidProfileId => "Invalid profile identifier."@,
        StoreError::NoCliLogin => "The CLI has no saved sign-in. Choose Add account."@,
        StoreError::AlreadySaved => "This account is already saved. Use Add account if you need a new sign-in."@,
        StoreError::LoginNotSaved => "The sign-in did not save an account."@,
        StoreError::AccountNotFound => "Account not found."@,
        StoreError::IdentityMismatch => "The profile identity does not match the selection."@,
        StoreError::NoActiveAccount => "Select an account in the switcher."@,
        StoreError::ProfileNotFound => "Profile not found."@,
        StoreError::RefreshChangedIdentity => "The refresh changed the account identity."@,
        StoreError::ProfileChanged => "The profile changed during the refresh; retry the request."@,
        StoreError::SwitchFirst => "Switch to another account first."@,
        StoreError::ProfileVanished => "The profile disappeared while it was being read."@,
        StoreError::FileIdentityMismatch => "The profile identity does not match its file."@,
    }
}

impl StoreError {
    pub fn message(&self) -> (r: &'static str)
        ensures
            r@ == store_error_text(*self),
    {
        match self {
            StoreError::Auth(e) => e.message(),
            StoreError::ConfigUnreadable => "Could not read config.toml.",
            StoreError::UnsupportedStore => "Only the file credential store is supported. A different cli_auth_credentials_store was found; nothing was changed.",
            StoreError::LoginMethod => "The configuration requires a different sign-in method.",
            StoreError::WorkspaceMismatch => "The account does not match the workspace required by the configuration.",
            StoreError::InvalidProfileId => "Invalid profile identifier.",
            StoreError::NoCliLogin => "The CLI has no saved sign-in. Choose Add account.",
            StoreError::AlreadySaved => "This account is already saved. Use Add account if you need a new sign-in.",
            StoreError::LoginNotSaved => "The sign-in did not save an account.",
            StoreError::AccountNotFound => "Account not found.",
            StoreError::IdentityMismatch => "The profile identity does not match the selection.",
            StoreError::NoActiveAccount => "Select an account in the switcher.",
            StoreError::ProfileNotFound => "Profile not found.",
            StoreError::RefreshChangedIdentity => "The refresh changed the account identity.",
            StoreError::ProfileChanged => "The profile changed during the refresh; retry the request.",
            StoreError::SwitchFirst => "Switch to another account first.",
            StoreError::ProfileVanished => "The profile disappeared while it was being read.",
            StoreError::FileIdentityMismatch => "The profile identity does not match its file.",
        }
    }

    /// The message shown to the user.
    pub fn to_string(&self) -> (r: String)
        ensures
            r@ == store_error_text(*self),
    {
        String::from_str(self.message())
    }
}

/// `name` appended to the directory `base` as `Path::join` does for a
/// relative name: no separator is added after an empty base or a trailing `/`.
pub open spec fn path_join(base: Seq<char>, name: Seq<char>) -> Seq<char> {
    if base.len() == 0 {
        name
    } else if base.last() == '/' {
        base + name
    } else {
        base + seq!['/'] + name
    }
}

pub fn join_path(base: &str, name: &str) -> (r: String)
    ensures
        r@ == path_join(base@, name@),
{
    let b = chars_of(base);
    let mut out = b;
    if out.len() > 0 && out[out.len() - 1] != '/' {
        out.push('/');
    }
    crate::text::push_str(&mut out, name);
    string_of(out.as_slice())
}

/// The text member `key` of a table, if present and a string.
pub open spec fn member_text(d: Doc, key: Seq<char>) -> Option<Seq<char>> {
    match d.get_key(key) {
        Some(v) => v.text(),
        None => None,
    }
}

/// Whether a `forced_chatgpt_workspace_id` value admits `workspace`.
pub open spec fn workspace_allowed(expected: Doc, workspace: Seq<char>) -> bool {
    expected.text() == Some(workspace) || match expected {
        Doc::Array(items) => exists|i: int|
            0 <= i < items@.len() && (#[trigger] items@[i]).text() == Some(workspace),
        _ => false,
    }
}

/// The first reason the CLI configuration rules out the file store, or the
/// credential's workspace when one is given.
pub open spec fn config_error(cfg: Doc, workspace: Option<Seq<char>>) -> Option<StoreError> {
    if text_or(member_text(cfg, "cli_auth_credentials_store"@), "file"@) != "file"@ {
        Some(StoreError::UnsupportedStore)
    } else if member_text(cfg, "forced_login_method"@) is Some && member_text(
        cfg,
        "forced_login_method"@,
    )->0 != "chatgpt"@ {
        Some(StoreError::LoginMethod)
    } else if cfg.get_key("forced_chatgpt_workspace_id"@) is Some && workspace is Some
        && !workspace_allowed(cfg.get_key("forced_chatgpt_workspace_id"@)->0, workspace->0) {
        Some(StoreError::WorkspaceMismatch)
    } else {
        None
    }
}

/// The Codex CLI configuration (`config.toml`) as the store reads it.
pub struct CliConfig {
    pub table: Doc,
}

impl CliConfig {
    /// Reads `config.toml` text; `None` stands for a missing file, read as
    /// an empty table.
    pub fn read(text: Option<&str>) -> (r: Result<CliConfig, StoreError>)
        ensures
            match text {
                None => r matches Ok(c) && c.table matches Doc::Table(v) && v@.len() == 0,
                Some(t) => match toml_document(t@) {
                    Some(d) => r matches Ok(c) && c.table == d,
                    None => r == Err::<CliConfig, StoreError>(StoreError::ConfigUnreadable),
                },
            },
    {
        match text {
            None => Ok(CliConfig { table: Doc::Table(Vec::new()) }),
            Some(t) => match parse_toml(t) {
                Some(d) => Ok(CliConfig { table: d }),
                None => Err(StoreError::ConfigUnreadable),
            },
        }
    }
}

fn member_str<'a>(d: &'a Doc, key: &str) -> (r: Option<&'a str>)
    ensures
        match r {
            Some(s) => member_text(*d, key@) == Some(s@),
            None => member_text(*d, key@) is None,
        },
{
    match d.get(key) {
        Some(v) => v.as_str(),
        None => None,
    }
}

fn allows_workspace(expected: &Doc, workspace: &str) -> (r: bool)
    ensures
        r == workspace_allowed(*expected, workspace@),
{
    if let Some(s) = expected.as_str() {
        if same_text(s, workspace) {
            return true;
        }
    }
    match expected {
        Doc::Array(items) => {
            let mut i: usize = 0;
            while i < items.len()
                invariant
                    i <= items@.len(),
                    expected.text() != Some(workspace@),
                    *expected == Doc::Array(*items),
                    forall|j: int| 0 <= j < i ==> (#[trigger] items@[j]).text() != Some(workspace@),
                decreases items.len() - i,
            {
                if let Some(s) = items[i].as_str() {
                    if same_text(s, workspace) {
                        return true;
                    }
                }
                i = i + 1;
            }
            false
        },
        _ => false,
    }
}

/// Whether `ids` holds `id`.
pub fn contains_text(ids: &Vec<String>, id: &str) -> (r: bool)
    ensures
        r == exists|i: int| 0 <= i < ids@.len() && (#[trigger] ids@[i])@ == id@,
{
    let mut i: usize = 0;
    while i < ids.len()
        invariant
            i <= ids@.len(),
            forall|j: int| 0 <= j < i ==> (#[trigger] ids@[j])@ != id@,
        decreases ids.len() - i,
    {
        if same_text(ids[i].as_str(), id) {
            return true;
        }
        i = i + 1;
    }
    false
}

/// Where the switcher keeps its data and where the CLI keeps its own.
#[derive(Clone)]
pub struct Store {
    pub codex_home: String,
    pub root: String,
}

/// The profile-file path of `id` under `root`.
pub open spec fn profile_path(root: Seq<char>, id: Seq<char>) -> Seq<char> {
    path_join(path_join(root, "accounts"@), id + ".json"@)
}

impl Store {
    /// Applies the CLI configuration rules to the file store and, when one is
    /// given, to a credential's workspace.
    pub fn check_config(&self, config: &CliConfig, credential: Option<&Credential>) -> (r: Result<
        (),
        StoreError,
    >)
        ensures
            match r {
                Ok(()) => config_error(
                    config.table,
                    match credential {
                        Some(c) => Some(c.workspace_id()),
                        None => None,
                    },
                ) is None,
                Err(e) => config_error(
                    config.table,
                    match credential {
                        Some(c) => Some(c.workspace_id()),
                        None => None,
                    },
                ) == Some(e),
            },
    {
        let store_kind = match member_str(&config.table, "cli_auth_credentials_store") {
            Some(s) => s,
            None => "file",
        };
        if !same_text(store_kind, "file") {
            return Err(StoreError::UnsupportedStore);
        }
        if let Some(m) = member_str(&config.table, "forced_login_method") {
            if !same_text(m, "chatgpt") {
                return Err(StoreError::LoginMethod);
            }
        }
        if let Some(expected) = config.table.get("forced_chatgpt_workspace_id") {
            if let Some(c) = credential {
                if !allows_workspace(expected, c.workspace()) {
                    return Err(StoreError::WorkspaceMismatch);
                }
            }
        }
        Ok(())
    }

    /// The profile file of `id`; only 64 hexadecimal digits name a profile.
    pub fn account_path(&self, id: &str) -> (r: Result<String, StoreError>)
        ensures
            match r {
                Ok(p) => is_hex64(id@) && p@ == profile_path(self.root@, id@),
                Err(e) => !is_hex64(id@) && e == StoreError::InvalidProfileId,
            },
    {
        if !check_hex64(id) {
            return Err(StoreError::InvalidProfileId);
        }
        let dir = join_path(self.root.as_str(), "accounts");
        let mut name = chars_of(id);
        crate::text::push_str(&mut name, ".json");
        let name = string_of(name.as_slice());
        Ok(join_path(dir.as_str(), name.as_str()))
    }

    /// Reads a profile: `found` is the content of its file, `None` when the
    /// file does not exist.
    pub fn credential(&self, id: &str, found: Option<Vec<u8>>) -> (r: Result<Credential, StoreError>)
        ensures
            match r {
                Ok(c) => is_hex64(id@) && found is Some && c.read_from(found->0@)
                    && auth_error(found->0@) is None && c.ident().id@ == id@,
                Err(e) => !profile_ok(id@, found) && e == profile_error(
                    id@,
                    found,
                    StoreError::ProfileNotFound,
                ),
            },
    {
        if !check_hex64(id) {
            return Err(StoreError::InvalidProfileId);
        }
        let bytes = match found {
            Some(b) => b,
            None => return Err(StoreError::ProfileNotFound),
        };
        let c = match Credential::parse(bytes) {
            Ok(c) => c,
            Err(e) => return Err(StoreError::Auth(e)),
        };
        if !same_text(c.account().id.as_str(), id) {
            return Err(StoreError::IdentityMismatch);
        }
        Ok(c)
    }

    /// Checks a switch to `id`; `target` is the content of its profile file.
    /// On success the active-account file is to hold the returned text.
    pub fn switch(&self, id: &str, target: Option<Vec<u8>>) -> (r: Result<String, StoreError>)
        ensures
            match r {
                Ok(active) => is_hex64(id@) && target is Some && auth_error(target->0@) is None
                    && auth_account_id(target->0@) == id@ && active@ == id@,
                Err(e) => !profile_ok(id@, target) && e == profile_error(id@, target, StoreError::AccountNotFound),
            },
    {
        match self.credential(id, target) {
            Ok(_) => Ok(String::from_str(id)),
            Err(StoreError::ProfileNotFound) => Err(StoreError::AccountNotFound),
            Err(e) => Err(e),
        }
    }

    /// The selected profile id; `contents` is the active-account file, `None`
    /// when it does not exist.
    pub fn active_id(&self, contents: Option<String>) -> (r: Result<Option<String>, StoreError>)
        ensures
            match contents {
                None => r == Ok::<Option<String>, StoreError>(None),
                Some(s) => if is_hex64(s@) {
                    r == Ok::<Option<String>, StoreError>(Some(s))
                } else {
                    r == Err::<Option<String>, StoreError>(StoreError::InvalidProfileId)
                },
            },
    {
        match contents {
            None => Ok(None),
            Some(s) => {
                if check_hex64(s.as_str()) {
                    Ok(Some(s))
                } else {
                    Err(StoreError::InvalidProfileId)
                }
            },
        }
    }

    /// The selected profile; `active` is the active-account file and `found`
    /// the profile file it names.
    pub fn active_credential(&self, active: Option<String>, found: Option<Vec<u8>>) -> (r: Result<
        Credential,
        StoreError,
    >)
        ensures
            match active {
                None => r == Err::<Credential, StoreError>(StoreError::NoActiveAccount),
                Some(id) => match r {
                    Ok(c) => is_hex64(id@) && found is Some && c.read_from(found->0@)
                        && c.ident().id@ == id@,
                    Err(e) => !profile_ok(id@, found) && e == profile_error(id@, found, StoreError::ProfileNotFound),
                },
            },
    {
        let id = match self.active_id(active) {
            Ok(Some(id)) => id,
            Ok(None) => return Err(StoreError::NoActiveAccount),
            Err(e) => return Err(e),
        };
        self.credential(id.as_str(), found)
    }

    /// Checks that a refreshed credential may replace `previous`: same
    /// identity, and the stored profile (`stored`) still holds `previous`.
    pub fn persist_refresh(
        &self,
        previous: &Credential,
        refreshed: &Credential,
        stored: Option<Vec<u8>>,
    ) -> (r: Result<(), StoreError>)
        ensures
            match r {
                Ok(()) => previous.ident().id@ == refreshed.ident().id@ && stored is Some
                    && stored->0@ == previous.raw(),
                Err(e) => if previous.ident().id@ != refreshed.ident().id@ {
                    e == StoreError::RefreshChangedIdentity
                } else if profile_error(previous.ident().id@, stored, StoreError::ProfileNotFound)
                    != StoreError::ProfileNotFound || stored is None {
                    e == profile_error(previous.ident().id@, stored, StoreError::ProfileNotFound)
                } else {
                    e == StoreError::ProfileChanged && stored->0@ != previous.raw()
                },
            },
    {
        if !same_text(previous.account().id.as_str(), refreshed.account().id.as_str()) {
            return Err(StoreError::RefreshChangedIdentity);
        }
        let current = self.credential(previous.account().id.as_str(), stored);
        match current {
            Err(e) => Err(e),
            Ok(c) => {
                if !same_bytes(c.bytes(), previous.bytes()) {
                    Err(StoreError::ProfileChanged)
                } else {
                    assert(c.raw() == stored->0@);
                    Ok(())
                }
            },
        }
    }

    /// Checks the removal of `id` while `current` is selected; the returned
    /// path is the profile file to delete.
    pub fn remove(&self, id: &str, current: Option<&Account>) -> (r: Result<String, StoreError>)
        ensures
            match r {
                Ok(p) => (current is None || current->0.id@ != id@) && is_hex64(id@) && p@
                    == profile_path(self.root@, id@),
                Err(e) => if current is Some && current->0.id@ == id@ {
                    e == StoreError::SwitchFirst
                } else {
                    !is_hex64(id@) && e == StoreError::InvalidProfileId
                },
            },
    {
        if let Some(c) = current {
            if same_text(c.id.as_str(), id) {
                return Err(StoreError::SwitchFirst);
            }
        }
        self.account_path(id)
    }

    /// Checks an import of the CLI's own sign-in: `config` is its
    /// configuration, `auth` its `auth.json` (`None` when absent) and `saved`
    /// the ids of the profiles already stored.
    pub fn import_current(&self, config: &CliConfig, auth: Option<Vec<u8>>, saved: &Vec<String>) -> (r:
        Result<Credential, StoreError>)
        ensures
            match r {
                Ok(c) => config_error(config.table, None) is None && auth is Some && auth_error(
                    auth->0@,
                ) is None && c.read_from(auth->0@) && config_error(
                    config.table,
                    Some(c.workspace_id()),
                ) is None && !(exists|i: int|
                    0 <= i < saved@.len() && (#[trigger] saved@[i])@ == c.ident().id@),
                Err(e) => if config_error(config.table, None) is Some {
                    Some(e) == config_error(config.table, None)
                } else if auth is None {
                    e == StoreError::NoCliLogin
                } else if auth_error(auth->0@) is Some {
                    e == StoreError::Auth(auth_error(auth->0@)->0)
                } else if config_error(config.table, Some(workspace_choice(auth->0@)->0)) is Some {
                    Some(e) == config_error(config.table, Some(workspace_choice(auth->0@)->0))
                } else {
                    e == StoreError::AlreadySaved && exists|i: int|
                        0 <= i < saved@.len() && (#[trigger] saved@[i])@ == auth_account_id(
                            auth->0@,
                        )
                },
            },
    {
        match self.check_config(config, None) {
            Ok(()) => {},
            Err(e) => return Err(e),
        }
        let bytes = match auth {
            Some(b) => b,
            None => return Err(StoreError::NoCliLogin),
        };
        let c = match Credential::parse(bytes) {
            Ok(c) => c,
            Err(e) => return Err(StoreError::Auth(e)),
        };
        match self.check_config(config, Some(&c)) {
            Ok(()) => {},
            Err(e) => return Err(e),
        }
        if contains_text(saved, c.account().id.as_str()) {
            return Err(StoreError::AlreadySaved);
        }
        Ok(c)
    }

    /// Checks a profile written by a fresh sign-in: `auth` is the
    /// `auth.json` it left, `None` when it left none.
    pub fn import_from(&self, config: &CliConfig, auth: Option<Vec<u8>>) -> (r: Result<
        Credential,
        StoreError,
    >)
        ensures
            match r {
                Ok(c) => auth is Some && auth_error(auth->0@) is None && c.read_from(auth->0@)
                    && config_error(config.table, Some(c.workspace_id())) is None,
                Err(e) => if auth is None {
                    e == StoreError::LoginNotSaved
                } else if auth_error(auth->0@) is Some {
                    e == StoreError::Auth(auth_error(auth->0@)->0)
                } else {
                    Some(e) == config_error(config.table, Some(workspace_choice(auth->0@)->0))
                },
            },
    {
        let bytes = match auth {
            Some(b) => b,
            None => return Err(StoreError::LoginNotSaved),
        };
        let c = match Credential::parse(bytes) {
            Ok(c) => c,
            Err(e) => return Err(StoreError::Auth(e)),
        };
        match self.check_config(config, Some(&c)) {
            Ok(()) => Ok(c),
            Err(e) => Err(e),
        }
    }
}

/// An import saves the CLI's login unchanged and lists it. The credential
/// `c` read from `auth.json` holds exactly its bytes, which are what the
/// profile file of `c`'s account receives; and a snapshot whose listing
/// includes that file, with those bytes, shows the imported account.
pub proof fn law_import_saves_and_lists(
    c: Credential,
    auth: Seq<u8>,
    profiles: Seq<ProfileFile>,
    accounts: Seq<Account>,
    i: int,
)
    requires
        c.read_from(auth),
        0 <= i < profiles.len(),
        profiles[i].1 matches Some(b) && b@ == c.raw(),
        views(accounts).to_multiset() == profiles.map_values(
            |p: ProfileFile| profile_file_view(p),
        ).to_multiset(),
    ensures
        c.raw() == auth,
        exists|j: int| 0 <= j < accounts.len() && account_view(#[trigger] accounts[j]) == account_view(c.ident()),
{
    broadcast use vstd::seq_lib::group_to_multiset_ensures;

    let mapped = profiles.map_values(|p: ProfileFile| profile_file_view(p));
    assert(mapped[i] == account_view(c.ident()));
    assert(mapped.contains(account_view(c.ident())));
    assert(mapped.to_multiset().count(account_view(c.ident())) > 0);
    assert(views(accounts).to_multiset().count(account_view(c.ident())) > 0);
    assert(views(accounts).contains(account_view(c.ident())));
    let j = choose|j: int| 0 <= j < views(accounts).len() && views(accounts)[j] == account_view(c.ident());
    assert(account_view(accounts[j]) == views(accounts)[j]);
}

/// Whether `found` is a readable profile of `id`.
pub open spec fn profile_ok(id: Seq<char>, found: Option<Vec<u8>>) -> bool {
    is_hex64(id) && found is Some && auth_error(found->0@) is None && auth_account_id(found->0@)
        == id
}

/// What is activated is what the proxy then uses: whenever `switch(id)`
/// succeeds on a profile file (`profile_ok`), the active-account text it
/// returns (`id`) is one `active_id` reads back unchanged, and
/// `active_credential` on the same file succeeds with that profile's identity
/// instead of reporting an error.
pub proof fn law_activated_profile_is_used(id: Seq<char>, found: Option<Vec<u8>>)
    requires
        profile_ok(id, found),
    ensures
        is_hex64(id),
        found is Some && auth_error(found->0@) is None && auth_account_id(found->0@) == id,
        profile_error(id, found, StoreError::ProfileNotFound) == StoreError::ProfileNotFound,
{
}

/// The error for reading profile `id` from `found`, with `missing` for an
/// absent file; `missing` itself when the profile reads correctly.
pub open spec fn profile_error(id: Seq<char>, found: Option<Vec<u8>>, missing: StoreError) -> StoreError {
    if !is_hex64(id) {
        StoreError::InvalidProfileId
    } else if found is None {
        missing
    } else if auth_error(found->0@) is Some {
        StoreError::Auth(auth_error(found->0@)->0)
    } else if auth_account_id(found->0@) != id {
        StoreError::IdentityMismatch
    } else {
        missing
    }
}

/// Whether two byte strings are equal.
pub fn same_bytes(a: &[u8], b: &[u8]) -> (r: bool)
    ensures
        r == (a@ == b@),
{
    if a.len() != b.len() {
        return false;
    }
    let mut i: usize = 0;
    while i < a.len()
        invariant
            a@.len() == b@.len(),
            i <= a@.len(),
            forall|j: int| 0 <= j < i ==> a@[j] == b@[j],
        decreases a.len() - i,
    {
        if a[i] != b[i] {
            assert(a@[i as int] != b@[i as int]);
            return false;
        }
        i = i + 1;
    }
    assert(a@ =~= b@);
    true
}

} // verus!

verus! {

broadcast use vstd::seq_lib::group_to_multiset_ensures;

/// The view of an account that orders and identifies it.
pub open spec fn account_view(a: Account) -> (Seq<char>, Seq<char>, Seq<char>) {
    (a.id@, a.email@, a.plan@)
}

/// Accounts are listed by email, then by id.
pub open spec fn account_le(a: Account, b: Account) -> bool {
    if a.email@ != b.email@ {
        text_le(a.email@, b.email@)
    } else {
        text_le(a.id@, b.id@)
    }
}

/// Each account sorts at or before the next one.
pub open spec fn accounts_sorted(s: Seq<Account>) -> bool {
    forall|i: int, j: int|
        0 <= i && j == i + 1 && j < s.len() ==> #[trigger] account_le(s[i], s[j])
}

pub open spec fn views(s: Seq<Account>) -> Seq<(Seq<char>, Seq<char>, Seq<char>)> {
    s.map_values(|a: Account| account_view(a))
}

/// A profile file found in the accounts directory: its file stem and its
/// content (`None` when it disappeared before it could be read).
pub type ProfileFile = (String, Option<Vec<u8>>);

/// Why a listed profile file is unusable, if it is.
pub open spec fn profile_file_error(p: ProfileFile) -> Option<StoreError> {
    match p.1 {
        None => Some(StoreError::ProfileVanished),
        Some(b) => if auth_error(b@) is Some {
            Some(StoreError::Auth(auth_error(b@)->0))
        } else if auth_account_id(b@) != p.0@ {
            Some(StoreError::FileIdentityMismatch)
        } else {
            None
        },
    }
}

/// The first unusable profile file, in listing order.
pub open spec fn profile_files_error(ps: Seq<ProfileFile>) -> Option<StoreError>
    decreases ps.len(),
{
    if ps.len() == 0 {
        None
    } else if profile_file_error(ps[0]) is Some {
        profile_file_error(ps[0])
    } else {
        profile_files_error(ps.drop_first())
    }
}

/// The account view a usable profile file yields.
pub open spec fn profile_file_view(p: ProfileFile) -> (Seq<char>, Seq<char>, Seq<char>) {
    (auth_account_id(p.1->0@), auth_email(p.1->0@), auth_plan(p.1->0@))
}

/// Why the selected account cannot be read, if it cannot.
pub open spec fn current_error(active: Option<String>, found: Option<Vec<u8>>) -> Option<StoreError> {
    match active {
        None => None,
        Some(id) => if profile_ok(id@, found) {
            None
        } else {
            Some(profile_error(id@, found, StoreError::ProfileNotFound))
        },
    }
}

/// What the application shows of the store.
pub struct Snapshot {
    pub accounts: Vec<Account>,
    pub current: Option<Account>,
    pub config_enabled: bool,
    pub config_backup: bool,
}

impl Default for Snapshot {
    fn default() -> (r: Snapshot)
        ensures
            r.accounts@.len() == 0,
            r.current is None,
            !r.config_enabled,
            !r.config_backup,
    {
        Snapshot { accounts: Vec::new(), current: None, config_enabled: false, config_backup: false }
    }
}

/// Inserts `a` into the sorted `out`, after every account that sorts at or before it.
fn insert_sorted(out: &mut Vec<Account>, a: Account)
    requires
        accounts_sorted(old(out)@),
    ensures
        accounts_sorted(final(out)@),
        views(final(out)@).to_multiset() == views(old(out)@).to_multiset().insert(account_view(a)),
{
    let mut p: usize = 0;
    let ghost before = out@;
    while p < out.len()
        invariant
            p <= out@.len(),
            out@ == before,
            forall|k: int| 0 <= k < p ==> account_le(#[trigger] before[k], a),
        ensures
            p <= out@.len(),
            out@ == before,
            forall|k: int| 0 <= k < p ==> account_le(#[trigger] before[k], a),
            p < out@.len() ==> !account_le(before[p as int], a),
        decreases out.len() - p,
    {
        if !account_le_exec(&out[p], &a) {
            break;
        }
        p = p + 1;
    }
    proof {
        if p < out@.len() {
            lemma_account_le_total(a, out@[p as int]);
        }
    }
    out.insert(p, a);
    proof {
        assert(views(out@) =~= views(before).insert(p as int, account_view(a)));
        vstd::seq_lib::to_multiset_insert(views(before), p as int, account_view(a));
        assert forall|i: int, j: int|
            0 <= i && j == i + 1 && j < out@.len() implies #[trigger] account_le(out@[i], out@[j]) by {
            if j < p {
                assert(out@[i] == before[i] && out@[j] == before[j]);
            } else if j == p {
                assert(out@[i] == before[i]);
                assert(account_le(before[i], a));
            } else if i == p {
                assert(out@[j] == before[p as int]);
            } else {
                assert(out@[i] == before[i - 1] && out@[j] == before[j - 1]);
            }
        }
    }
}

pub proof fn lemma_account_le_total(a: Account, b: Account)
    ensures
        account_le(a, b) || account_le(b, a),
{
    crate::text::lemma_text_le_total(a.email@, b.email@);
    crate::text::lemma_text_le_total(a.id@, b.id@);
}

fn account_le_exec(a: &Account, b: &Account) -> (r: bool)
    ensures
        r == account_le(*a, *b),
{
    if !same_text(a.email.as_str(), b.email.as_str()) {
        crate::text::text_le_exec(a.email.as_str(), b.email.as_str())
    } else {
        crate::text::text_le_exec(a.id.as_str(), b.id.as_str())
    }
}

impl Store {
    /// Assembles what the application shows: `active` is the active-account
    /// file, `active_profile` the profile file it names, `profiles` the
    /// `.json` files of the accounts directory in listing order. Accounts
    /// come out ordered by email, then id.
    pub fn snapshot(
        &self,
        active: Option<String>,
        active_profile: Option<Vec<u8>>,
        profiles: &Vec<ProfileFile>,
        config_enabled: bool,
        config_backup: bool,
    ) -> (r: Result<Snapshot, StoreError>)
        ensures
            match r {
                Ok(s) => {
                    &&& current_error(active, active_profile) is None
                    &&& profile_files_error(profiles@) is None
                    &&& (s.current is None <==> active is None)
                    &&& (s.current is Some ==> account_view(s.current->0) == (
                        active->0@,
                        auth_email(active_profile->0@),
                        auth_plan(active_profile->0@),
                    ))
                    &&& accounts_sorted(s.accounts@)
                    &&& views(s.accounts@).to_multiset() == profiles@.map_values(
                        |p: ProfileFile| profile_file_view(p),
                    ).to_multiset()
                    &&& s.config_enabled == config_enabled
                    &&& s.config_backup == config_backup
                },
                Err(e) => if current_error(active, active_profile) is Some {
                    Some(e) == current_error(active, active_profile)
                } else {
                    Some(e) == profile_files_error(profiles@)
                },
            },
    {
        let current = match active {
            None => None,
            Some(id) => match self.credential(id.as_str(), active_profile) {
                Ok(c) => Some(c.account().duplicate()),
                Err(e) => return Err(e),
            },
        };
        let ghost cur_err = current_error(active, active_profile);
        assert(cur_err is None);
        let mut accounts: Vec<Account> = Vec::new();
        let mut i: usize = 0;
        let ghost mapped = profiles@.map_values(|p: ProfileFile| profile_file_view(p));
        assert(profiles@.skip(0) =~= profiles@);
        while i < profiles.len()
            invariant
                i <= profiles@.len(),
                cur_err is None,
                cur_err == current_error(active, active_profile),
                mapped == profiles@.map_values(|p: ProfileFile| profile_file_view(p)),
                profile_files_error(profiles@) == profile_files_error(profiles@.skip(i as int)),
                accounts_sorted(accounts@),
                views(accounts@).to_multiset() == mapped.take(i as int).to_multiset(),
            decreases profiles.len() - i,
        {
            assert(profiles@.skip(i as int)[0] == profiles@[i as int]);
            assert(profiles@.skip(i as int).drop_first() =~= profiles@.skip(i + 1));
            let entry = &profiles[i];
            assert(*entry == profiles@[i as int]);
            let bytes = match &entry.1 {
                None => {
                    assert(profile_file_error(profiles@.skip(i as int)[0]) == Some(
                        StoreError::ProfileVanished,
                    ));
                    return Err(StoreError::ProfileVanished);
                },
                Some(b) => vstd::slice::slice_to_vec(b.as_slice()),
            };
            assert(bytes@ == profiles@[i as int].1->0@);
            let c = match Credential::parse(bytes) {
                Ok(c) => c,
                Err(e) => {
                    assert(profile_file_error(profiles@.skip(i as int)[0]) == Some(
                        StoreError::Auth(e),
                    ));
                    return Err(StoreError::Auth(e));
                },
            };
            if !same_text(profiles[i].0.as_str(), c.account().id.as_str()) {
                return Err(StoreError::FileIdentityMismatch);
            }
            let a = c.account().duplicate();
            assert(account_view(a) == mapped[i as int]);
            assert(profile_file_error(profiles@[i as int]) is None);
            insert_sorted(&mut accounts, a);
            assert(mapped.take(i + 1) =~= mapped.take(i as int).push(mapped[i as int]));
            i = i + 1;
        }
        assert(mapped.take(profiles@.len() as int) =~= mapped);
        Ok(Snapshot { accounts, current, config_enabled, config_backup })
    }
}

} // verus!
