//! Reversible, narrowly scoped edits of the CLI's `config.toml`: what the
//! proxy provider entry holds, and when an edit or its restoration may
//! proceed. The comment-preserving document edits are applied outside.
use vstd::prelude::*;
use crate::clock::Instant;
use crate::doc::{parse_toml, toml_document};
use toml_edit::{value, Item, Table};
use crate::text::{chars_of, decimal, push_decimal, push_str, same_text, string_of};

verus! {

/// The name of the provider entry this application owns.
pub open spec fn provider_name() -> Seq<char> {
    "subscription_switcher"@
}

/// Whether a `model_provider` value selects the proxy.
pub fn enabled(model_provider: Option<&str>) -> (r: bool)
    ensures
        r == (match model_provider {
            Some(p) => p@ == provider_name(),
            None => false,
        }),
{
    match model_provider {
        Some(p) => same_text(p, "subscription_switcher"),
        None => false,
    }
}

/// The settings of the proxy provider entry. No OAuth token is ever part of it:
/// the CLI obtains the local key by running `auth_command` with `auth_args`.
#[derive(Clone, Debug)]
pub struct ProviderSettings {
    pub name: String,
    pub base_url: String,
    pub wire_api: String,
    pub requires_openai_auth: bool,
    pub supports_websockets: bool,
    pub auth_command: String,
    pub auth_args: Vec<String>,
    pub auth_timeout_ms: i64,
    pub auth_refresh_interval_ms: i64,
}

/// The loopback Responses endpoint of the proxy on `port`.
pub open spec fn base_url_text(port: u16) -> Seq<char> {
    "http://127.0.0.1:"@ + decimal(port as nat) + "/v1"@
}

impl ProviderSettings {
    pub fn new(port: u16, binary: &str, connection: &str) -> (r: ProviderSettings)
        ensures
            r.name@ == "Subscription Switcher"@,
            r.base_url@ == base_url_text(port),
            r.wire_api@ == "responses"@,
            !r.requires_openai_auth,
            !r.supports_websockets,
            r.auth_command@ == binary@,
            r.auth_args@.len() == 2,
            r.auth_args@[0]@ == "--proxy-token"@,
            r.auth_args@[1]@ == connection@,
            r.auth_timeout_ms == 5000,
            r.auth_refresh_interval_ms == 60000,
    {
        let mut url = chars_of("http://127.0.0.1:");
        push_decimal(&mut url, port as u64);
        push_str(&mut url, "/v1");
        let mut args: Vec<String> = Vec::new();
        args.push(String::from_str("--proxy-token"));
        args.push(String::from_str(connection));
        ProviderSettings {
            name: String::from_str("Subscription Switcher"),
            base_url: string_of(url.as_slice()),
            wire_api: String::from_str("responses"),
            requires_openai_auth: false,
            supports_websockets: false,
            auth_command: String::from_str(binary),
            auth_args: args,
            auth_timeout_ms: 5000,
            auth_refresh_interval_ms: 60000,
        }
    }
}

/// Why a configuration change was refused.
#[derive(Debug, Clone, Copy, PartialEq, Eq, Structural)]
pub enum ConfigError {
    HomeMissing,
    InvalidConfig,
    PreviousChange,
    ProviderTaken,
    AlreadySelected,
    InlineProviders,
    CannotPrepare,
    ConfigChanged,
    NoRecord,
    OtherHome,
    ProviderEdited,
    CannotCompare,
}

/// The text shown for each `ConfigError`.
pub open spec fn config_error_text(e: ConfigError) -> Seq<char> {
    match e {
        ConfigError::HomeMissing => "CODEX_HOME directory not found."@,
        ConfigError::InvalidConfig => "Invalid config.toml. The file was not changed."@,
        ConfigError::PreviousChange => "A previous configuration change exists. Choose Restore config.toml first."@,
        ConfigError::ProviderTaken => "The name subscription_switcher is already in use in config.toml."@,
        ConfigError::AlreadySelected => "The configuration already selects subscription_switcher; restore the previous setting first."@,
        ConfigError::InlineProviders => "model_providers uses an unsupported inline format. Nothing was changed."@,
        ConfigError::CannotPrepare => "Could not prepare the configuration."@,
        ConfigError::ConfigChanged => "The configuration changed during the operation. Try again."@,
        ConfigError::NoRecord => "No saved switcher configuration change to restore."@,
        ConfigError::OtherHome => "The configuration backup belongs to a different CODEX_HOME."@,
        ConfigError::ProviderEdited => "The proxy provider settings were changed manually. The configuration and its backup have been preserved."@,
        ConfigError::CannotCompare => "Could not compare the proxy configuration."@,
    }
}

impl ConfigError {
    pub fn message(&self) -> (r: &'static str)
        ensures
            r@ == config_error_text(*self),
    {
        match self {
            ConfigError::HomeMissing => "CODEX_HOME directory not found.",
            ConfigError::InvalidConfig => "Invalid config.toml. The file was not changed.",
            ConfigError::PreviousChange => "A previous configuration change exists. Choose Restore config.toml first.",
            ConfigError::ProviderTaken => "The name subscription_switcher is already in use in config.toml.",
            ConfigError::AlreadySelected => "The configuration already selects subscription_switcher; restore the previous setting first.",
            ConfigError::InlineProviders => "model_providers uses an unsupported inline format. Nothing was changed.",
            ConfigError::CannotPrepare => "Could not prepare the configuration.",
            ConfigError::ConfigChanged => "The configuration changed during the operation. Try again.",
            ConfigError::NoRecord => "No saved switcher configuration change to restore.",
            ConfigError::OtherHome => "The configuration backup belongs to a different CODEX_HOME.",
            ConfigError::ProviderEdited => "The proxy provider settings were changed manually. The configuration and its backup have been preserved.",
            ConfigError::CannotCompare => "Could not compare the proxy configuration.",
        }
    }
}

/// How `model_providers` appears in the document.
#[derive(Debug, Clone, Copy, PartialEq, Eq, Structural)]
pub enum ProvidersShape {
    Absent,
    /// A `[model_providers]` table; whether it holds the proxy entry.
    Table(bool),
    /// Any other form, such as an inline table; whether it holds the proxy entry.
    Other(bool),
}

/// What the enabling edit reads of the configuration before changing it.
#[derive(Debug, Clone, Copy, PartialEq, Eq, Structural)]
pub struct EnableState {
    pub home_is_dir: bool,
    pub parsed: bool,
    pub record_exists: bool,
    pub providers: ProvidersShape,
    pub selects_proxy: bool,
}

/// The first reason the proxy may not be enabled, in checking order.
pub open spec fn enable_error(s: EnableState) -> Option<ConfigError> {
    if !s.home_is_dir {
        Some(ConfigError::HomeMissing)
    } else if !s.parsed {
        Some(ConfigError::InvalidConfig)
    } else if s.record_exists {
        Some(ConfigError::PreviousChange)
    } else if s.providers == ProvidersShape::Table(true) || s.providers == ProvidersShape::Other(
        true,
    ) {
        Some(ConfigError::ProviderTaken)
    } else if s.selects_proxy {
        Some(ConfigError::AlreadySelected)
    } else if s.providers is Other {
        Some(ConfigError::InlineProviders)
    } else {
        None
    }
}

/// Checks that the proxy may be enabled. Nothing is changed on refusal; the
/// edit preserves everything but `model_provider` and the new entry.
pub fn enable_check(state: EnableState) -> (r: Result<(), ConfigError>)
    ensures
        match r {
            Ok(()) => enable_error(state) is None,
            Err(e) => enable_error(state) == Some(e),
        },
{
    if !state.home_is_dir {
        return Err(ConfigError::HomeMissing);
    }
    if !state.parsed {
        return Err(ConfigError::InvalidConfig);
    }
    if state.record_exists {
        return Err(ConfigError::PreviousChange);
    }
    match state.providers {
        ProvidersShape::Table(true) | ProvidersShape::Other(true) => {
            return Err(ConfigError::ProviderTaken);
        },
        _ => {},
    }
    if state.selects_proxy {
        return Err(ConfigError::AlreadySelected);
    }
    match state.providers {
        ProvidersShape::Other(_) => Err(ConfigError::InlineProviders),
        _ => Ok(()),
    }
}

/// What restoring reads of the record, the configuration and its backup.
#[derive(Debug, Clone, Copy, PartialEq, Eq, Structural)]
pub struct RestoreState {
    pub record_found: bool,
    pub same_home: bool,
    pub parsed: bool,
    /// `None` when the proxy entry is gone; otherwise whether it still equals
    /// what was written.
    pub entry_unchanged: Option<bool>,
    pub selects_proxy: bool,
    pub backup_has_model_provider: bool,
    /// Whether `model_providers` would be left empty once the entry is removed.
    pub providers_left_empty: bool,
    pub backup_has_providers: bool,
}

/// What becomes of `model_provider` on restoration.
#[derive(Debug, Clone, Copy, PartialEq, Eq, Structural)]
pub enum ProviderChoice {
    /// Left as it is: it no longer selects the proxy.
    Keep,
    /// Set back to the backup's value.
    FromBackup,
    /// Removed: the backup had none.
    Remove,
}

/// The edits restoration makes.
#[derive(Debug, Clone, Copy, PartialEq, Eq, Structural)]
pub struct RestorePlan {
    pub model_provider: ProviderChoice,
    /// The proxy entry is always removed; this tells whether the emptied
    /// `model_providers` table goes too.
    pub remove_providers: bool,
}

pub open spec fn restore_error(s: RestoreState) -> Option<ConfigError> {
    if !s.record_found {
        Some(ConfigError::NoRecord)
    } else if !s.same_home {
        Some(ConfigError::OtherHome)
    } else if !s.parsed {
        Some(ConfigError::InvalidConfig)
    } else if s.entry_unchanged == Some(false) {
        Some(ConfigError::ProviderEdited)
    } else {
        None
    }
}

pub open spec fn restore_plan_of(s: RestoreState) -> RestorePlan {
    RestorePlan {
        model_provider: if !s.selects_proxy {
            ProviderChoice::Keep
        } else if s.backup_has_model_provider {
            ProviderChoice::FromBackup
        } else {
            ProviderChoice::Remove
        },
        remove_providers: s.providers_left_empty && !s.backup_has_providers,
    }
}

/// Decides restoration: refused when the entry was edited by hand (the
/// configuration and its backup are then kept); otherwise the previous
/// provider selection comes back and unrelated later edits stay.
pub fn restore_plan(state: RestoreState) -> (r: Result<RestorePlan, ConfigError>)
    ensures
        match r {
            Ok(p) => restore_error(state) is None && p == restore_plan_of(state),
            Err(e) => restore_error(state) == Some(e),
        },
{
    if !state.record_found {
        return Err(ConfigError::NoRecord);
    }
    if !state.same_home {
        return Err(ConfigError::OtherHome);
    }
    if !state.parsed {
        return Err(ConfigError::InvalidConfig);
    }
    if state.entry_unchanged == Some(false) {
        return Err(ConfigError::ProviderEdited);
    }
    let model_provider = if !state.selects_proxy {
        ProviderChoice::Keep
    } else if state.backup_has_model_provider {
        ProviderChoice::FromBackup
    } else {
        ProviderChoice::Remove
    };
    Ok(RestorePlan {
        model_provider,
        remove_providers: state.providers_left_empty && !state.backup_has_providers,
    })
}

/// Nanoseconds since the epoch, or 0 when they do not fit in an `i64`
/// (`timestamp_nanos_opt().unwrap_or_default()`).
pub open spec fn epoch_nanos(t: Instant) -> int {
    let n = t.secs * 1_000_000_000 + t.nanos;
    if i64::MIN <= n <= i64::MAX {
        n
    } else {
        0
    }
}

/// The backup file name for a configuration saved at `t`.
pub open spec fn backup_name_text(t: Instant) -> Seq<char> {
    "config-before-proxy-"@ + (if epoch_nanos(t) < 0 {
        seq!['-'] + decimal((-epoch_nanos(t)) as nat)
    } else {
        decimal(epoch_nanos(t) as nat)
    }) + ".toml"@
}

pub fn backup_name(t: Instant) -> (r: String)
    ensures
        r@ == backup_name_text(t),
{
    let n: i128 = (t.secs as i128) * 1_000_000_000 + (t.nanos as i128);
    let n: i128 = if -9223372036854775808 <= n && n <= 9223372036854775807 {
        n
    } else {
        0
    };
    let mut out = chars_of("config-before-proxy-");
    if n < 0 {
        out.push('-');
        push_decimal(&mut out, (-n) as u64);
    } else {
        push_decimal(&mut out, n as u64);
    }
    push_str(&mut out, ".toml");
    string_of(out.as_slice())
}

/// A plain value written into `config.toml`.
#[derive(Clone, Debug)]
pub enum TomlLeaf {
    Text(String),
    Flag(bool),
    Number(i64),
    Texts(Vec<String>),
}

/// A `TomlLeaf` as contracts speak of it.
pub enum LeafView {
    Text(Seq<char>),
    Flag(bool),
    Number(i64),
    Texts(Seq<Seq<char>>),
}

pub open spec fn leaf_view(l: TomlLeaf) -> LeafView {
    match l {
        TomlLeaf::Text(s) => LeafView::Text(s@),
        TomlLeaf::Flag(b) => LeafView::Flag(b),
        TomlLeaf::Number(n) => LeafView::Number(n),
        TomlLeaf::Texts(v) => LeafView::Texts(v@.map_values(|s: String| s@)),
    }
}

pub open spec fn entries_view(e: Seq<(String, TomlLeaf)>) -> Seq<(Seq<char>, LeafView)> {
    e.map_values(|p: (String, TomlLeaf)| (p.0@, leaf_view(p.1)))
}

/// A table to write: its (key, value) entries in order, then a sub-table
/// named `table` with its own entries.
#[derive(Clone, Debug)]
pub struct EntryTable {
    pub entries: Vec<(String, TomlLeaf)>,
    pub table: String,
    pub table_entries: Vec<(String, TomlLeaf)>,
}

/// The provider entry written into `config.toml`: name, loopback
/// endpoint, Responses wire format, no OpenAI authentication, no
/// WebSockets, and an `auth` table with the helper command that supplies
/// the local key. No token is part of it.
pub open spec fn provider_layout(p: ProviderSettings) -> (
    Seq<(Seq<char>, LeafView)>,
    Seq<char>,
    Seq<(Seq<char>, LeafView)>,
) {
    (
        seq![
            ("name"@, LeafView::Text(p.name@)),
            ("base_url"@, LeafView::Text(p.base_url@)),
            ("wire_api"@, LeafView::Text(p.wire_api@)),
            ("requires_openai_auth"@, LeafView::Flag(p.requires_openai_auth)),
            ("supports_websockets"@, LeafView::Flag(p.supports_websockets)),
        ],
        "auth"@,
        seq![
            ("command"@, LeafView::Text(p.auth_command@)),
            ("args"@, LeafView::Texts(p.auth_args@.map_values(|s: String| s@))),
            ("timeout_ms"@, LeafView::Number(p.auth_timeout_ms)),
            ("refresh_interval_ms"@, LeafView::Number(p.auth_refresh_interval_ms)),
        ],
    )
}

pub open spec fn entry_table_view(e: EntryTable) -> (
    Seq<(Seq<char>, LeafView)>,
    Seq<char>,
    Seq<(Seq<char>, LeafView)>,
) {
    (entries_view(e.entries@), e.table@, entries_view(e.table_entries@))
}

fn clone_strings(v: &Vec<String>) -> (r: Vec<String>)
    ensures
        r@.map_values(|s: String| s@) == v@.map_values(|s: String| s@),
{
    let mut out: Vec<String> = Vec::new();
    let mut i: usize = 0;
    while i < v.len()
        invariant
            i <= v@.len(),
            out@.map_values(|s: String| s@) == v@.take(i as int).map_values(|s: String| s@),
        decreases v.len() - i,
    {
        let ghost before = out@;
        let c = v[i].clone();
        assert(c@ == v@[i as int]@);
        out.push(c);
        assert(v@.take(i + 1) =~= v@.take(i as int).push(v@[i as int]));
        assert(out@ == before.push(c));
        assert(out@.map_values(|s: String| s@) =~= before.map_values(|s: String| s@).push(c@));
        assert(v@.take(i + 1).map_values(|s: String| s@) =~= v@.take(i as int).map_values(
            |s: String| s@,
        ).push(v@[i as int]@));
        i = i + 1;
    }
    assert(v@.take(v@.len() as int) =~= v@);
    out
}

fn entry(key: &str, leaf: TomlLeaf) -> (r: (String, TomlLeaf))
    ensures
        r.0@ == key@,
        r.1 == leaf,
{
    (String::from_str(key), leaf)
}

/// The provider entry of `p`, in the layout `provider_layout` states.
pub fn provider_entry(p: &ProviderSettings) -> (r: EntryTable)
    ensures
        entry_table_view(r) == provider_layout(*p),
{
    let mut entries: Vec<(String, TomlLeaf)> = Vec::new();
    entries.push(entry("name", TomlLeaf::Text(p.name.clone())));
    entries.push(entry("base_url", TomlLeaf::Text(p.base_url.clone())));
    entries.push(entry("wire_api", TomlLeaf::Text(p.wire_api.clone())));
    entries.push(entry("requires_openai_auth", TomlLeaf::Flag(p.requires_openai_auth)));
    entries.push(entry("supports_websockets", TomlLeaf::Flag(p.supports_websockets)));
    let mut auth: Vec<(String, TomlLeaf)> = Vec::new();
    auth.push(entry("command", TomlLeaf::Text(p.auth_command.clone())));
    auth.push(entry("args", TomlLeaf::Texts(clone_strings(&p.auth_args))));
    auth.push(entry("timeout_ms", TomlLeaf::Number(p.auth_timeout_ms)));
    auth.push(entry("refresh_interval_ms", TomlLeaf::Number(p.auth_refresh_interval_ms)));
    let r = EntryTable { entries, table: String::from_str("auth"), table_entries: auth };
    assert(entries_view(r.entries@) =~= provider_layout(*p).0);
    assert(entries_view(r.table_entries@) =~= provider_layout(*p).2);
    r
}

/// What a top-level item of a `toml_edit` document is.
#[derive(Debug, Clone, Copy, PartialEq, Eq, Structural)]
pub enum ItemKind {
    Absent,
    /// A `[table]`.
    Table,
    /// A value, an inline table or an array of tables.
    Other,
}

#[verifier::external_type_specification]
#[verifier::external_body]
pub struct ExTomlEditTable(toml_edit::Table);

/// Whether `text` parses as a `toml_edit::DocumentMut`.
pub uninterp spec fn toml_edit_parses(text: Seq<char>) -> bool;

/// The kind of the top-level item `key` of the parsed `text`.
pub uninterp spec fn toml_edit_kind(text: Seq<char>, key: Seq<char>) -> ItemKind;

/// The top-level item `key` of the parsed `text` read with `Item::as_str`.
pub uninterp spec fn toml_edit_string(text: Seq<char>, key: Seq<char>) -> Option<Seq<char>>;

/// Whether `Item::get(name)` finds an entry in the top-level item `key`.
pub uninterp spec fn toml_edit_has_entry(text: Seq<char>, key: Seq<char>, name: Seq<char>) -> bool;

/// `Table::len` of the top-level table `key`.
pub uninterp spec fn toml_edit_table_len(text: Seq<char>, key: Seq<char>) -> usize;

/// The displayed entry `name` of the top-level item `key`, when there is one.
pub uninterp spec fn toml_edit_entry_text(text: Seq<char>, key: Seq<char>, name: Seq<char>) -> Option<
    Seq<char>,
>;

/// The text `toml_edit` displays for a table holding the `entries`, in
/// order, then a sub-table named `table` holding `table_entries`.
pub uninterp spec fn toml_edit_table_text(
    entries: Seq<(Seq<char>, LeafView)>,
    table: Seq<char>,
    table_entries: Seq<(Seq<char>, LeafView)>,
) -> Seq<char>;

/// The document after `doc[key] = Item::Table(Table::new())`.
pub uninterp spec fn toml_edit_add_table(text: Seq<char>, key: Seq<char>) -> Seq<char>;

/// The document after `doc[key][name]` is set to the table that
/// `toml_edit_table_text` displays.
pub uninterp spec fn toml_edit_add_entry_table(
    text: Seq<char>,
    key: Seq<char>,
    name: Seq<char>,
    entries: Seq<(Seq<char>, LeafView)>,
    table: Seq<char>,
    table_entries: Seq<(Seq<char>, LeafView)>,
) -> Seq<char>;

/// The document after `doc[key] = value(v)`.
pub uninterp spec fn toml_edit_set_string(text: Seq<char>, key: Seq<char>, v: Seq<char>) -> Seq<char>;

/// The document after `doc.remove(key)`.
pub uninterp spec fn toml_edit_remove(text: Seq<char>, key: Seq<char>) -> Seq<char>;

/// The document after removing `name` from the top-level table `key`
/// (unchanged when `key` is not a table).
pub uninterp spec fn toml_edit_remove_entry(text: Seq<char>, key: Seq<char>, name: Seq<char>) -> Seq<
    char,
>;

/// The document `text` after `doc[key] = from[key].clone()`.
pub uninterp spec fn toml_edit_copy(text: Seq<char>, from: Seq<char>, key: Seq<char>) -> Seq<char>;

/// Whether `toml::from_str::<toml::Value>` reads equal values from `a` and
/// `b`; `None` when either does not parse.
pub uninterp spec fn toml_same_value(a: Seq<char>, b: Seq<char>) -> Option<bool>;

/// Calls `text.parse::<toml_edit::DocumentMut>()` and reports success.
#[verifier::external_body]
fn edit_parses(text: &str) -> (r: bool)
    ensures
        r == toml_edit_parses(text@),
{
    text.parse::<toml_edit::DocumentMut>().is_ok()
}

/// Calls `DocumentMut::get(key)` on the parsed `text` and tells the item's variant.
#[verifier::external_body]
fn edit_kind(text: &str, key: &str) -> (r: ItemKind)
    requires
        toml_edit_parses(text@),
    ensures
        r == toml_edit_kind(text@, key@),
{
    match text.parse::<toml_edit::DocumentMut>().ok().as_ref().and_then(|d| d.get(key)) {
        None | Some(toml_edit::Item::None) => ItemKind::Absent,
        Some(toml_edit::Item::Table(_)) => ItemKind::Table,
        Some(_) => ItemKind::Other,
    }
}

/// Calls `DocumentMut::get(key)` and `Item::as_str` on the parsed `text`.
#[verifier::external_body]
fn edit_string(text: &str, key: &str) -> (r: Option<String>)
    requires
        toml_edit_parses(text@),
    ensures
        match r {
            Some(s) => toml_edit_string(text@, key@) == Some(s@),
            None => toml_edit_string(text@, key@) is None,
        },
{
    let doc = text.parse::<toml_edit::DocumentMut>().ok()?;
    doc.get(key).and_then(toml_edit::Item::as_str).map(String::from)
}

/// Calls `Item::get(name)` on the top-level item `key` of the parsed `text`.
#[verifier::external_body]
fn edit_has_entry(text: &str, key: &str, name: &str) -> (r: bool)
    requires
        toml_edit_parses(text@),
    ensures
        r == toml_edit_has_entry(text@, key@, name@),
{
    let doc = text.parse::<toml_edit::DocumentMut>().ok();
    doc.as_ref().and_then(|d| d.get(key)).and_then(|i| i.get(name)).is_some()
}

/// Calls `Table::len` on the top-level table `key` of the parsed `text`.
#[verifier::external_body]
fn edit_table_len(text: &str, key: &str) -> (r: usize)
    requires
        toml_edit_parses(text@),
        toml_edit_kind(text@, key@) == ItemKind::Table,
    ensures
        r == toml_edit_table_len(text@, key@),
{
    let doc = text.parse::<toml_edit::DocumentMut>().ok();
    doc.as_ref().and_then(|d| d.get(key)).and_then(toml_edit::Item::as_table).map_or(0, |t| t.len())
}

/// Calls `Item::get(name)` on the top-level item `key` of the parsed `text`
/// and displays what it finds.
#[verifier::external_body]
fn edit_entry_text(text: &str, key: &str, name: &str) -> (r: Option<String>)
    requires
        toml_edit_parses(text@),
    ensures
        match r {
            Some(s) => toml_edit_entry_text(text@, key@, name@) == Some(s@),
            None => toml_edit_entry_text(text@, key@, name@) is None,
        },
{
    let doc = text.parse::<toml_edit::DocumentMut>().ok()?;
    doc.get(key).and_then(|i| i.get(name)).map(|i| i.to_string())
}

/// Moves each (key, value) pair into a `toml_edit::Table`, in order, one
/// `toml_edit::value` per pair.
#[verifier::external_body]
fn leaf_table(entries: &Vec<(String, TomlLeaf)>) -> Table {
    let mut t = Table::new();
    for (key, leaf) in entries {
        t[key.as_str()] = match leaf {
            TomlLeaf::Text(s) => value(s.as_str()),
            TomlLeaf::Flag(b) => value(*b),
            TomlLeaf::Number(n) => value(*n),
            TomlLeaf::Texts(v) => value(v.iter().map(String::as_str).collect::<toml_edit::Array>()),
        };
    }
    t
}

/// Builds the table of `e` (its entries, then its sub-table) and displays
/// it with `toml_edit`'s `Display`.
#[verifier::external_body]
fn entry_table_text(e: &EntryTable) -> (r: String)
    ensures
        r@ == toml_edit_table_text(
            entries_view(e.entries@),
            e.table@,
            entries_view(e.table_entries@),
        ),
{
    let mut t = leaf_table(&e.entries);
    t[e.table.as_str()] = Item::Table(leaf_table(&e.table_entries));
    t.to_string()
}

/// Parses `text`, sets `doc[key] = Item::Table(Table::new())` and displays the result.
#[verifier::external_body]
fn edit_add_table(text: &str, key: &str) -> (r: Option<String>)
    ensures
        match r {
            Some(s) => toml_edit_parses(text@) && s@ == toml_edit_add_table(text@, key@),
            None => !toml_edit_parses(text@),
        },
{
    let mut doc = text.parse::<toml_edit::DocumentMut>().ok()?;
    doc[key] = Item::Table(Table::new());
    Some(doc.to_string())
}

/// Parses `text`, sets `doc[key][name]` to the table of `e` (its entries,
/// then its sub-table) and displays the result. `key` must be a `[table]`:
/// indexing into a plain value panics.
#[verifier::external_body]
fn edit_add_entry_table(text: &str, key: &str, name: &str, e: &EntryTable) -> (r: Option<String>)
    requires
        toml_edit_parses(text@) ==> toml_edit_kind(text@, key@) == ItemKind::Table,
    ensures
        match r {
            Some(s) => toml_edit_parses(text@) && s@ == toml_edit_add_entry_table(
                text@,
                key@,
                name@,
                entries_view(e.entries@),
                e.table@,
                entries_view(e.table_entries@),
            ),
            None => !toml_edit_parses(text@),
        },
{
    let mut doc = text.parse::<toml_edit::DocumentMut>().ok()?;
    let mut t = leaf_table(&e.entries);
    t[e.table.as_str()] = Item::Table(leaf_table(&e.table_entries));
    doc[key][name] = Item::Table(t);
    Some(doc.to_string())
}

/// Parses `text`, sets `doc[key] = value(v)` and displays the result.
#[verifier::external_body]
fn edit_set_string(text: &str, key: &str, v: &str) -> (r: Option<String>)
    ensures
        match r {
            Some(s) => toml_edit_parses(text@) && s@ == toml_edit_set_string(text@, key@, v@),
            None => !toml_edit_parses(text@),
        },
{
    let mut doc = text.parse::<toml_edit::DocumentMut>().ok()?;
    doc[key] = toml_edit::value(v);
    Some(doc.to_string())
}

/// Parses `text`, calls `DocumentMut::remove(key)` and displays the result.
#[verifier::external_body]
fn edit_remove(text: &str, key: &str) -> (r: Option<String>)
    ensures
        match r {
            Some(s) => toml_edit_parses(text@) && s@ == toml_edit_remove(text@, key@),
            None => !toml_edit_parses(text@),
        },
{
    let mut doc = text.parse::<toml_edit::DocumentMut>().ok()?;
    doc.remove(key);
    Some(doc.to_string())
}

/// Parses `text`, removes `name` from the top-level table `key` if it is
/// one (`Item::as_table_mut`, `Table::remove`) and displays the result.
#[verifier::external_body]
fn edit_remove_entry(text: &str, key: &str, name: &str) -> (r: Option<String>)
    ensures
        match r {
            Some(s) => toml_edit_parses(text@) && s@ == toml_edit_remove_entry(text@, key@, name@),
            None => !toml_edit_parses(text@),
        },
{
    let mut doc = text.parse::<toml_edit::DocumentMut>().ok()?;
    doc.get_mut(key).and_then(toml_edit::Item::as_table_mut).map(|t| t.remove(name));
    Some(doc.to_string())
}

/// Parses `text` and `from`, sets `doc[key]` to a clone of `from`'s item
/// `key` and displays the result. `from` must hold `key`.
#[verifier::external_body]
fn edit_copy(text: &str, from: &str, key: &str) -> (r: Option<String>)
    requires
        toml_edit_parses(from@),
        toml_edit_kind(from@, key@) != ItemKind::Absent,
    ensures
        match r {
            Some(s) => toml_edit_parses(text@) && s@ == toml_edit_copy(text@, from@, key@),
            None => !toml_edit_parses(text@),
        },
{
    let mut doc = text.parse::<toml_edit::DocumentMut>().ok()?;
    let source = from.parse::<toml_edit::DocumentMut>().ok()?;
    doc[key] = source.get(key)?.clone();
    Some(doc.to_string())
}

/// Calls `toml::from_str::<toml::Value>` on both texts and compares the values.
#[verifier::external_body]
fn same_toml_value(a: &str, b: &str) -> (r: Option<bool>)
    ensures
        r == toml_same_value(a@, b@),
{
    let x = toml::from_str::<toml::Value>(a).ok()?;
    let y = toml::from_str::<toml::Value>(b).ok()?;
    Some(x == y)
}

/// The shape of `model_providers` in the parsed document `text`.
pub open spec fn providers_shape_of(text: Seq<char>) -> ProvidersShape {
    match toml_edit_kind(text, "model_providers"@) {
        ItemKind::Absent => ProvidersShape::Absent,
        ItemKind::Table => ProvidersShape::Table(
            toml_edit_has_entry(text, "model_providers"@, provider_name()),
        ),
        ItemKind::Other => ProvidersShape::Other(
            toml_edit_has_entry(text, "model_providers"@, provider_name()),
        ),
    }
}

/// Whether the parsed document selects the proxy provider.
pub open spec fn selects_proxy_of(text: Seq<char>) -> bool {
    toml_edit_string(text, "model_provider"@) == Some(provider_name())
}

/// Whether the configuration text `text` (empty when the file is absent)
/// selects the proxy provider; unreadable text selects nothing.
pub fn enabled_in(text: &str) -> (r: bool)
    ensures
        r == (toml_edit_parses(text@) && selects_proxy_of(text@)),
{
    if !edit_parses(text) {
        return false;
    }
    let selected = edit_string(text, "model_provider");
    match selected {
        Some(v) => enabled(Some(v.as_str())),
        None => enabled(None),
    }
}

/// What enabling reads of `config.toml` (`original`, empty when absent).
pub open spec fn enable_state_of(home_is_dir: bool, original: Seq<char>, record_exists: bool) -> EnableState {
    EnableState {
        home_is_dir,
        parsed: toml_edit_parses(original),
        record_exists,
        providers: if toml_edit_parses(original) {
            providers_shape_of(original)
        } else {
            ProvidersShape::Absent
        },
        selects_proxy: toml_edit_parses(original) && selects_proxy_of(original),
    }
}

/// The enabled configuration: a `[model_providers]` table when there was
/// none, the proxy entry in it, and `model_provider` selecting it; `None`
/// when an edited document cannot be read back or the result is not valid TOML.
pub open spec fn enabled_text(original: Seq<char>, p: ProviderSettings) -> Option<Seq<char>> {
    let with_table = if toml_edit_kind(original, "model_providers"@) == ItemKind::Absent {
        toml_edit_add_table(original, "model_providers"@)
    } else {
        original
    };
    if !toml_edit_parses(with_table) || toml_edit_kind(with_table, "model_providers"@)
        != ItemKind::Table {
        None
    } else {
        let layout = provider_layout(p);
        let with_entry = toml_edit_add_entry_table(
            with_table,
            "model_providers"@,
            provider_name(),
            layout.0,
            layout.1,
            layout.2,
        );
        if !toml_edit_parses(with_entry) {
            None
        } else {
            let next = toml_edit_set_string(with_entry, "model_provider"@, provider_name());
            if toml_document(next) is None {
                None
            } else {
                Some(next)
            }
        }
    }
}

/// The enabled configuration and the provider entry it holds, as recorded
/// for a later restoration.
pub struct ConfigPatch {
    pub text: String,
    pub provider: String,
}

/// Computes the enabled `config.toml` from the current one (`original`,
/// empty when absent). Nothing but `model_provider` and the proxy entry
/// changes; refusals leave the file as it is.
pub fn enable_config(
    home_is_dir: bool,
    original: &str,
    record_exists: bool,
    settings: &ProviderSettings,
) -> (r: Result<ConfigPatch, ConfigError>)
    ensures
        match r {
            Ok(patch) => enable_error(enable_state_of(home_is_dir, original@, record_exists)) is None
                && enabled_text(original@, *settings) == Some(patch.text@) && patch.provider@
                == toml_edit_table_text(
                provider_layout(*settings).0,
                provider_layout(*settings).1,
                provider_layout(*settings).2,
            ),
            Err(e) => if enable_error(enable_state_of(home_is_dir, original@, record_exists)) is Some {
                enable_error(enable_state_of(home_is_dir, original@, record_exists)) == Some(e)
            } else {
                e == ConfigError::CannotPrepare && enabled_text(original@, *settings) is None
            },
        },
{
    let parsed = edit_parses(original);
    let (providers, selects) = if parsed {
        let shape = match edit_kind(original, "model_providers") {
            ItemKind::Absent => ProvidersShape::Absent,
            ItemKind::Table => ProvidersShape::Table(
                edit_has_entry(original, "model_providers", "subscription_switcher"),
            ),
            ItemKind::Other => ProvidersShape::Other(
                edit_has_entry(original, "model_providers", "subscription_switcher"),
            ),
        };
        let selects = match edit_string(original, "model_provider") {
            Some(v) => same_text(v.as_str(), "subscription_switcher"),
            None => false,
        };
        (shape, selects)
    } else {
        (ProvidersShape::Absent, false)
    };
    let state = EnableState {
        home_is_dir,
        parsed,
        record_exists,
        providers,
        selects_proxy: selects,
    };
    assert(state == enable_state_of(home_is_dir, original@, record_exists));
    match enable_check(state) {
        Ok(()) => {},
        Err(e) => return Err(e),
    }
    let with_table = if providers == ProvidersShape::Absent {
        match edit_add_table(original, "model_providers") {
            Some(t) => t,
            None => return Err(ConfigError::CannotPrepare),
        }
    } else {
        String::from_str(original)
    };
    if !edit_parses(with_table.as_str()) {
        return Err(ConfigError::CannotPrepare);
    }
    if edit_kind(with_table.as_str(), "model_providers") != ItemKind::Table {
        return Err(ConfigError::CannotPrepare);
    }
    let entry = provider_entry(settings);
    let with_entry = match edit_add_entry_table(
        with_table.as_str(),
        "model_providers",
        "subscription_switcher",
        &entry,
    ) {
        Some(t) => t,
        None => return Err(ConfigError::CannotPrepare),
    };
    let next = match edit_set_string(with_entry.as_str(), "model_provider", "subscription_switcher") {
        Some(t) => t,
        None => return Err(ConfigError::CannotPrepare),
    };
    if parse_toml(next.as_str()).is_none() {
        return Err(ConfigError::CannotPrepare);
    }
    Ok(ConfigPatch { text: next, provider: entry_table_text(&entry) })
}

/// The error restoring reports, in checking order.
pub open spec fn restore_config_error(
    record_found: bool,
    same_home: bool,
    current: Seq<char>,
    backup: Seq<char>,
    provider: Seq<char>,
) -> Option<ConfigError> {
    let entry = toml_edit_entry_text(current, "model_providers"@, provider_name());
    if !record_found {
        Some(ConfigError::NoRecord)
    } else if !same_home {
        Some(ConfigError::OtherHome)
    } else if !toml_edit_parses(current) || !toml_edit_parses(backup) {
        Some(ConfigError::InvalidConfig)
    } else if entry is Some && toml_same_value(entry->0, provider) is None {
        Some(ConfigError::CannotCompare)
    } else if entry is Some && toml_same_value(entry->0, provider) == Some(false) {
        Some(ConfigError::ProviderEdited)
    } else {
        None
    }
}

/// What restoring reads of the two parsed documents.
pub open spec fn restore_state_of(current: Seq<char>, backup: Seq<char>, provider: Seq<char>) -> RestoreState {
    let entry = toml_edit_entry_text(current, "model_providers"@, provider_name());
    RestoreState {
        record_found: true,
        same_home: true,
        parsed: true,
        entry_unchanged: if entry is Some {
            toml_same_value(entry->0, provider)
        } else {
            None
        },
        selects_proxy: selects_proxy_of(current),
        backup_has_model_provider: toml_edit_kind(backup, "model_provider"@) != ItemKind::Absent,
        providers_left_empty: toml_edit_kind(current, "model_providers"@) == ItemKind::Table
            && toml_edit_table_len(current, "model_providers"@) == (if toml_edit_has_entry(
            current,
            "model_providers"@,
            provider_name(),
        ) {
            1int
        } else {
            0int
        }),
        backup_has_providers: toml_edit_kind(backup, "model_providers"@) != ItemKind::Absent,
    }
}

/// The restored configuration: `model_provider` back as the backup had it
/// (when it still selects the proxy), the proxy entry gone, and the
/// providers table gone if it is left empty and the backup had none.
pub open spec fn restored_text(current: Seq<char>, backup: Seq<char>, plan: RestorePlan) -> Option<
    Seq<char>,
> {
    let selected = match plan.model_provider {
        ProviderChoice::Keep => current,
        ProviderChoice::FromBackup => toml_edit_copy(current, backup, "model_provider"@),
        ProviderChoice::Remove => toml_edit_remove(current, "model_provider"@),
    };
    if !toml_edit_parses(selected) {
        None
    } else {
        let without_entry = toml_edit_remove_entry(selected, "model_providers"@, provider_name());
        if !plan.remove_providers {
            Some(without_entry)
        } else if !toml_edit_parses(without_entry) {
            None
        } else {
            Some(toml_edit_remove(without_entry, "model_providers"@))
        }
    }
}

/// Computes the restored `config.toml` from the current one, the saved
/// backup and the provider entry recorded when the proxy was enabled.
/// A hand-edited proxy entry is never overwritten.
pub fn restore_config(
    record_found: bool,
    same_home: bool,
    current: &str,
    backup: &str,
    provider: &str,
) -> (r: Result<String, ConfigError>)
    ensures
        match r {
            Ok(text) => restore_config_error(record_found, same_home, current@, backup@, provider@)
                is None && restored_text(
                current@,
                backup@,
                restore_plan_of(restore_state_of(current@, backup@, provider@)),
            ) == Some(text@),
            Err(e) => if restore_config_error(record_found, same_home, current@, backup@, provider@)
                is Some {
                restore_config_error(record_found, same_home, current@, backup@, provider@)
                    == Some(e)
            } else {
                e == ConfigError::CannotPrepare && restored_text(
                    current@,
                    backup@,
                    restore_plan_of(restore_state_of(current@, backup@, provider@)),
                ) is None
            },
        },
{
    if !record_found {
        return Err(ConfigError::NoRecord);
    }
    if !same_home {
        return Err(ConfigError::OtherHome);
    }
    if !edit_parses(current) || !edit_parses(backup) {
        return Err(ConfigError::InvalidConfig);
    }
    let entry_unchanged = match edit_entry_text(current, "model_providers", "subscription_switcher") {
        Some(actual) => match same_toml_value(actual.as_str(), provider) {
            Some(same) => Some(same),
            None => return Err(ConfigError::CannotCompare),
        },
        None => None,
    };
    let is_table = edit_kind(current, "model_providers") == ItemKind::Table;
    let left_empty = if is_table {
        let len = edit_table_len(current, "model_providers");
        let has = edit_has_entry(current, "model_providers", "subscription_switcher");
        len == (if has {
            1
        } else {
            0
        })
    } else {
        false
    };
    let selects = match edit_string(current, "model_provider") {
        Some(v) => same_text(v.as_str(), "subscription_switcher"),
        None => false,
    };
    let state = RestoreState {
        record_found,
        same_home,
        parsed: true,
        entry_unchanged,
        selects_proxy: selects,
        backup_has_model_provider: edit_kind(backup, "model_provider") != ItemKind::Absent,
        providers_left_empty: left_empty,
        backup_has_providers: edit_kind(backup, "model_providers") != ItemKind::Absent,
    };
    assert(state == restore_state_of(current@, backup@, provider@));
    let plan = match restore_plan(state) {
        Ok(p) => p,
        Err(e) => return Err(e),
    };
    let selected = match plan.model_provider {
        ProviderChoice::Keep => String::from_str(current),
        ProviderChoice::FromBackup => match edit_copy(current, backup, "model_provider") {
            Some(t) => t,
            None => return Err(ConfigError::CannotPrepare),
        },
        ProviderChoice::Remove => match edit_remove(current, "model_provider") {
            Some(t) => t,
            None => return Err(ConfigError::CannotPrepare),
        },
    };
    let without_entry = match edit_remove_entry(selected.as_str(), "model_providers", "subscription_switcher") {
        Some(t) => t,
        None => return Err(ConfigError::CannotPrepare),
    };
    if !plan.remove_providers {
        return Ok(without_entry);
    }
    match edit_remove(without_entry.as_str(), "model_providers") {
        Some(t) => Ok(t),
        None => Err(ConfigError::CannotPrepare),
    }
}

} // verus!
