//! JSON and TOML documents as plain values, produced by `serde_json` and `toml`.
use vstd::prelude::*;
use crate::text::{chars_of, same_text};

verus! {

#[verifier::external_type_specification]
#[verifier::external_body]
pub struct ExJsonValue(serde_json::Value);

#[verifier::external_type_specification]
#[verifier::external_body]
pub struct ExTomlValue(toml::Value);

/// A parsed document tree. Numbers keep their integer readings only
/// (`signed` and `unsigned` are both `None` for a fractional number);
/// TOML dates and times are `Other`.
#[derive(Debug)]
pub enum Doc {
    Null,
    Bool(bool),
    Number(Option<i64>, Option<u64>),
    Str(String),
    Array(Vec<Doc>),
    Table(Vec<(String, Doc)>),
    Other,
}

/// The value of the first entry named `key`.
pub open spec fn entry_value(entries: Seq<(String, Doc)>, key: Seq<char>) -> Option<Doc>
    decreases entries.len(),
{
    if entries.len() == 0 {
        None
    } else if entries[0].0@ == key {
        Some(entries[0].1)
    } else {
        entry_value(entries.drop_first(), key)
    }
}

impl Doc {
    /// The member `key` of a table; `None` for a missing member or a non-table.
    pub open spec fn get_key(self, key: Seq<char>) -> Option<Doc> {
        match self {
            Doc::Table(entries) => entry_value(entries@, key),
            _ => None,
        }
    }

    /// Indexing as `serde_json` does it: a missing member reads as `Null`.
    pub open spec fn index_key(self, key: Seq<char>) -> Doc {
        match self.get_key(key) {
            Some(d) => d,
            None => Doc::Null,
        }
    }

    pub open spec fn text(self) -> Option<Seq<char>> {
        match self {
            Doc::Str(s) => Some(s@),
            _ => None,
        }
    }

    pub open spec fn signed(self) -> Option<i64> {
        match self {
            Doc::Number(i, _) => i,
            _ => None,
        }
    }

    pub open spec fn unsigned(self) -> Option<u64> {
        match self {
            Doc::Number(_, u) => u,
            _ => None,
        }
    }

    pub open spec fn is_null(self) -> bool {
        self is Null
    }

    /// A node `serde_json` can index by key for writing: an object, or
    /// `null`, which indexing turns into an empty object.
    pub open spec fn keyed(self) -> bool {
        self is Table || self is Null
    }

    /// A node whose member `outer` can in turn be indexed for writing.
    pub open spec fn nested_keyed(self, outer: Seq<char>) -> bool {
        self.keyed() && self.index_key(outer).keyed()
    }

    pub fn is_keyed(&self) -> (r: bool)
        ensures
            r == self.keyed(),
    {
        match self {
            Doc::Table(_) | Doc::Null => true,
            _ => false,
        }
    }

    /// The member `key`, if this is a table holding one.
    pub fn get(&self, key: &str) -> (r: Option<&Doc>)
        ensures
            match r {
                Some(d) => self.get_key(key@) == Some(*d),
                None => self.get_key(key@) is None,
            },
    {
        match self {
            Doc::Table(entries) => {
                let mut i: usize = 0;
                assert(entries@.subrange(0, entries@.len() as int) =~= entries@);
                while i < entries.len()
                    invariant
                        i <= entries@.len(),
                        self.get_key(key@) == entry_value(entries@, key@),
                        entry_value(entries@, key@) == entry_value(
                            entries@.subrange(i as int, entries@.len() as int),
                            key@,
                        ),
                    decreases entries.len() - i,
                {
                    let rest = Ghost(entries@.subrange(i as int, entries@.len() as int));
                    assert(rest@[0] == entries@[i as int]);
                    if same_text(entries[i].0.as_str(), key) {
                        return Some(&entries[i].1);
                    }
                    assert(rest@.drop_first() =~= entries@.subrange(i + 1, entries@.len() as int));
                    i = i + 1;
                }
                None
            },
            _ => None,
        }
    }

    /// The text of a string node.
    pub fn as_str(&self) -> (r: Option<&str>)
        ensures
            match r {
                Some(s) => self.text() == Some(s@),
                None => self.text() is None,
            },
    {
        match self {
            Doc::Str(s) => Some(s.as_str()),
            _ => None,
        }
    }

    pub fn as_i64(&self) -> (r: Option<i64>)
        ensures
            r == self.signed(),
    {
        match self {
            Doc::Number(i, _) => *i,
            _ => None,
        }
    }

    pub fn as_u64(&self) -> (r: Option<u64>)
        ensures
            r == self.unsigned(),
    {
        match self {
            Doc::Number(_, u) => *u,
            _ => None,
        }
    }

    pub fn is_null_node(&self) -> (r: bool)
        ensures
            r == self.is_null(),
    {
        match self {
            Doc::Null => true,
            _ => false,
        }
    }

    /// The member `key` of a table, a missing member read as `Null`.
    pub fn at_key(&self, key: &str) -> (r: &Doc)
        ensures
            *r == self.index_key(key@),
    {
        match self.get(key) {
            Some(d) => d,
            None => &NULL_DOC,
        }
    }
}

/// A `Null` node to lend out for missing members.
pub const NULL_DOC: Doc = Doc::Null;

/// The document that `serde_json::from_slice::<serde_json::Value>` reads from
/// `bytes`, as plain values; `None` where it reports an error.
pub uninterp spec fn json_document(bytes: Seq<u8>) -> Option<Doc>;

/// The document that `toml::from_str::<toml::Value>` reads from `text`, as
/// plain values; `None` where it reports an error.
pub uninterp spec fn toml_document(text: Seq<char>) -> Option<Doc>;

/// Calls `serde_json::from_slice::<serde_json::Value>`; the contract claims
/// only that the result is the named reading of these bytes.
#[verifier::external_body]
pub(crate) fn parse_json(bytes: &[u8]) -> (r: Option<Doc>)
    ensures
        r == json_document(bytes@),
{
    serde_json::from_slice::<serde_json::Value>(bytes).ok().map(doc_from_json)
}

/// Calls `toml::from_str::<toml::Value>`; the contract claims only that the
/// result is the named reading of this text.
#[verifier::external_body]
pub(crate) fn parse_toml(text: &str) -> (r: Option<Doc>)
    ensures
        r == toml_document(text@),
{
    toml::from_str::<toml::Value>(text).ok().map(doc_from_toml)
}

/// Moves a `serde_json::Value` into a `Doc`, variant by variant.
#[verifier::external_body]
fn doc_from_json(value: serde_json::Value) -> Doc {
    match value {
        serde_json::Value::Null => Doc::Null,
        serde_json::Value::Bool(b) => Doc::Bool(b),
        serde_json::Value::Number(n) => Doc::Number(n.as_i64(), n.as_u64()),
        serde_json::Value::String(s) => Doc::Str(s),
        serde_json::Value::Array(a) => Doc::Array(a.into_iter().map(doc_from_json).collect()),
        serde_json::Value::Object(m) => Doc::Table(
            m.into_iter().map(|(k, v)| (k, doc_from_json(v))).collect(),
        ),
    }
}

/// Moves a `toml::Value` into a `Doc`, variant by variant.
#[verifier::external_body]
fn doc_from_toml(value: toml::Value) -> Doc {
    match value {
        toml::Value::String(s) => Doc::Str(s),
        toml::Value::Integer(i) => Doc::Number(Some(i), u64::try_from(i).ok()),
        toml::Value::Boolean(b) => Doc::Bool(b),
        toml::Value::Array(a) => Doc::Array(a.into_iter().map(doc_from_toml).collect()),
        toml::Value::Table(t) => Doc::Table(
            t.into_iter().map(|(k, v)| (k, doc_from_toml(v))).collect(),
        ),
        _ => Doc::Other,
    }
}

/// The bytes `serde_json::to_vec` writes for the document `bytes` once its
/// top-level member `key` is set to the boolean `b`.
pub uninterp spec fn json_with_bool(bytes: Seq<u8>, key: Seq<char>, b: bool) -> Seq<u8>;

/// The bytes `serde_json::to_vec` writes for the document `bytes` once its
/// top-level member `key` is set to the string `text`.
pub uninterp spec fn json_with_text(bytes: Seq<u8>, key: Seq<char>, text: Seq<char>) -> Seq<u8>;

/// The bytes `serde_json::to_vec` writes for the document `bytes` once the
/// member `key` of its member `outer` is set to the string `text`.
pub uninterp spec fn json_with_nested_text(
    bytes: Seq<u8>,
    outer: Seq<char>,
    key: Seq<char>,
    text: Seq<char>,
) -> Seq<u8>;

/// The bytes `serde_json::to_vec` writes for the document read from `bytes`.
pub uninterp spec fn json_reencoded(bytes: Seq<u8>) -> Seq<u8>;

/// Parses `bytes` as a `serde_json::Value`, sets `value[key]` to the boolean
/// and writes it with `serde_json::to_vec` (which cannot fail for a `Value`).
/// Indexing panics on a document that is neither an object nor `null`.
#[verifier::external_body]
pub(crate) fn json_set_bool(bytes: &[u8], key: &str, b: bool) -> (r: Option<Vec<u8>>)
    requires
        json_document(bytes@) is Some ==> json_document(bytes@)->0.keyed(),
    ensures
        match r {
            Some(v) => json_document(bytes@) is Some && v@ == json_with_bool(bytes@, key@, b),
            None => json_document(bytes@) is None,
        },
{
    let mut v: serde_json::Value = serde_json::from_slice(bytes).ok()?;
    v[key] = serde_json::Value::Bool(b);
    serde_json::to_vec(&v).ok()
}

/// As `json_set_bool`, with a string.
#[verifier::external_body]
pub(crate) fn json_set_text(bytes: &[u8], key: &str, text: &str) -> (r: Option<Vec<u8>>)
    requires
        json_document(bytes@) is Some ==> json_document(bytes@)->0.keyed(),
    ensures
        match r {
            Some(v) => json_document(bytes@) is Some && v@ == json_with_text(bytes@, key@, text@),
            None => json_document(bytes@) is None,
        },
{
    let mut v: serde_json::Value = serde_json::from_slice(bytes).ok()?;
    v[key] = serde_json::Value::String(text.to_owned());
    serde_json::to_vec(&v).ok()
}

/// As `json_set_text`, for `value[outer][key]`.
#[verifier::external_body]
pub(crate) fn json_set_nested_text(bytes: &[u8], outer: &str, key: &str, text: &str) -> (r: Option<
    Vec<u8>,
>)
    requires
        json_document(bytes@) is Some ==> json_document(bytes@)->0.nested_keyed(outer@),
    ensures
        match r {
            Some(v) => json_document(bytes@) is Some && v@ == json_with_nested_text(
                bytes@,
                outer@,
                key@,
                text@,
            ),
            None => json_document(bytes@) is None,
        },
{
    let mut v: serde_json::Value = serde_json::from_slice(bytes).ok()?;
    v[outer][key] = serde_json::Value::String(text.to_owned());
    serde_json::to_vec(&v).ok()
}

/// Parses `bytes` as a `serde_json::Value` and writes it with `serde_json::to_vec`.
#[verifier::external_body]
pub(crate) fn json_reencode(bytes: &[u8]) -> (r: Option<Vec<u8>>)
    ensures
        match r {
            Some(v) => json_document(bytes@) is Some && v@ == json_reencoded(bytes@),
            None => json_document(bytes@) is None,
        },
{
    let v: serde_json::Value = serde_json::from_slice(bytes).ok()?;
    serde_json::to_vec(&v).ok()
}

/// The bytes `serde_json::to_vec` writes for the `serde_json::Map`
/// collected from the given (name, string) pairs.
pub uninterp spec fn json_object_bytes(members: Seq<(Seq<char>, Seq<char>)>) -> Seq<u8>;

/// The (name, text) views of string members.
pub open spec fn member_views(members: Seq<(String, String)>) -> Seq<(Seq<char>, Seq<char>)> {
    members.map_values(|m: (String, String)| (m.0@, m.1@))
}

/// No two members share a name.
pub open spec fn distinct_names(members: Seq<(Seq<char>, Seq<char>)>) -> bool {
    forall|i: int, j: int| 0 <= i < j < members.len() ==> members[i].0 != members[j].0
}

/// `d` is a table holding exactly these string members.
pub open spec fn holds_members(d: Doc, members: Seq<(Seq<char>, Seq<char>)>) -> bool {
    &&& d is Table
    &&& forall|i: int|
        0 <= i < members.len() ==> #[trigger] d.index_key(members[i].0).text() == Some(
            members[i].1,
        )
    &&& forall|k: Seq<char>|
        (forall|i: int| 0 <= i < members.len() ==> members[i].0 != k) ==> #[trigger] d.get_key(
            k,
        ) is None
}

/// `serde_json` reads `bytes` as a table holding exactly these string members.
pub open spec fn reads_back_as(bytes: Seq<u8>, members: Seq<(Seq<char>, Seq<char>)>) -> bool {
    json_document(bytes) matches Some(d) && holds_members(d, members)
}

/// Collects the members into a `serde_json::Map` of `Value::String`s and
/// writes the object with `serde_json::to_vec` (which cannot fail for a
/// `Value`). The contract also claims that `serde_json::from_slice` reads
/// back what was written: an object with exactly these members, when no
/// name repeats.
#[verifier::external_body]
pub(crate) fn json_object(members: &Vec<(String, String)>) -> (r: Vec<u8>)
    ensures
        r@ == json_object_bytes(member_views(members@)),
        distinct_names(member_views(members@)) ==> reads_back_as(r@, member_views(members@)),
{
    let map: serde_json::Map<String, serde_json::Value> = members
        .iter()
        .map(|(k, v)| (k.clone(), serde_json::Value::String(v.clone())))
        .collect();
    serde_json::to_vec(&serde_json::Value::Object(map)).unwrap_or_default()
}

} // verus!
