//! Limit-reset credits: which credit is used next, and the durable
//! idempotency record that keeps a retried reset on the same operation.
use vstd::prelude::*;
use rand::RngCore;
use vstd::string::StringSliceAdditionalSpecFns;
use crate::accounts::{Store, join_path, path_join};
use crate::clock::{Instant, earlier, parse_rfc3339, rfc3339_instant};
use crate::doc::{
    Doc,
    json_document,
    json_object,
    json_object_bytes,
    member_views,
    parse_json,
};
use crate::text::{
    chars_of,
    check_hex64,
    hex_lower,
    hex_text,
    is_hex64,
    lemma_hex_text_digits,
    same_text,
    string_of,
    text_le,
};

verus! {

broadcast use vstd::seq_lib::group_to_multiset_ensures;

/// What the reset service answered.
#[derive(Debug, Clone, Copy, PartialEq, Eq, Structural)]
pub enum Outcome {
    Reset,
    NothingToReset,
    NoCredit,
    AlreadyRedeemed,
}

/// The text shown for each `Outcome`.
pub open spec fn outcome_text(e: Outcome) -> Seq<char> {
    match e {
        Outcome::Reset => "A reset was used. Fetching current limits."@,
        Outcome::NothingToReset => "No reset is needed now."@,
        Outcome::NoCredit => "This account has no reset credit available."@,
        Outcome::AlreadyRedeemed => "This reset was already used. Fetching current limits."@,
    }
}

impl Outcome {
    pub fn message(&self) -> (r: &'static str)
        ensures
            r@ == outcome_text(*self),
    {
        match self {
            Outcome::Reset => "A reset was used. Fetching current limits.",
            Outcome::NothingToReset => "No reset is needed now.",
            Outcome::NoCredit => "This account has no reset credit available.",
            Outcome::AlreadyRedeemed => "This reset was already used. Fetching current limits.",
        }
    }
}

/// The outcome named by a `code` value, if it is one of the known codes.
pub open spec fn outcome_named(code: Seq<char>) -> Option<Outcome> {
    if code == "reset"@ {
        Some(Outcome::Reset)
    } else if code == "nothing_to_reset"@ {
        Some(Outcome::NothingToReset)
    } else if code == "no_credit"@ {
        Some(Outcome::NoCredit)
    } else if code == "already_redeemed"@ {
        Some(Outcome::AlreadyRedeemed)
    } else {
        None
    }
}

/// The body of a reset response.
#[derive(Debug, Clone, Copy, PartialEq, Eq, Structural)]
pub struct Response {
    pub code: Outcome,
}

/// The outcome a response body reports, if it is a JSON object whose `code`
/// is a known outcome.
pub open spec fn response_outcome(bytes: Seq<u8>) -> Option<Outcome> {
    match json_document(bytes) {
        Some(d) => if d is Table {
            match d.get_key("code"@) {
                Some(c) => match c.text() {
                    Some(t) => outcome_named(t),
                    None => None,
                },
                None => None,
            }
        } else {
            None
        },
        None => None,
    }
}

impl Response {
    /// Reads a reset response; unknown or missing codes are refused, so the
    /// idempotency record stays for a retry.
    pub fn parse(bytes: &[u8]) -> (r: Option<Response>)
        ensures
            match r {
                Some(resp) => response_outcome(bytes@) == Some(resp.code),
                None => response_outcome(bytes@) is None,
            },
    {
        let d = match parse_json(bytes) {
            Some(d) => d,
            None => return None,
        };
        let is_table = match &d {
            Doc::Table(_) => true,
            _ => false,
        };
        if !is_table {
            return None;
        }
        let code = match d.get("code") {
            Some(c) => match c.as_str() {
                Some(t) => t,
                None => return None,
            },
            None => return None,
        };
        let outcome = if same_text(code, "reset") {
            Outcome::Reset
        } else if same_text(code, "nothing_to_reset") {
            Outcome::NothingToReset
        } else if same_text(code, "no_credit") {
            Outcome::NoCredit
        } else if same_text(code, "already_redeemed") {
            Outcome::AlreadyRedeemed
        } else {
            return None;
        };
        Some(Response { code: outcome })
    }
}

/// A reset credit as listed by the service.
#[derive(Clone, Debug)]
pub struct Credit {
    pub id: String,
    pub expires_at: Option<Instant>,
    pub granted_at: Instant,
    /// An available `codex_rate_limits` credit.
    pub available: bool,
}

/// A credit can be used at `now` when it is available and not yet expired.
pub open spec fn credit_eligible(c: Credit, now: Instant) -> bool {
    c.available && match c.expires_at {
        None => true,
        Some(at) => earlier(now, at),
    }
}

impl Credit {
    pub fn eligible(&self, now: Instant) -> (r: bool)
        ensures
            r == credit_eligible(*self, now),
    {
        self.available && match self.expires_at {
            None => true,
            Some(at) => now.is_before(&at),
        }
    }

    /// The expiry line of the credit, `date` being its expiry in local
    /// time (`%d.%m.%Y %H:%M %Z`).
    pub fn expiry_label(&self, date: &str) -> (r: String)
        ensures
            r@ == expiry_text(*self, date@),
    {
        match self.expires_at {
            Some(_) => {
                let mut out = chars_of("Expires ");
                crate::text::push_str(&mut out, date);
                string_of(out.as_slice())
            },
            None => String::from_str("No expiration date"),
        }
    }
}

/// The expiry line of a credit whose local expiry date reads `date`.
pub open spec fn expiry_text(c: Credit, date: Seq<char>) -> Seq<char> {
    match c.expires_at {
        Some(_) => "Expires "@ + date,
        None => "No expiration date"@,
    }
}

/// Credits are ordered by expiry (undated last), then grant time, then id.
pub open spec fn credit_le(a: Credit, b: Credit) -> bool {
    match (a.expires_at, b.expires_at) {
        (Some(x), Some(y)) if x != y => earlier(x, y),
        (Some(_), None) => true,
        (None, Some(_)) => false,
        _ => if a.granted_at != b.granted_at {
            earlier(a.granted_at, b.granted_at)
        } else {
            text_le(a.id@, b.id@)
        },
    }
}

pub proof fn lemma_credit_le_total(a: Credit, b: Credit)
    ensures
        credit_le(a, b) || credit_le(b, a),
{
    crate::text::lemma_text_le_total(a.id@, b.id@);
}

fn credit_le_exec(a: &Credit, b: &Credit) -> (r: bool)
    ensures
        r == credit_le(*a, *b),
{
    match (a.expires_at, b.expires_at) {
        (Some(x), Some(y)) if x.secs != y.secs || x.nanos != y.nanos => {
            return x.is_before(&y);
        },
        (Some(_), None) => {
            return true;
        },
        (None, Some(_)) => {
            return false;
        },
        _ => {},
    }
    if a.granted_at.secs != b.granted_at.secs || a.granted_at.nanos != b.granted_at.nanos {
        a.granted_at.is_before(&b.granted_at)
    } else {
        crate::text::text_le_exec(a.id.as_str(), b.id.as_str())
    }
}

pub open spec fn credits_sorted(s: Seq<Credit>) -> bool {
    forall|i: int, j: int| 0 <= i && j == i + 1 && j < s.len() ==> #[trigger] credit_le(s[i], s[j])
}

pub proof fn lemma_credit_le_transitive(a: Credit, b: Credit, c: Credit)
    requires
        credit_le(a, b),
        credit_le(b, c),
    ensures
        credit_le(a, c),
{
    if a.expires_at == b.expires_at && b.expires_at == c.expires_at && a.granted_at
        == b.granted_at && b.granted_at == c.granted_at {
        crate::text::lemma_text_le_transitive(a.id@, b.id@, c.id@);
    }
}

/// In a sorted list every credit sorts at or before every later one.
pub proof fn lemma_sorted_in_order(cs: Seq<Credit>, i: int, j: int)
    requires
        credits_sorted(cs),
        0 <= i <= j < cs.len(),
    ensures
        credit_le(cs[i], cs[j]),
    decreases j - i,
{
    if i == j {
        lemma_credit_le_total(cs[i], cs[i]);
    } else {
        lemma_sorted_in_order(cs, i, j - 1);
        assert(credit_le(cs[j - 1], cs[j]));
        lemma_credit_le_transitive(cs[i], cs[j - 1], cs[j]);
    }
}

proof fn lemma_first_eligible_reaches(cs: Seq<Credit>, now: Instant, from: int, j: int)
    requires
        0 <= from <= j < cs.len(),
        credit_eligible(cs[j], now),
    ensures
        from <= first_eligible(cs, now, from) <= j,
        credit_eligible(cs[first_eligible(cs, now, from)], now),
    decreases j - from,
{
    if !credit_eligible(cs[from], now) {
        lemma_first_eligible_reaches(cs, now, from + 1, j);
    }
}

/// The credit a new reset uses (the first usable one of the ordered list)
/// expires no later than any other usable credit: by exact instant, an
/// undated credit last, then by grant time and id.
pub proof fn law_next_is_earliest_usable(cs: Seq<Credit>, now: Instant, j: int)
    requires
        credits_sorted(cs),
        0 <= j < cs.len(),
        credit_eligible(cs[j], now),
    ensures
        first_eligible(cs, now, 0) <= j,
        credit_eligible(cs[first_eligible(cs, now, 0)], now),
        credit_le(cs[first_eligible(cs, now, 0)], cs[j]),
{
    lemma_first_eligible_reaches(cs, now, 0, j);
    lemma_sorted_in_order(cs, first_eligible(cs, now, 0), j);
}

/// The plain content of a credit.
pub type CreditView = (Seq<char>, Option<Instant>, Instant, bool);

pub open spec fn credit_view(c: Credit) -> CreditView {
    (c.id@, c.expires_at, c.granted_at, c.available)
}

pub open spec fn credit_views(s: Seq<Credit>) -> Seq<CreditView> {
    s.map_values(|c: Credit| credit_view(c))
}

fn insert_credit(out: &mut Vec<Credit>, c: Credit)
    requires
        credits_sorted(old(out)@),
    ensures
        credits_sorted(final(out)@),
        credit_views(final(out)@).to_multiset() == credit_views(old(out)@).to_multiset().insert(
            credit_view(c),
        ),
{
    let mut p: usize = 0;
    let ghost before = out@;
    while p < out.len()
        invariant
            p <= out@.len(),
            out@ == before,
            forall|k: int| 0 <= k < p ==> credit_le(#[trigger] before[k], c),
        ensures
            p <= out@.len(),
            out@ == before,
            forall|k: int| 0 <= k < p ==> credit_le(#[trigger] before[k], c),
            p < out@.len() ==> !credit_le(before[p as int], c),
        decreases out.len() - p,
    {
        if !credit_le_exec(&out[p], &c) {
            break;
        }
        p = p + 1;
    }
    proof {
        if p < out@.len() {
            lemma_credit_le_total(c, out@[p as int]);
        }
    }
    out.insert(p, c);
    proof {
        assert(credit_views(out@) =~= credit_views(before).insert(p as int, credit_view(c)));
        vstd::seq_lib::to_multiset_insert(credit_views(before), p as int, credit_view(c));
        assert forall|i: int, j: int|
            0 <= i && j == i + 1 && j < out@.len() implies #[trigger] credit_le(out@[i], out@[j]) by {
            if j < p {
                assert(out@[i] == before[i] && out@[j] == before[j]);
            } else if j == p {
                assert(out@[i] == before[i]);
                assert(credit_le(before[i], c));
            } else if i == p {
                assert(out@[j] == before[p as int]);
            } else {
                assert(out@[i] == before[i - 1] && out@[j] == before[j - 1]);
            }
        }
    }
}

/// Why a credit list was refused.
#[derive(Debug, Clone, Copy, PartialEq, Eq, Structural)]
pub enum CreditsError {
    Malformed,
    TooMany,
    InvalidIds,
    InvalidDate,
}

/// The text shown for each `CreditsError`.
pub open spec fn credits_error_text(e: CreditsError) -> Seq<char> {
    match e {
        CreditsError::Malformed => "Invalid reset credit list."@,
        CreditsError::TooMany => "The reset credit list is too long."@,
        CreditsError::InvalidIds => "Invalid reset credit identifiers."@,
        CreditsError::InvalidDate => "Invalid reset credit date."@,
    }
}

impl CreditsError {
    pub fn message(&self) -> (r: &'static str)
        ensures
            r@ == credits_error_text(*self),
    {
        match self {
            CreditsError::Malformed => "Invalid reset credit list.",
            CreditsError::TooMany => "The reset credit list is too long.",
            CreditsError::InvalidIds => "Invalid reset credit identifiers.",
            CreditsError::InvalidDate => "Invalid reset credit date.",
        }
    }
}

/// A string member that may be missing or null.
pub open spec fn optional_text_ok(d: Doc, key: Seq<char>) -> bool {
    match d.get_key(key) {
        None => true,
        Some(v) => v.is_null() || v.text() is Some,
    }
}

/// The shape of one listed credit.
pub open spec fn raw_credit_ok(d: Doc) -> bool {
    &&& d is Table
    &&& d.index_key("id"@).text() is Some
    &&& d.index_key("reset_type"@).text() is Some
    &&& d.index_key("status"@).text() is Some
    &&& d.index_key("granted_at"@).text() is Some
    &&& optional_text_ok(d, "expires_at"@)
}

/// The credit records of a well-shaped list.
pub open spec fn credit_items(d: Doc) -> Seq<Doc> {
    match d.get_key("credits"@) {
        Some(Doc::Array(items)) => items@,
        _ => Seq::empty(),
    }
}

/// The shape of a credit list: an object with a `credits` array of
/// well-shaped records and a `u32` `available_count`.
pub open spec fn credits_shape_ok(d: Doc) -> bool {
    &&& d is Table
    &&& d.get_key("credits"@) matches Some(Doc::Array(_))
    &&& forall|i: int|
        0 <= i < credit_items(d).len() ==> raw_credit_ok(#[trigger] credit_items(d)[i])
    &&& d.index_key("available_count"@).unsigned() is Some
    &&& d.index_key("available_count"@).unsigned()->0 <= u32::MAX
}

pub open spec fn raw_id(d: Doc) -> Seq<char> {
    d.index_key("id"@).text()->0
}

/// The expiry text of a record, when it has one.
pub open spec fn raw_expiry(d: Doc) -> Option<Seq<char>> {
    d.index_key("expires_at"@).text()
}

/// Why record `i` is refused, if it is: an empty or repeated id, or an
/// unreadable date.
pub open spec fn credit_error(items: Seq<Doc>, i: int) -> Option<CreditsError> {
    if raw_id(items[i]).len() == 0 || exists|j: int|
        0 <= j < i && raw_id(#[trigger] items[j]) == raw_id(items[i]) {
        Some(CreditsError::InvalidIds)
    } else if raw_expiry(items[i]) is Some && rfc3339_instant(raw_expiry(items[i])->0) is None {
        Some(CreditsError::InvalidDate)
    } else if rfc3339_instant(items[i].index_key("granted_at"@).text()->0) is None {
        Some(CreditsError::InvalidDate)
    } else {
        None
    }
}

/// The first refused record at or after `i`.
pub open spec fn first_credit_error(items: Seq<Doc>, i: int) -> Option<CreditsError>
    decreases items.len() - i,
{
    if i < 0 || i >= items.len() {
        None
    } else if credit_error(items, i) is Some {
        credit_error(items, i)
    } else {
        first_credit_error(items, i + 1)
    }
}

/// The first reason a credit list is refused.
pub open spec fn credits_error(bytes: Seq<u8>) -> Option<CreditsError> {
    match json_document(bytes) {
        None => Some(CreditsError::Malformed),
        Some(d) => if !credits_shape_ok(d) {
            Some(CreditsError::Malformed)
        } else if credit_items(d).len() > 1000 {
            Some(CreditsError::TooMany)
        } else {
            first_credit_error(credit_items(d), 0)
        },
    }
}

/// The credit a well-formed record describes.
pub open spec fn record_view(d: Doc) -> CreditView {
    (
        raw_id(d),
        match raw_expiry(d) {
            Some(t) => rfc3339_instant(t),
            None => None,
        },
        rfc3339_instant(d.index_key("granted_at"@).text()->0)->0,
        d.index_key("status"@).text()->0 == "available"@ && d.index_key("reset_type"@).text()->0
            == "codex_rate_limits"@,
    )
}

/// The reset credits of an account, ordered for use.
#[derive(Clone, Debug)]
pub struct Credits {
    pub credits: Vec<Credit>,
    pub available_count: u32,
}

/// Index of the first credit usable at `now`, or `cs.len()`.
pub open spec fn first_eligible(cs: Seq<Credit>, now: Instant, from: int) -> int
    decreases cs.len() - from,
{
    if from < 0 || from >= cs.len() {
        cs.len() as int
    } else if credit_eligible(cs[from], now) {
        from
    } else {
        first_eligible(cs, now, from + 1)
    }
}

impl Credits {
    /// Reads the service's credit list: ids must be present and distinct,
    /// dates RFC 3339; credits come out ordered by exact expiry instant
    /// (undated last), then grant time, then id.
    pub fn parse(bytes: &[u8]) -> (r: Result<Credits, CreditsError>)
        ensures
            match r {
                Ok(c) => credits_error(bytes@) is None && credits_sorted(c.credits@)
                    && credit_views(c.credits@).to_multiset() == credit_items(
                    json_document(bytes@)->0,
                ).map_values(|d: Doc| record_view(d)).to_multiset() && c.available_count
                    == json_document(bytes@)->0.index_key("available_count"@).unsigned()->0,
                Err(e) => credits_error(bytes@) == Some(e),
            },
    {
        let d = match parse_json(bytes) {
            Some(d) => d,
            None => return Err(CreditsError::Malformed),
        };
        let shape = check_credits_shape(&d);
        if !shape {
            return Err(CreditsError::Malformed);
        }
        let items = match d.get("credits") {
            Some(Doc::Array(items)) => items,
            _ => return Err(CreditsError::Malformed),
        };
        let count = match d.at_key("available_count").as_u64() {
            Some(n) => n as u32,
            None => return Err(CreditsError::Malformed),
        };
        if items.len() > 1000 {
            return Err(CreditsError::TooMany);
        }
        let ghost its = items@;
        assert(its == credit_items(d));
        assert(credits_error(bytes@) == first_credit_error(its, 0));
        let ghost mapped = its.map_values(|x: Doc| record_view(x));
        let mut credits: Vec<Credit> = Vec::new();
        let mut i: usize = 0;
        while i < items.len()
            invariant
                i <= its.len(),
                its == items@,
                its.len() <= 1000,
                credits_error(bytes@) == first_credit_error(its, 0),
                mapped == its.map_values(|x: Doc| record_view(x)),
                forall|k: int| 0 <= k < its.len() ==> raw_credit_ok(#[trigger] its[k]),
                first_credit_error(its, 0) == first_credit_error(its, i as int),
                credits_sorted(credits@),
                credit_views(credits@).to_multiset() == mapped.take(i as int).to_multiset(),
            decreases items.len() - i,
        {
            let rec = &items[i];
            assert(raw_credit_ok(*rec));
            let id = match rec.at_key("id").as_str() {
                Some(s) => s,
                None => return Err(CreditsError::Malformed),
            };
            assert(id@ == raw_id(its[i as int]));
            if id.is_empty() || seen_before(items, i, id) {
                assert(credit_error(its, i as int) == Some(CreditsError::InvalidIds));
                return Err(CreditsError::InvalidIds);
            }
            let expires_at = match rec.at_key("expires_at").as_str() {
                Some(t) => match parse_rfc3339(t) {
                    Some(at) => Some(at),
                    None => {
                        assert(credit_error(its, i as int) == Some(CreditsError::InvalidDate));
                        return Err(CreditsError::InvalidDate);
                    },
                },
                None => None,
            };
            let granted_at = match rec.at_key("granted_at").as_str() {
                Some(t) => match parse_rfc3339(t) {
                    Some(at) => at,
                    None => {
                        assert(credit_error(its, i as int) == Some(CreditsError::InvalidDate));
                        return Err(CreditsError::InvalidDate);
                    },
                },
                None => return Err(CreditsError::Malformed),
            };
            let available = match (rec.at_key("status").as_str(), rec.at_key("reset_type").as_str()) {
                (Some(st), Some(kind)) => same_text(st, "available") && same_text(
                    kind,
                    "codex_rate_limits",
                ),
                _ => return Err(CreditsError::Malformed),
            };
            assert(credit_error(its, i as int) is None);
            let c = Credit { id: String::from_str(id), expires_at, granted_at, available };
            assert(credit_view(c) == mapped[i as int]);
            insert_credit(&mut credits, c);
            assert(mapped.take(i + 1) =~= mapped.take(i as int).push(mapped[i as int]));
            i = i + 1;
        }
        assert(mapped.take(its.len() as int) =~= mapped);
        Ok(Credits { credits, available_count: count })
    }

    /// The credit a new reset uses at `now`: the first usable one in order,
    /// none when the service reports no available credits.
    pub fn next(&self, now: Instant) -> (r: Option<&Credit>)
        ensures
            match r {
                Some(c) => self.available_count != 0 && first_eligible(self.credits@, now, 0)
                    < self.credits@.len() && *c == self.credits@[first_eligible(
                    self.credits@,
                    now,
                    0,
                )],
                None => self.available_count == 0 || first_eligible(self.credits@, now, 0)
                    == self.credits@.len(),
            },
    {
        if self.available_count == 0 {
            return None;
        }
        let mut i: usize = 0;
        while i < self.credits.len()
            invariant
                i <= self.credits@.len(),
                self.available_count != 0,
                first_eligible(self.credits@, now, 0) == first_eligible(self.credits@, now, i as int),
            decreases self.credits.len() - i,
        {
            if self.credits[i].eligible(now) {
                assert(first_eligible(self.credits@, now, i as int) == i);
                return Some(&self.credits[i]);
            }
            i = i + 1;
        }
        None
    }
}

fn check_credits_shape(d: &Doc) -> (r: bool)
    ensures
        r == credits_shape_ok(*d),
{
    match d {
        Doc::Table(_) => {},
        _ => return false,
    }
    let items = match d.get("credits") {
        Some(Doc::Array(items)) => items,
        _ => return false,
    };
    let mut i: usize = 0;
    while i < items.len()
        invariant
            i <= items@.len(),
            items@ == credit_items(*d),
            forall|k: int| 0 <= k < i ==> raw_credit_ok(#[trigger] items@[k]),
        decreases items.len() - i,
    {
        if !check_raw_credit(&items[i]) {
            return false;
        }
        i = i + 1;
    }
    match d.at_key("available_count").as_u64() {
        Some(n) => n <= 4294967295,
        None => false,
    }
}

fn check_raw_credit(d: &Doc) -> (r: bool)
    ensures
        r == raw_credit_ok(*d),
{
    match d {
        Doc::Table(_) => {},
        _ => return false,
    }
    let expiry_ok = match d.get("expires_at") {
        None => true,
        Some(v) => v.is_null_node() || v.as_str().is_some(),
    };
    d.at_key("id").as_str().is_some() && d.at_key("reset_type").as_str().is_some() && d.at_key(
        "status",
    ).as_str().is_some() && d.at_key("granted_at").as_str().is_some() && expiry_ok
}

/// Whether a record before `i` carries the id `id`.
fn seen_before(items: &Vec<Doc>, i: usize, id: &str) -> (r: bool)
    requires
        i <= items@.len(),
        forall|k: int| 0 <= k < items@.len() ==> raw_credit_ok(#[trigger] items@[k]),
    ensures
        r == exists|j: int| 0 <= j < i && raw_id(#[trigger] items@[j]) == id@,
{
    let mut j: usize = 0;
    while j < i
        invariant
            j <= i <= items@.len(),
            forall|k: int| 0 <= k < items@.len() ==> raw_credit_ok(#[trigger] items@[k]),
            forall|k: int| 0 <= k < j ==> raw_id(#[trigger] items@[k]) != id@,
        decreases i - j,
    {
        assert(raw_credit_ok(items@[j as int]));
        if let Some(other) = items[j].at_key("id").as_str() {
            if same_text(other, id) {
                return true;
            }
        }
        j = j + 1;
    }
    false
}

} // verus!

verus! {

/// The durable record of a reset operation: the idempotency key sent to the
/// service and the credit it redeems.
#[derive(Clone, Debug, PartialEq)]
pub struct Request {
    pub redeem_request_id: String,
    pub credit_id: Option<String>,
}

/// Why a reset record or operation was refused.
#[derive(Debug, Clone, Copy, PartialEq, Eq, Structural)]
pub enum ResetError {
    Malformed,
    InvalidRecord,
    InvalidProfile,
    NeedsCredit,
    RecordChanged,
}

/// The text shown for each `ResetError`.
pub open spec fn reset_error_text(e: ResetError) -> Seq<char> {
    match e {
        ResetError::Malformed => "Could not read the reset record."@,
        ResetError::InvalidRecord => "Invalid reset record."@,
        ResetError::InvalidProfile => "Invalid profile."@,
        ResetError::NeedsCredit => "Refresh the reset credit list before a new reset."@,
        ResetError::RecordChanged => "The reset record changed during the operation."@,
    }
}

impl ResetError {
    pub fn message(&self) -> (r: &'static str)
        ensures
            r@ == reset_error_text(*self),
    {
        match self {
            ResetError::Malformed => "Could not read the reset record.",
            ResetError::InvalidRecord => "Invalid reset record.",
            ResetError::InvalidProfile => "Invalid profile.",
            ResetError::NeedsCredit => "Refresh the reset credit list before a new reset.",
            ResetError::RecordChanged => "The reset record changed during the operation.",
        }
    }
}

/// The key and credit a saved record holds: a bare JSON string (the key
/// alone, no credit) or an object with `redeem_request_id` and an optional
/// `credit_id`.
pub open spec fn record_fields(bytes: Seq<u8>) -> Option<(Seq<char>, Option<Seq<char>>)> {
    match json_document(bytes) {
        None => None,
        Some(d) => match d {
            Doc::Str(s) => Some((s@, None)),
            _ => if d is Table && d.index_key("redeem_request_id"@).text() is Some
                && optional_text_ok(d, "credit_id"@) {
                Some((d.index_key("redeem_request_id"@).text()->0, d.index_key("credit_id"@).text()))
            } else {
                None
            },
        },
    }
}

/// Why a saved record is refused: unreadable, a key that is not 64
/// hexadecimal digits, or an empty credit id.
pub open spec fn record_error(bytes: Seq<u8>) -> Option<ResetError> {
    match record_fields(bytes) {
        None => Some(ResetError::Malformed),
        Some((key, credit)) => if !is_hex64(key) || (credit is Some && credit->0.len() == 0) {
            Some(ResetError::InvalidRecord)
        } else {
            None
        },
    }
}

pub open spec fn request_matches(r: Request, fields: (Seq<char>, Option<Seq<char>>)) -> bool {
    r.redeem_request_id@ == fields.0 && match r.credit_id {
        Some(c) => fields.1 == Some(c@),
        None => fields.1 is None,
    }
}

/// Reads a saved reset record of either form.
pub fn read_request(bytes: &[u8]) -> (r: Result<Request, ResetError>)
    ensures
        match r {
            Ok(req) => record_error(bytes@) is None && request_matches(req, record_fields(bytes@)->0),
            Err(e) => record_error(bytes@) == Some(e),
        },
{
    let d = match parse_json(bytes) {
        Some(d) => d,
        None => return Err(ResetError::Malformed),
    };
    let request = match &d {
        Doc::Str(s) => Request { redeem_request_id: s.clone(), credit_id: None },
        Doc::Table(_) => {
            let key = match d.at_key("redeem_request_id").as_str() {
                Some(k) => String::from_str(k),
                None => return Err(ResetError::Malformed),
            };
            let credit = match d.get("credit_id") {
                None => None,
                Some(v) => if v.is_null_node() {
                    None
                } else {
                    match v.as_str() {
                        Some(c) => Some(String::from_str(c)),
                        None => return Err(ResetError::Malformed),
                    }
                },
            };
            Request { redeem_request_id: key, credit_id: credit }
        },
        _ => return Err(ResetError::Malformed),
    };
    if !check_hex64(request.redeem_request_id.as_str()) {
        return Err(ResetError::InvalidRecord);
    }
    match &request.credit_id {
        Some(c) => if c.as_str().is_empty() {
            return Err(ResetError::InvalidRecord);
        },
        None => {},
    }
    Ok(request)
}

/// The record file of a reset for profile `id`.
pub open spec fn record_path(root: Seq<char>, id: Seq<char>) -> Seq<char> {
    path_join(root, "reset-"@ + id + ".json"@)
}

/// Accounts are isolated: distinct profiles keep their reset records in
/// distinct files, so one account's pending operation never answers for another.
pub proof fn law_accounts_have_separate_records(root: Seq<char>, a: Seq<char>, b: Seq<char>)
    requires
        is_hex64(a),
        is_hex64(b),
        a != b,
    ensures
        record_path(root, a) != record_path(root, b),
{
    let na = "reset-"@ + a + ".json"@;
    let nb = "reset-"@ + b + ".json"@;
    reveal_strlit("reset-");
    reveal_strlit(".json");
    assert(na.len() == nb.len());
    if record_path(root, a) == record_path(root, b) {
        let k = record_path(root, a).len() - na.len();
        assert(record_path(root, a).subrange(k, k + na.len() as int) =~= na);
        assert(record_path(root, b).subrange(k, k + nb.len() as int) =~= nb);
        assert(na.subrange(6, 70) =~= a);
        assert(nb.subrange(6, 70) =~= b);
    }
}

/// A retried reset is the same operation: requests read from one saved
/// record carry the same key and credit, whatever credit the retry named.
pub proof fn law_retry_is_the_same_operation(first: Request, retry: Request, saved: Seq<u8>)
    requires
        record_error(saved) is None,
        request_matches(first, record_fields(saved)->0),
        request_matches(retry, record_fields(saved)->0),
    ensures
        first.redeem_request_id@ == retry.redeem_request_id@,
        first.credit_id is Some <==> retry.credit_id is Some,
        first.credit_id is Some ==> first.credit_id->0@ == retry.credit_id->0@,
{
}

/// The active-account file, the one file a switch of accounts writes.
pub open spec fn active_path(root: Seq<char>) -> Seq<char> {
    path_join(root, "active"@)
}

/// A reset retried after a switch of the selected account is the same
/// operation on the same account: the switch writes only the active-account
/// file, which is none of the reset records; the record of `a` is not that
/// of another account `b`; and every retry that reads the record back,
/// whatever credit it names, carries the key and credit of the first attempt.
pub proof fn law_reset_retry_survives_switch(
    root: Seq<char>,
    a: Seq<char>,
    b: Seq<char>,
    first: Request,
    retry: Request,
    saved: Seq<u8>,
)
    requires
        is_hex64(a),
        is_hex64(b),
        a != b,
        record_error(saved) is None,
        request_matches(first, record_fields(saved)->0),
        request_matches(retry, record_fields(saved)->0),
    ensures
        record_path(root, a) != active_path(root),
        record_path(root, a) != record_path(root, b),
        first.redeem_request_id@ == retry.redeem_request_id@,
        first.credit_id is Some <==> retry.credit_id is Some,
        first.credit_id is Some ==> first.credit_id->0@ == retry.credit_id->0@,
{
    reveal_strlit("reset-");
    reveal_strlit(".json");
    reveal_strlit("active");
    assert(("reset-"@ + a + ".json"@).len() != "active"@.len());
    assert(record_path(root, a).len() != active_path(root).len());
    law_accounts_have_separate_records(root, a, b);
    law_retry_is_the_same_operation(first, retry, saved);
}

/// Where the reset record of profile `id` is kept.
pub fn request_path(store: &Store, id: &str) -> (r: Result<String, ResetError>)
    ensures
        match r {
            Ok(p) => is_hex64(id@) && p@ == record_path(store.root@, id@),
            Err(e) => !is_hex64(id@) && e == ResetError::InvalidProfile,
        },
{
    if !check_hex64(id) {
        return Err(ResetError::InvalidProfile);
    }
    let mut name = chars_of("reset-");
    crate::text::push_str(&mut name, id);
    crate::text::push_str(&mut name, ".json");
    let name = string_of(name.as_slice());
    Ok(join_path(store.root.as_str(), name.as_str()))
}

/// Whether profile `id` has an unconfirmed reset; `recorded` tells whether
/// its record file exists.
pub fn pending(store: &Store, id: &str, recorded: bool) -> (r: Result<bool, ResetError>)
    ensures
        match r {
            Ok(b) => is_hex64(id@) && b == recorded,
            Err(e) => !is_hex64(id@) && e == ResetError::InvalidProfile,
        },
{
    match request_path(store, id) {
        Ok(_) => Ok(recorded),
        Err(e) => Err(e),
    }
}

/// Calls `rand::rngs::OsRng.fill_bytes` on 32 bytes. Only the length is
/// promised; the bytes are random. It panics only when the operating
/// system's random source fails.
#[verifier::external_body]
fn random_bytes() -> (r: Vec<u8>)
    ensures
        r@.len() == 32,
{
    let mut bytes = [0u8; 32];
    rand::rngs::OsRng.fill_bytes(&mut bytes);
    bytes.to_vec()
}

/// The members of a saved reset record: `redeem_request_id`, and
/// `credit_id` when there is one.
pub open spec fn record_members(r: Request) -> Seq<(Seq<char>, Seq<char>)> {
    seq![("redeem_request_id"@, r.redeem_request_id@)] + match r.credit_id {
        Some(c) => seq![("credit_id"@, c@)],
        None => Seq::empty(),
    }
}

/// A record `read_request` accepts: a 64-digit hexadecimal key and, if a
/// credit is named, a non-empty credit id.
pub open spec fn record_valid(r: Request) -> bool {
    is_hex64(r.redeem_request_id@) && (r.credit_id is Some ==> r.credit_id->0@.len() > 0)
}

impl Request {
    /// The bytes of the record file to save before the request is sent. A
    /// valid record reads back as itself.
    pub fn to_json(&self) -> (r: Vec<u8>)
        ensures
            r@ == json_object_bytes(record_members(*self)),
            record_valid(*self) ==> record_error(r@) is None && request_matches(
                *self,
                record_fields(r@)->0,
            ),
    {
        let mut members: Vec<(String, String)> = Vec::new();
        members.push((String::from_str("redeem_request_id"), self.redeem_request_id.clone()));
        match &self.credit_id {
            Some(c) => members.push((String::from_str("credit_id"), c.clone())),
            None => {},
        }
        proof {
            reveal_strlit("redeem_request_id");
            reveal_strlit("credit_id");
            assert(member_views(members@) =~= record_members(*self));
            assert("redeem_request_id"@ != "credit_id"@) by {
                assert("redeem_request_id"@.len() != "credit_id"@.len());
            }
        }
        let bytes = json_object(&members);
        proof {
            let m = record_members(*self);
            let d = json_document(bytes@)->0;
            assert(d.index_key(m[0].0).text() == Some(m[0].1));
            if self.credit_id is Some {
                assert(d.index_key(m[1].0).text() == Some(m[1].1));
            } else {
                assert(forall|i: int| 0 <= i < m.len() ==> m[i].0 != "credit_id"@);
                assert(d.get_key("credit_id"@) is None);
            }
        }
        bytes
    }
}

/// A random 256-bit key as 64 lowercase hexadecimal digits.
pub fn random_key() -> (r: String)
    ensures
        exists|b: Seq<u8>| b.len() == 32 && r@ == hex_text(b),
        is_hex64(r@),
{
    let bytes = random_bytes();
    proof {
        lemma_hex_text_digits(bytes@);
    }
    hex_lower(bytes.as_slice())
}

/// The record to use for a reset of profile `id`: the saved record
/// (`saved`, the content of its file) when there is one, whatever
/// `credit_id` says; otherwise a new record with a fresh random key for
/// the explicitly chosen `credit_id`. The flag tells whether the record is
/// new and must be saved before the request is sent.
pub fn request(store: &Store, id: &str, credit_id: Option<&str>, saved: Option<Vec<u8>>) -> (r: Result<
    (Request, bool),
    ResetError,
>)
    ensures
        match r {
            Ok((req, fresh)) => is_hex64(id@) && fresh == saved is None && record_valid(req) && match saved {
                Some(b) => record_error(b@) is None && request_matches(req, record_fields(b@)->0),
                None => credit_id is Some && credit_id->0@.len() > 0 && req.credit_id is Some
                    && req.credit_id->0@ == credit_id->0@ && exists|k: Seq<u8>|
                    k.len() == 32 && req.redeem_request_id@ == hex_text(k),
            },
            Err(e) => if !is_hex64(id@) {
                e == ResetError::InvalidProfile
            } else {
                match saved {
                    Some(b) => record_error(b@) == Some(e),
                    None => e == ResetError::NeedsCredit && (credit_id is None
                        || credit_id->0@.len() == 0),
                }
            },
        },
{
    match request_path(store, id) {
        Ok(_) => {},
        Err(e) => return Err(e),
    }
    match saved {
        Some(b) => match read_request(b.as_slice()) {
            Ok(req) => Ok((req, false)),
            Err(e) => Err(e),
        },
        None => {
            let credit = match credit_id {
                Some(c) => if c.is_empty() {
                    return Err(ResetError::NeedsCredit);
                } else {
                    c
                },
                None => return Err(ResetError::NeedsCredit),
            };
            let key = random_key();
            Ok((Request { redeem_request_id: key, credit_id: Some(String::from_str(credit)) }, true))
        },
    }
}

/// Checks that the record of profile `id` (`saved`, the content of its
/// file) still holds `key` once the service confirmed the reset; the
/// returned path is the record file to delete.
pub fn finish(store: &Store, id: &str, key: &str, saved: &[u8]) -> (r: Result<String, ResetError>)
    ensures
        match r {
            Ok(p) => is_hex64(id@) && record_error(saved@) is None && (record_fields(saved@)->0).0
                == key@ && p@ == record_path(store.root@, id@),
            Err(e) => if !is_hex64(id@) {
                e == ResetError::InvalidProfile
            } else if record_error(saved@) is Some {
                record_error(saved@) == Some(e)
            } else {
                e == ResetError::RecordChanged && (record_fields(saved@)->0).0 != key@
            },
        },
{
    let path = match request_path(store, id) {
        Ok(p) => p,
        Err(e) => return Err(e),
    };
    let record = match read_request(saved) {
        Ok(r) => r,
        Err(e) => return Err(e),
    };
    if !same_text(record.redeem_request_id.as_str(), key) {
        return Err(ResetError::RecordChanged);
    }
    Ok(path)
}

} // verus!
