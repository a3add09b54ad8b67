//! Why an account action is unavailable, and how a removal is confirmed.
use vstd::prelude::*;
use crate::clock::Instant;
use crate::resets::{Credit, credit_eligible};
use crate::text::{chars_of, decimal, push_decimal, push_str, same_text, string_of};
use crate::tray::{UsageView, reset_count, reset_count_of};
use crate::usage::Usage;

verus! {

pub open spec fn reset_reason(
    busy: bool,
    usage_loading: bool,
    pending: bool,
    fresh: bool,
    has_credit: bool,
) -> Option<Seq<char>> {
    if busy {
        Some("Another account operation is in progress"@)
    } else if usage_loading {
        Some("Refreshing limits before a reset can be used"@)
    } else if pending {
        None
    } else if !fresh {
        Some("Refresh limits to use a reset"@)
    } else if !has_credit {
        Some("No eligible reset credits"@)
    } else {
        None
    }
}

/// Why the reset button is disabled, if it is. A pending reset may always be
/// retried once nothing else is running; a new one needs fresh limits and an
/// eligible credit.
pub fn reset_disabled_reason(
    busy: bool,
    usage_loading: bool,
    pending: bool,
    fresh: bool,
    has_credit: bool,
) -> (r: Option<&'static str>)
    ensures
        r matches Some(s) ==> reset_reason(busy, usage_loading, pending, fresh, has_credit)
            == Some(s@),
        r is None <==> reset_reason(busy, usage_loading, pending, fresh, has_credit) is None,
{
    if busy {
        Some("Another account operation is in progress")
    } else if usage_loading {
        Some("Refreshing limits before a reset can be used")
    } else if pending {
        None
    } else if !fresh {
        Some("Refresh limits to use a reset")
    } else if !has_credit {
        Some("No eligible reset credits")
    } else {
        None
    }
}

pub open spec fn remove_reason(busy: bool, selected: bool) -> Option<Seq<char>> {
    if busy {
        Some("Another account operation is in progress"@)
    } else if selected {
        Some("Activate another account before removing this one"@)
    } else {
        None
    }
}

/// Why the remove button is disabled: the active account cannot be removed.
pub fn remove_disabled_reason(busy: bool, selected: bool) -> (r: Option<&'static str>)
    ensures
        r matches Some(s) ==> remove_reason(busy, selected) == Some(s@),
        r is None <==> remove_reason(busy, selected) is None,
{
    if busy {
        Some("Another account operation is in progress")
    } else if selected {
        Some("Activate another account before removing this one")
    } else {
        None
    }
}

/// The confirmation title names the account that will be removed.
pub fn remove_dialog_title(account_label: &str) -> (r: String)
    ensures
        r@ == "Remove “"@ + account_label@ + "”?"@,
{
    let mut title: Vec<char> = Vec::new();
    push_str(&mut title, "Remove “");
    push_str(&mut title, account_label);
    push_str(&mut title, "”?");
    string_of(title.as_slice())
}

/// Whole seconds from `from` to `to`, truncated toward zero as
/// `chrono::Duration::num_seconds` does.
pub open spec fn whole_seconds_between(from: Instant, to: Instant) -> int {
    let total = (to.secs - from.secs) * 1_000_000_000 + to.nanos - from.nanos;
    if total >= 0 {
        total / 1_000_000_000
    } else {
        -((-total) / 1_000_000_000)
    }
}

/// A reading is fresh enough to act on when it did not fail and was taken
/// less than two minutes ago.
pub open spec fn reading_is_fresh(view: Option<UsageView>, now: Instant) -> bool {
    view is Some && view->0.error is None && view->0.checked is Some
        && whole_seconds_between(view->0.checked->0, now) < 120
}

pub fn reading_fresh(view: Option<&UsageView>, now: Instant) -> (r: bool)
    ensures
        r == reading_is_fresh(
            match view {
                Some(v) => Some(*v),
                None => None,
            },
            now,
        ),
{
    let v = match view {
        Some(v) => v,
        None => return false,
    };
    if v.error.is_some() {
        return false;
    }
    let at = match v.checked {
        Some(at) => at,
        None => return false,
    };
    let total: i128 = ((now.secs as i128) - (at.secs as i128)) * 1_000_000_000 + (now.nanos as i128)
        - (at.nanos as i128);
    let seconds: i128 = if total >= 0 {
        total / 1_000_000_000
    } else {
        -((-total) / 1_000_000_000)
    };
    seconds < 120
}

/// How a listed credit is marked.
#[derive(Debug, Clone, Copy, PartialEq, Eq, Structural)]
pub enum CreditBadge {
    Expired,
    NextToUse,
    Available,
}

/// The text shown for each `CreditBadge`.
pub open spec fn badge_text(e: CreditBadge) -> Seq<char> {
    match e {
        CreditBadge::Expired => "Expired"@,
        CreditBadge::NextToUse => "Next to use"@,
        CreditBadge::Available => "Available"@,
    }
}

impl CreditBadge {
    pub fn label(&self) -> (r: &'static str)
        ensures
            r@ == badge_text(*self),
    {
        match self {
            CreditBadge::Expired => "Expired",
            CreditBadge::NextToUse => "Next to use",
            CreditBadge::Available => "Available",
        }
    }
}

pub open spec fn badge_of(c: Credit, next_id: Option<Seq<char>>, now: Instant) -> CreditBadge {
    if !credit_eligible(c, now) {
        CreditBadge::Expired
    } else if next_id == Some(c.id@) {
        CreditBadge::NextToUse
    } else {
        CreditBadge::Available
    }
}

/// The mark of a credit in the account details; `next_id` is the credit a
/// new reset would use.
pub fn credit_badge(credit: &Credit, next_id: Option<&str>, now: Instant) -> (r: CreditBadge)
    ensures
        r == badge_of(
            *credit,
            match next_id {
                Some(n) => Some(n@),
                None => None,
            },
            now,
        ),
{
    if !credit.eligible(now) {
        CreditBadge::Expired
    } else {
        match next_id {
            Some(n) => if same_text(n, credit.id.as_str()) {
                CreditBadge::NextToUse
            } else {
                CreditBadge::Available
            },
            None => CreditBadge::Available,
        }
    }
}

/// Whether a confirmed reset may go ahead: a pending one is retried as it
/// is; a new one only for the credit that the list still offers first.
pub fn reset_confirmable(pending: bool, next_id: Option<&str>, requested: Option<&str>) -> (r: bool)
    ensures
        r == (pending || (next_id is Some && requested is Some && next_id->0@
            == requested->0@)),
{
    if pending {
        return true;
    }
    match (next_id, requested) {
        (Some(n), Some(c)) => same_text(n, c),
        _ => false,
    }
}

/// How consumption compares with an even weekly allowance.
#[derive(Debug, Clone, Copy, PartialEq, Eq, Structural)]
pub enum BudgetStatus {
    Below,
    On,
    Within,
}

/// The text shown for each `BudgetStatus`.
pub open spec fn budget_text(b: BudgetStatus) -> Seq<char> {
    match b {
        BudgetStatus::Below => "Faster than weekly budget"@,
        BudgetStatus::On => "On pace with weekly budget"@,
        BudgetStatus::Within => "Slower than weekly budget"@,
    }
}

impl BudgetStatus {
    pub fn label(self) -> (r: &'static str)
        ensures
            r@ == budget_text(self),
    {
        match self {
            BudgetStatus::Below => "Faster than weekly budget",
            BudgetStatus::On => "On pace with weekly budget",
            BudgetStatus::Within => "Slower than weekly budget",
        }
    }
}

/// The activate button of an account row.
pub struct ActivateButton {
    pub label: &'static str,
    pub tooltip: &'static str,
    pub disabled: bool,
}

pub open spec fn activate_tooltip(selected: bool, proxy_available: bool, busy: bool) -> Seq<char> {
    if selected {
        "This account is active"@
    } else if !proxy_available {
        "The proxy is unavailable; open connection info in Settings"@
    } else if busy {
        "Wait for the current account operation to finish"@
    } else {
        "Use this account for the next request"@
    }
}

/// The active account's button reads "Active" and cannot be pressed; the
/// others can be activated unless an operation runs or there is no proxy.
pub fn activate_button(selected: bool, proxy_available: bool, busy: bool) -> (r: ActivateButton)
    ensures
        r.label@ == (if selected {
            "Active"@
        } else {
            "Activate"@
        }),
        r.tooltip@ == activate_tooltip(selected, proxy_available, busy),
        r.disabled == (busy || selected || !proxy_available),
{
    let tooltip = if selected {
        "This account is active"
    } else if !proxy_available {
        "The proxy is unavailable; open connection info in Settings"
    } else if busy {
        "Wait for the current account operation to finish"
    } else {
        "Use this account for the next request"
    };
    ActivateButton {
        label: if selected {
            "Active"
        } else {
            "Activate"
        },
        tooltip,
        disabled: busy || selected || !proxy_available,
    }
}

/// The reset count shown in an account row: `· <n> reset(s)`, with `—`
/// when no count is known.
pub open spec fn resets_text(count: Option<u32>) -> Seq<char> {
    "· "@ + (match count {
        Some(n) => decimal(n as nat),
        None => "—"@,
    }) + (if count == Some(1u32) {
        " reset"@
    } else {
        " resets"@
    })
}

pub fn row_resets_text(data: Option<&Usage>) -> (r: String)
    ensures
        r@ == resets_text(
            match data {
                Some(d) => reset_count(*d),
                None => None,
            },
        ),
{
    let count = match data {
        Some(d) => reset_count_of(d),
        None => None,
    };
    let mut out = chars_of("· ");
    match count {
        Some(n) => push_decimal(&mut out, n as u64),
        None => push_str(&mut out, "—"),
    }
    if count == Some(1u32) {
        push_str(&mut out, " reset");
    } else {
        push_str(&mut out, " resets");
    }
    string_of(out.as_slice())
}

/// What an account row shows in place of limit meters: nothing when the
/// reading has windows, otherwise why there are none.
pub open spec fn limits_note(data: Option<Usage>, loading: bool) -> Option<Seq<char>> {
    match data {
        Some(d) => if d.reported().len() == 0 {
            Some("No limit windows reported"@)
        } else {
            None
        },
        None => Some(
            if loading {
                "Loading limits…"@
            } else {
                "Limits unavailable"@
            },
        ),
    }
}

pub fn row_limits_note(data: Option<&Usage>, loading: bool) -> (r: Option<&'static str>)
    ensures
        match r {
            Some(s) => limits_note(
                match data {
                    Some(d) => Some(*d),
                    None => None,
                },
                loading,
            ) == Some(s@),
            None => limits_note(
                match data {
                    Some(d) => Some(*d),
                    None => None,
                },
                loading,
            ) is None,
        },
{
    match data {
        Some(d) => if d.windows().len() == 0 {
            Some("No limit windows reported")
        } else {
            None
        },
        None => if loading {
            Some("Loading limits…")
        } else {
            Some("Limits unavailable")
        },
    }
}

/// The warnings of an account row: a reset awaiting confirmation, then
/// outdated reset data.
pub open spec fn row_warnings_of(data: Option<Usage>) -> Seq<Seq<char>> {
    match data {
        Some(d) => (if d.pending_reset {
            seq!["Reset needs confirmation"@]
        } else {
            Seq::empty()
        }) + (if d.reset_details_error is Some {
            seq!["Reset data is outdated"@]
        } else {
            Seq::empty()
        }),
        None => Seq::empty(),
    }
}

pub fn row_warnings(data: Option<&Usage>) -> (r: Vec<&'static str>)
    ensures
        r@.map_values(|s: &'static str| s@) == row_warnings_of(
            match data {
                Some(d) => Some(*d),
                None => None,
            },
        ),
{
    let mut out: Vec<&'static str> = Vec::new();
    if let Some(d) = data {
        if d.pending_reset {
            out.push("Reset needs confirmation");
        }
        if d.reset_details_error.is_some() {
            out.push("Reset data is outdated");
        }
    }
    assert(out@.map_values(|s: &'static str| s@) =~= row_warnings_of(
        match data {
            Some(d) => Some(*d),
            None => None,
        },
    ));
    out
}

} // verus!
