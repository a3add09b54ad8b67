//! Subscription limit windows as the usage service reports them, never
//! inferred from plan names, and the detection of observed full resets.
use vstd::prelude::*;
use crate::clock::{Instant, timestamp_in_range, timestamp_representable};
use crate::resets::Credits;
use crate::text::{chars_of, decimal, push_decimal, push_str, string_of};

verus! {

/// A reported usage percentage, held as the IEEE-754 single-precision
/// encoding (`f32::to_bits`) of the value the service sent.
#[derive(Clone, Copy, Debug, PartialEq, Eq, Structural)]
pub struct Percent {
    pub bits: u32,
}

/// `+0.0` or `-0.0`.
pub open spec fn percent_zero(p: Percent) -> bool {
    p.bits == 0 || p.bits == 0x8000_0000
}

/// Greater than `0.0` (positive, not NaN).
pub open spec fn percent_positive(p: Percent) -> bool {
    0 < p.bits <= 0x7f80_0000
}

/// Finite and within `0.0..=100.0` (`0x42c8_0000` encodes `100.0`).
pub open spec fn percent_valid(p: Percent) -> bool {
    p.bits <= 0x42c8_0000 || p.bits == 0x8000_0000
}

impl Percent {
    pub fn is_zero(&self) -> (r: bool)
        ensures
            r == percent_zero(*self),
    {
        self.bits == 0 || self.bits == 0x8000_0000
    }

    pub fn is_positive(&self) -> (r: bool)
        ensures
            r == percent_positive(*self),
    {
        0 < self.bits && self.bits <= 0x7f80_0000
    }

    pub fn is_valid(&self) -> (r: bool)
        ensures
            r == percent_valid(*self),
    {
        self.bits <= 0x42c8_0000 || self.bits == 0x8000_0000
    }
}

/// One limit window.
#[derive(Clone, Copy, Debug, PartialEq, Eq, Structural)]
pub struct Window {
    pub used_percent: Percent,
    pub limit_window_seconds: i64,
    pub reset_at: Option<i64>,
}

#[derive(Clone, Copy, Debug, PartialEq, Eq, Structural)]
pub struct Limits {
    pub primary_window: Option<Window>,
    pub secondary_window: Option<Window>,
}

#[derive(Clone, Copy, Debug, PartialEq, Eq, Structural)]
pub struct ResetCredits {
    pub available_count: u32,
}

/// The limits of one account, with what the application learned beside them.
#[derive(Clone, Debug)]
pub struct Usage {
    pub rate_limit: Option<Limits>,
    pub rate_limit_reset_credits: Option<ResetCredits>,
    pub pending_reset: bool,
    pub reset_details: Option<Credits>,
    pub reset_details_error: Option<String>,
}

/// Why a usage report was refused.
#[derive(Debug, Clone, Copy, PartialEq, Eq, Structural)]
pub enum UsageError {
    MissingLimits,
    InvalidLimits,
    InvalidResetDate,
}

/// The text shown for each `UsageError`.
pub open spec fn usage_error_text(e: UsageError) -> Seq<char> {
    match e {
        UsageError::MissingLimits => "Missing limit data."@,
        UsageError::InvalidLimits => "Invalid limit data."@,
        UsageError::InvalidResetDate => "Invalid reset date."@,
    }
}

impl UsageError {
    pub fn message(&self) -> (r: &'static str)
        ensures
            r@ == usage_error_text(*self),
    {
        match self {
            UsageError::MissingLimits => "Missing limit data.",
            UsageError::InvalidLimits => "Invalid limit data.",
            UsageError::InvalidResetDate => "Invalid reset date.",
        }
    }
}

/// The reported windows: primary, then secondary, each when present.
pub open spec fn limit_windows(limits: Option<Limits>) -> Seq<Window> {
    match limits {
        None => Seq::empty(),
        Some(l) => (match l.primary_window {
            Some(w) => seq![w],
            None => Seq::empty(),
        }) + (match l.secondary_window {
            Some(w) => seq![w],
            None => Seq::empty(),
        }),
    }
}

/// Why one window is refused, if it is.
pub open spec fn window_error(w: Window) -> Option<UsageError> {
    if !percent_valid(w.used_percent) || w.limit_window_seconds <= 0 {
        Some(UsageError::InvalidLimits)
    } else if w.reset_at is Some && !timestamp_representable(w.reset_at->0) {
        Some(UsageError::InvalidResetDate)
    } else {
        None
    }
}

/// The first refused window, in window order.
pub open spec fn windows_error(ws: Seq<Window>) -> Option<UsageError>
    decreases ws.len(),
{
    if ws.len() == 0 {
        None
    } else if window_error(ws[0]) is Some {
        window_error(ws[0])
    } else {
        windows_error(ws.drop_first())
    }
}

fn check_window(w: &Window) -> (r: Option<UsageError>)
    ensures
        r == window_error(*w),
{
    if !w.used_percent.is_valid() || w.limit_window_seconds <= 0 {
        return Some(UsageError::InvalidLimits);
    }
    match w.reset_at {
        Some(t) => if !timestamp_in_range(t) {
            Some(UsageError::InvalidResetDate)
        } else {
            None
        },
        None => None,
    }
}

/// Whether a current window reads as an observed full reset against the
/// previous reading: exactly zero usage now, and a window of the same
/// duration with positive usage before.
pub open spec fn reset_observed(w: Window, previous: Seq<Window>) -> bool {
    percent_zero(w.used_percent) && exists|j: int|
        0 <= j < previous.len() && (#[trigger] previous[j]).limit_window_seconds
            == w.limit_window_seconds && percent_positive(previous[j].used_percent)
}

/// Labels of the current windows that read as observed full resets, in order.
pub open spec fn reset_labels(current: Seq<Window>, previous: Seq<Window>) -> Seq<Seq<char>>
    decreases current.len(),
{
    if current.len() == 0 {
        Seq::empty()
    } else {
        reset_labels(current.drop_last(), previous) + if reset_observed(current.last(), previous) {
            seq![window_label(current.last().limit_window_seconds as int)]
        } else {
            Seq::empty()
        }
    }
}

/// No full reset is reported without usage before it: repeated readings of
/// full capacity, and windows the previous reading did not report, never
/// read as a reset.
pub proof fn law_no_reset_without_prior_usage(current: Seq<Window>, previous: Seq<Window>)
    requires
        forall|j: int| 0 <= j < previous.len() ==> !percent_positive(#[trigger] previous[j].used_percent),
    ensures
        reset_labels(current, previous) == Seq::<Seq<char>>::empty(),
    decreases current.len(),
{
    if current.len() > 0 {
        law_no_reset_without_prior_usage(current.drop_last(), previous);
        assert(!reset_observed(current.last(), previous));
        assert(reset_labels(current, previous) =~= Seq::<Seq<char>>::empty());
    }
}

/// Exact zero now is required: a window still showing any usage is never
/// reported, whatever the previous reading.
pub proof fn law_reset_needs_exact_zero(current: Seq<Window>, previous: Seq<Window>)
    requires
        forall|i: int| 0 <= i < current.len() ==> !percent_zero(#[trigger] current[i].used_percent),
    ensures
        reset_labels(current, previous) == Seq::<Seq<char>>::empty(),
    decreases current.len(),
{
    if current.len() > 0 {
        assert(!percent_zero(current[current.len() - 1].used_percent));
        law_reset_needs_exact_zero(current.drop_last(), previous);
        assert(reset_labels(current, previous) =~= Seq::<Seq<char>>::empty());
    }
}

/// Usage above zero counts as prior usage: every positive finite percentage
/// (IEEE-754 bits `0x0000_0001..0x7f80_0000`, so every valid one up to and
/// including `100.0`, `0x42c8_0000`) and `+inf`; zero, negative values and
/// NaN do not.
pub proof fn law_positive_usage(p: Percent)
    ensures
        0 < p.bits <= 0x42c8_0000 ==> percent_positive(p),
        0 < p.bits <= 0x7f80_0000 ==> percent_positive(p),
        (p.bits == 0 || p.bits >= 0x8000_0000 || p.bits > 0x7f80_0000) ==> !percent_positive(p),
{
}

/// A window back at exactly zero usage is reported under its label when the
/// previous reading had a window of the same duration with any positive
/// valid usage, a fully used `100.0` included.
pub proof fn law_reset_after_usage_is_reported(
    current: Seq<Window>,
    previous: Seq<Window>,
    i: int,
    j: int,
)
    requires
        0 <= i < current.len(),
        0 <= j < previous.len(),
        current[i].used_percent.bits == 0 || current[i].used_percent.bits == 0x8000_0000,
        previous[j].limit_window_seconds == current[i].limit_window_seconds,
        0 < previous[j].used_percent.bits <= 0x42c8_0000,
    ensures
        reset_labels(current, previous).contains(window_label(current[i].limit_window_seconds as int)),
    decreases current.len(),
{
    let label = window_label(current[i].limit_window_seconds as int);
    let rest = reset_labels(current.drop_last(), previous);
    if i == current.len() - 1 {
        assert(reset_observed(current.last(), previous));
        assert(reset_labels(current, previous) == rest + seq![label]);
        assert(reset_labels(current, previous)[rest.len() as int] == label);
    } else {
        assert(current.drop_last()[i] == current[i]);
        law_reset_after_usage_is_reported(current.drop_last(), previous, i, j);
        let k = choose|k: int| 0 <= k < rest.len() && rest[k] == label;
        assert(reset_labels(current, previous)[k] == label);
    }
}

/// `q` as Rust prints a quotient of `s` by `k` truncated toward zero.
pub open spec fn quotient_text(s: int, k: int) -> Seq<char> {
    let q = if s < 0 {
        (-s) / k
    } else {
        s / k
    };
    if s < 0 && q != 0 {
        seq!['-'] + decimal(q as nat)
    } else {
        decimal(q as nat)
    }
}

/// The name of a window, from its duration.
pub open spec fn window_label(s: int) -> Seq<char> {
    if s == 18000 {
        "5h"@
    } else if s == 604800 {
        "Weekly"@
    } else if s == 86400 {
        "1 day"@
    } else if s % 86400 == 0 {
        quotient_text(s, 86400) + " days"@
    } else if s % 3600 == 0 {
        quotient_text(s, 3600) + "h"@
    } else {
        quotient_text(s, 60) + " min"@
    }
}

fn push_quotient(out: &mut Vec<char>, s: i64, k: u64)
    requires
        k == 86400 || k == 3600 || k == 60,
    ensures
        final(out)@ == old(out)@ + quotient_text(s as int, k as int),
{
    let magnitude: u64 = if s < 0 {
        ((-(s as i128)) as u64)
    } else {
        s as u64
    };
    let q = magnitude / k;
    if s < 0 && q != 0 {
        out.push('-');
    }
    let ghost mid = out@;
    push_decimal(out, q);
    assert(out@ =~= old(out)@ + quotient_text(s as int, k as int));
}

/// Tells whether the current time is past a reset deadline and, if not, how long remains.
#[derive(Clone, Copy, Debug, PartialEq, Eq, Structural)]
pub enum ResetTiming {
    /// No reset time, or one outside the representable dates.
    Unavailable,
    /// The deadline passed; new data is awaited, capacity is not assumed restored.
    Waiting,
    /// Whole minutes left, rounded up.
    Remaining(i64),
}

/// Whole seconds from `now` to `at`, truncated toward zero as
/// `chrono::Duration::num_seconds` does.
pub open spec fn seconds_until(at: i64, now: Instant) -> int {
    let d = at - now.secs;
    if now.nanos > 0 && d >= 1 {
        d - 1
    } else {
        d
    }
}

pub open spec fn reset_timing_of(reset_at: Option<i64>, now: Instant) -> ResetTiming {
    match reset_at {
        None => ResetTiming::Unavailable,
        Some(at) => if !timestamp_representable(at) {
            ResetTiming::Unavailable
        } else if seconds_until(at, now) <= 0 {
            ResetTiming::Waiting
        } else {
            ResetTiming::Remaining(((seconds_until(at, now) + 59) / 60) as i64)
        },
    }
}

/// The relative part of a reset label: days and hours from a day on,
/// hours and minutes below.
pub open spec fn relative_text(minutes: int) -> Seq<char> {
    if minutes >= 1440 {
        decimal((minutes / 1440) as nat) + "d "@ + decimal((minutes % 1440 / 60) as nat) + "h"@
    } else {
        decimal((minutes / 60) as nat) + "h "@ + decimal((minutes % 60) as nat) + "min"@
    }
}

/// The reset label of a window, `date` being its local date text.
pub open spec fn reset_label_text(reset_at: Option<i64>, now: Instant, date: Seq<char>) -> Seq<char> {
    match reset_timing_of(reset_at, now) {
        ResetTiming::Unavailable => "Reset time unavailable"@,
        ResetTiming::Waiting => "Reset "@ + date + " · waiting for updated data"@,
        ResetTiming::Remaining(m) => "Resets in "@ + relative_text(m as int) + " · "@ + date,
    }
}

/// Calls `chrono` to format the UTC timestamp `secs` in the machine's local
/// time zone as `%b %-d %H:%M %Z`. The text depends on the time zone; nothing
/// is promised of it. It panics only when the time-zone database cannot be
/// read.
#[verifier::external_body]
fn local_date_text(secs: i64) -> String {
    match chrono::DateTime::from_timestamp(secs, 0) {
        Some(at) => at.with_timezone(&chrono::Local).format("%b %-d %H:%M %Z").to_string(),
        None => String::new(),
    }
}

impl Window {
    /// The window's name, from its duration in seconds.
    #[verifier::rlimit(40)]
    pub fn label(&self) -> (r: String)
        ensures
            r@ == window_label(self.limit_window_seconds as int),
    {
        let s = self.limit_window_seconds;
        if s == 18000 {
            return String::from_str("5h");
        } else if s == 604800 {
            return String::from_str("Weekly");
        } else if s == 86400 {
            return String::from_str("1 day");
        }
        let mut out: Vec<char> = Vec::new();
        if s % 86400 == 0 {
            push_quotient(&mut out, s, 86400);
            push_str(&mut out, " days");
        } else if s % 3600 == 0 {
            push_quotient(&mut out, s, 3600);
            push_str(&mut out, "h");
        } else {
            push_quotient(&mut out, s, 60);
            push_str(&mut out, " min");
        }
        string_of(out.as_slice())
    }

    /// How the reset deadline stands at `now`.
    pub fn reset_timing(&self, now: Instant) -> (r: ResetTiming)
        ensures
            r == reset_timing_of(self.reset_at, now),
    {
        let at = match self.reset_at {
            None => return ResetTiming::Unavailable,
            Some(at) => at,
        };
        if !timestamp_in_range(at) {
            return ResetTiming::Unavailable;
        }
        let d: i128 = (at as i128) - (now.secs as i128);
        let remaining: i128 = if now.nanos > 0 && d >= 1 {
            d - 1
        } else {
            d
        };
        if remaining <= 0 {
            return ResetTiming::Waiting;
        }
        ResetTiming::Remaining(((remaining + 59) / 60) as i64)
    }

    /// The reset label, given the local date text of the deadline.
    pub fn reset_label_at(&self, now: Instant, date: &str) -> (r: String)
        ensures
            r@ == reset_label_text(self.reset_at, now, date@),
    {
        match self.reset_timing(now) {
            ResetTiming::Unavailable => String::from_str("Reset time unavailable"),
            ResetTiming::Waiting => {
                let mut out = chars_of("Reset ");
                push_str(&mut out, date);
                push_str(&mut out, " · waiting for updated data");
                string_of(out.as_slice())
            },
            ResetTiming::Remaining(m) => {
                let mut out = chars_of("Resets in ");
                let minutes = m as u64;
                if minutes >= 1440 {
                    push_decimal(&mut out, minutes / 1440);
                    push_str(&mut out, "d ");
                    push_decimal(&mut out, minutes % 1440 / 60);
                    push_str(&mut out, "h");
                } else {
                    push_decimal(&mut out, minutes / 60);
                    push_str(&mut out, "h ");
                    push_decimal(&mut out, minutes % 60);
                    push_str(&mut out, "min");
                }
                push_str(&mut out, " · ");
                push_str(&mut out, date);
                string_of(out.as_slice())
            },
        }
    }

    /// The reset label in the machine's local time: how long until the
    /// reset, or that new data is awaited once it passed.
    pub fn reset_label(&self, now: Instant) -> (r: String)
        ensures
            exists|date: Seq<char>| r@ == reset_label_text(self.reset_at, now, date),
    {
        let date = match self.reset_at {
            Some(at) => local_date_text(at),
            None => String::new(),
        };
        self.reset_label_at(now, date.as_str())
    }
}

impl Usage {
    /// The windows this reading reports.
    pub open spec fn reported(self) -> Seq<Window> {
        limit_windows(self.rate_limit)
    }

    /// Validates a decoded usage report. `rate_limit_reported` tells whether
    /// the response held a `rate_limit` member at all (`null` counts as
    /// reported: it means no windows).
    pub fn parse(rate_limit_reported: bool, usage: Usage) -> (r: Result<Usage, UsageError>)
        ensures
            match r {
                Ok(u) => rate_limit_reported && windows_error(usage.reported()) is None && u == usage,
                Err(e) => if !rate_limit_reported {
                    e == UsageError::MissingLimits
                } else {
                    windows_error(usage.reported()) == Some(e)
                },
            },
    {
        if !rate_limit_reported {
            return Err(UsageError::MissingLimits);
        }
        let ws = usage.windows();
        let mut i: usize = 0;
        assert(ws@.skip(0) =~= ws@);
        while i < ws.len()
            invariant
                i <= ws@.len(),
                ws@ == usage.reported(),
                rate_limit_reported,
                windows_error(ws@) == windows_error(ws@.skip(i as int)),
            decreases ws.len() - i,
        {
            assert(ws@.skip(i as int)[0] == ws@[i as int]);
            if let Some(e) = check_window(&ws[i]) {
                assert(windows_error(ws@.skip(i as int)) == Some(e));
                return Err(e);
            }
            assert(ws@.skip(i as int).drop_first() =~= ws@.skip(i + 1));
            i = i + 1;
        }
        Ok(usage)
    }

    /// The reported windows: primary, then secondary, each when present.
    pub fn windows(&self) -> (r: Vec<Window>)
        ensures
            r@ == self.reported(),
    {
        let mut out: Vec<Window> = Vec::new();
        if let Some(l) = &self.rate_limit {
            if let Some(w) = &l.primary_window {
                out.push(*w);
            }
            if let Some(w) = &l.secondary_window {
                out.push(*w);
            }
        }
        assert(out@ =~= self.reported());
        out
    }

    /// Labels of the windows whose remaining capacity returned to exactly
    /// 100% since `previous`: reported usage exactly zero now, positive before
    /// in a window of the same duration. Positions and deadlines are no
    /// evidence, and nothing is reported while a manual reset is pending.
    pub fn silent_resets_since(&self, previous: &Usage) -> (r: Vec<String>)
        ensures
            self.pending_reset || previous.pending_reset ==> r@.len() == 0,
            !(self.pending_reset || previous.pending_reset) ==> r@.map_values(|s: String| s@)
                == reset_labels(self.reported(), previous.reported()),
    {
        let mut out: Vec<String> = Vec::new();
        if self.pending_reset || previous.pending_reset {
            return out;
        }
        let cur = self.windows();
        let old = previous.windows();
        let mut i: usize = 0;
        while i < cur.len()
            invariant
                i <= cur@.len(),
                cur@ == self.reported(),
                old@ == previous.reported(),
                out@.map_values(|s: String| s@) == reset_labels(cur@.take(i as int), old@),
            decreases cur.len() - i,
        {
            let w = cur[i];
            let mut seen = false;
            if w.used_percent.is_zero() {
                let mut j: usize = 0;
                while j < old.len()
                    invariant
                        j <= old@.len(),
                        seen == exists|k: int|
                            0 <= k < j && (#[trigger] old@[k]).limit_window_seconds
                                == w.limit_window_seconds && percent_positive(old@[k].used_percent),
                    decreases old.len() - j,
                {
                    if old[j].limit_window_seconds == w.limit_window_seconds
                        && old[j].used_percent.is_positive() {
                        seen = true;
                    }
                    j = j + 1;
                }
            }
            let ghost before = out@;
            assert(cur@.take(i + 1).drop_last() =~= cur@.take(i as int));
            assert(cur@.take(i + 1).last() == w);
            if seen {
                out.push(w.label());
                assert(out@.map_values(|s: String| s@) =~= before.map_values(|s: String| s@).push(
                    window_label(w.limit_window_seconds as int),
                ));
            } else {
                assert(out@.map_values(|s: String| s@) =~= before.map_values(|s: String| s@)
                    + Seq::<Seq<char>>::empty());
            }
            i = i + 1;
        }
        assert(cur@.take(cur@.len() as int) =~= cur@);
        out
    }
}

} // verus!
