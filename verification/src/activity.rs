//! What the application is doing: at most one account operation, and at
//! most one usage refresh whose results are applied only if they are the
//! latest.
use vstd::prelude::*;

verus! {

/// The application's activity flags.
#[derive(Clone, Copy, Debug, PartialEq, Eq, Structural)]
pub struct Activity {
    /// An account operation (sign-in, import, switch, removal, reset) runs.
    pub busy: bool,
    /// A usage refresh runs.
    pub usage_loading: bool,
    /// The number of the latest usage refresh.
    pub usage_generation: u64,
}

/// A refresh may start when neither a refresh nor an operation runs, and
/// there is a proxy and at least one account to ask about.
pub open spec fn refresh_starts(a: Activity, has_proxy: bool, has_accounts: bool) -> bool {
    !a.usage_loading && !a.busy && has_proxy && has_accounts
}

/// The activity once a refresh started.
pub open spec fn refresh_started(a: Activity) -> Activity {
    Activity { usage_loading: true, usage_generation: (a.usage_generation + 1) as u64, ..a }
}

impl Activity {
    pub fn new() -> (r: Activity)
        ensures
            !r.busy && !r.usage_loading && r.usage_generation == 0,
    {
        Activity { busy: false, usage_loading: false, usage_generation: 0 }
    }

    /// Starts a usage refresh if it may start, returning its number.
    pub fn start_refresh(&mut self, has_proxy: bool, has_accounts: bool) -> (r: Option<u64>)
        requires
            old(self).usage_generation < u64::MAX,
        ensures
            refresh_starts(*old(self), has_proxy, has_accounts) ==> {
                &&& r == Some((old(self).usage_generation + 1) as u64)
                &&& *final(self) == refresh_started(*old(self))
            },
            !refresh_starts(*old(self), has_proxy, has_accounts) ==> r is None && *final(self)
                == *old(self),
    {
        if self.usage_loading || self.busy || !has_proxy || !has_accounts {
            return None;
        }
        self.usage_loading = true;
        self.usage_generation = self.usage_generation + 1;
        Some(self.usage_generation)
    }

    /// Takes the end of refresh `generation`: applied only when it is the
    /// latest refresh, which then no longer runs.
    pub fn finish_refresh(&mut self, generation: u64) -> (applied: bool)
        ensures
            applied == (generation == old(self).usage_generation),
            applied ==> *final(self) == (Activity { usage_loading: false, ..*old(self) }),
            !applied ==> *final(self) == *old(self),
    {
        if generation != self.usage_generation {
            return false;
        }
        self.usage_loading = false;
        true
    }

    /// Starts an account operation unless one runs.
    pub fn start_work(&mut self) -> (started: bool)
        ensures
            started == !old(self).busy,
            *final(self) == (Activity { busy: true, ..*old(self) }),
    {
        if self.busy {
            return false;
        }
        self.busy = true;
        true
    }

    /// Starts a reset: nothing else may run, not even a refresh, since the
    /// choice of credit rests on the latest reading.
    pub fn start_reset(&mut self) -> (started: bool)
        ensures
            started == (!old(self).busy && !old(self).usage_loading),
            started ==> *final(self) == (Activity { busy: true, ..*old(self) }),
            !started ==> *final(self) == *old(self),
    {
        if self.busy || self.usage_loading {
            return false;
        }
        self.busy = true;
        true
    }

    /// An account operation ended, whatever its result.
    pub fn finish_work(&mut self)
        ensures
            *final(self) == (Activity { busy: false, ..*old(self) }),
    {
        self.busy = false;
    }
}

/// Only the latest refresh counts: once a refresh started, the results of
/// every earlier one are never applied; and no refresh starts while one runs
/// or while an account operation runs.
pub proof fn law_only_the_latest_refresh_counts(
    a: Activity,
    earlier: u64,
    has_proxy: bool,
    has_accounts: bool,
)
    requires
        a.usage_generation < u64::MAX,
        earlier <= a.usage_generation,
    ensures
        refresh_started(a).usage_loading,
        earlier != refresh_started(a).usage_generation,
        refresh_started(a).usage_loading ==> !refresh_starts(refresh_started(a), has_proxy, has_accounts),
        a.busy ==> !refresh_starts(a, has_proxy, has_accounts),
{
}

/// The minute shown changed between two clock readings (whole seconds
/// since the epoch, divided as Rust divides integers).
pub open spec fn minute_of(secs: i64) -> int {
    if secs >= 0 {
        secs / 60
    } else {
        -((-secs) / 60)
    }
}

pub fn minute_changed(previous: i64, now: i64) -> (r: bool)
    ensures
        r == (minute_of(previous) != minute_of(now)),
{
    previous / 60 != now / 60
}

} // verus!
