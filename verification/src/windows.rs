//! Menu-bar panel decisions: when a focus change dismisses the panel and what
//! a click on the status item does.
use vstd::prelude::*;

verus! {

/// Tracks whether the panel window is active, so that only a real loss of
/// focus dismisses it: initial and repeated "inactive" notices do not.
pub struct PanelActivation {
    pub active: bool,
}

impl Default for PanelActivation {
    fn default() -> (r: PanelActivation)
        ensures
            !r.active,
    {
        PanelActivation { active: false }
    }
}

/// The panel lost focus: it was active and no longer is.
pub open spec fn focus_lost(was_active: bool, active: bool) -> bool {
    was_active && !active
}

impl PanelActivation {
    /// Records the window's activation; true exactly when it went from
    /// active to inactive.
    pub fn changed(&mut self, active: bool) -> (lost_focus: bool)
        ensures
            lost_focus == focus_lost(old(self).active, active),
            final(self).active == active,
    {
        let lost_focus = self.active && !active;
        self.active = active;
        lost_focus
    }
}

/// A status-item click that arrives this soon after the panel was dismissed
/// is the same click that dismissed it.
pub const DISMISS_DEBOUNCE_MS: u64 = 250;

/// What a click on the status item does.
#[derive(Clone, Copy, PartialEq, Eq, Debug, Structural)]
pub enum PanelToggle {
    Ignore,
    Close,
    Show,
}

/// The panel toggle: ignored right after a dismissal, otherwise it closes a
/// present panel and shows an absent one.
pub fn toggle_action(dismissed_ms_ago: Option<u64>, present: bool) -> (r: PanelToggle)
    ensures
        r == (if dismissed_ms_ago matches Some(ms) && ms < DISMISS_DEBOUNCE_MS {
            PanelToggle::Ignore
        } else if present {
            PanelToggle::Close
        } else {
            PanelToggle::Show
        }),
{
    if let Some(ms) = dismissed_ms_ago {
        if ms < DISMISS_DEBOUNCE_MS {
            return PanelToggle::Ignore;
        }
    }
    if present {
        PanelToggle::Close
    } else {
        PanelToggle::Show
    }
}

/// A panel is dismissed at most once per activation: right after a loss of
/// focus, the next notice reports none, whatever it says; and a panel that
/// starts inactive is not dismissed by its first notice.
pub proof fn law_focus_loss_reported_once(was_active: bool, active: bool, next: bool)
    ensures
        focus_lost(was_active, active) ==> !focus_lost(active, next),
        !focus_lost(false, active),
{
}

} // verus!
