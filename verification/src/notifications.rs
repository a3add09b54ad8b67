//! Limit-reset notifications wait for the system's permission answer: they
//! are delivered once after it is granted and discarded on any other answer.
use vstd::prelude::*;
use crate::text::same_text;

verus! {

/// Where the notification permission stands.
#[derive(Clone, Copy, PartialEq, Eq, Debug, Structural)]
pub enum Authorization {
    Checking,
    Granted,
    Denied,
    Unavailable,
    Failed,
    Demo,
}

/// A system notification; a newer one with the same tag replaces an older one.
#[derive(Clone, Debug, PartialEq)]
pub struct Notification {
    pub tag: String,
    pub title: String,
    pub body: String,
}

pub type NoteView = (Seq<char>, Seq<char>, Seq<char>);

pub open spec fn note_view(n: Notification) -> NoteView {
    (n.tag@, n.title@, n.body@)
}

pub open spec fn note_views(s: Seq<Notification>) -> Seq<NoteView> {
    s.map_values(|n: Notification| note_view(n))
}

/// `n` queued: it replaces the queued notification with its tag, or joins the queue.
pub open spec fn queued(pending: Seq<NoteView>, n: NoteView) -> Seq<NoteView> {
    if exists|i: int| 0 <= i < pending.len() && (#[trigger] pending[i]).0 == n.0 {
        pending.update(
            choose|i: int| 0 <= i < pending.len() && (#[trigger] pending[i]).0 == n.0,
            n,
        )
    } else {
        pending.push(n)
    }
}

/// Tags are unique in the queue.
pub open spec fn tags_unique(pending: Seq<NoteView>) -> bool {
    forall|i: int, j: int|
        0 <= i < pending.len() && 0 <= j < pending.len() && i != j ==> (#[trigger] pending[i]).0
            != (#[trigger] pending[j]).0
}

/// What an answer releases from the queue: everything when granted, nothing otherwise.
pub open spec fn released(pending: Seq<NoteView>, answer: Authorization) -> Seq<NoteView> {
    if answer == Authorization::Granted {
        pending
    } else {
        Seq::empty()
    }
}

/// Permission state and the notifications waiting for it.
pub struct Notifications {
    authorization: Authorization,
    pending: Vec<Notification>,
}

impl Notifications {
    pub closed spec fn state(self) -> Authorization {
        self.authorization
    }

    pub closed spec fn queue(self) -> Seq<NoteView> {
        note_views(self.pending@)
    }

    /// The well-formedness every state keeps: unique tags.
    pub open spec fn wf(self) -> bool {
        tags_unique(self.queue())
    }

    #[verifier::type_invariant]
    spec fn queue_tags_unique(self) -> bool {
        tags_unique(note_views(self.pending@))
    }

    /// Nothing queued; the permission is being checked.
    pub fn new() -> (r: Notifications)
        ensures
            r.state() == Authorization::Checking,
            r.queue().len() == 0,
            r.wf(),
    {
        Notifications { authorization: Authorization::Checking, pending: Vec::new() }
    }

    /// Records the system's answer and hands back what may now be shown:
    /// all queued notifications when granted, none otherwise. The queue is
    /// emptied either way, so nothing is replayed by a later answer.
    pub fn resolve(&mut self, answer: Authorization) -> (r: Vec<Notification>)
        ensures
            old(self).wf(),
            final(self).state() == answer,
            final(self).queue().len() == 0,
            final(self).wf(),
            note_views(r@) == released(old(self).queue(), answer),
    {
        proof {
            use_type_invariant(&*self);
        }
        self.authorization = answer;
        let mut pending: Vec<Notification> = Vec::new();
        std::mem::swap(&mut pending, &mut self.pending);
        assert(note_views(self.pending@) =~= Seq::<NoteView>::empty());
        if answer == Authorization::Granted {
            pending
        } else {
            let none: Vec<Notification> = Vec::new();
            assert(note_views(none@) =~= Seq::<NoteView>::empty());
            none
        }
    }

    /// Queues `n` (in demo mode nothing is queued). Returns whether a
    /// permission request must start: permission is re-checked for every
    /// delivery unless a check is already under way, which the state then shows.
    pub fn show(&mut self, n: Notification) -> (request: bool)
        ensures
            old(self).wf(),
            final(self).wf(),
            old(self).state() == Authorization::Demo ==> !request && final(self).queue()
                == old(self).queue() && final(self).state() == Authorization::Demo,
            old(self).state() != Authorization::Demo ==> {
                &&& final(self).queue() == queued(old(self).queue(), note_view(n))
                &&& request == (old(self).state() != Authorization::Checking)
                &&& final(self).state() == Authorization::Checking
            },
    {
        proof {
            use_type_invariant(&*self);
        }
        if self.authorization == Authorization::Demo {
            return false;
        }
        let ghost before = self.queue();
        let mut pending: Vec<Notification> = Vec::new();
        std::mem::swap(&mut pending, &mut self.pending);
        let mut i: usize = 0;
        let mut found = false;
        while i < pending.len() && !found
            invariant
                i <= pending@.len(),
                note_views(pending@) == before,
                found ==> i < before.len() && before[i as int].0 == n.tag@,
                forall|k: int| 0 <= k < i && !(found && k == i) ==> (#[trigger] before[k]).0 != n.tag@,
            decreases pending.len() - i + (if found { 0int } else { 1int }),
        {
            if same_text(pending[i].tag.as_str(), n.tag.as_str()) {
                found = true;
            } else {
                i = i + 1;
            }
        }
        proof {
            law_queue_keeps_tags_unique(before, note_view(n));
        }
        if found {
            assert(before[i as int].0 == n.tag@);
            proof {
                let c = choose|j: int| 0 <= j < before.len() && (#[trigger] before[j]).0 == n.tag@;
                if c != i {
                    assert(before[c].0 == before[i as int].0);
                }
            }
            pending.set(i, n);
            assert(note_views(pending@) =~= before.update(i as int, note_view(n)));
        } else {
            pending.push(n);
            assert(note_views(pending@) =~= before.push(note_view(n)));
        }
        self.pending = pending;
        let request = self.authorization != Authorization::Checking;
        self.authorization = Authorization::Checking;
        request
    }

    /// Demo mode: permission is never asked and nothing is delivered.
    pub fn set_demo(&mut self)
        ensures
            final(self).state() == Authorization::Demo,
            final(self).queue() == old(self).queue(),
    {
        proof {
            use_type_invariant(&*self);
        }
        self.authorization = Authorization::Demo;
    }

    /// The permission line shown in Settings.
    pub fn status(&self) -> (r: &'static str)
        ensures
            r@ == status_text(self.state()),
    {
        match self.authorization {
            Authorization::Checking => "Notifications: waiting for macOS permission…",
            Authorization::Granted => "Notifications: permission granted",
            Authorization::Denied => "Notifications are disabled. Enable them in System Settings → Notifications → Codex Sub Switcher.",
            Authorization::Unavailable => "Notifications require running Codex Sub Switcher.app.",
            Authorization::Failed => "Could not check notification permission. Try again.",
            Authorization::Demo => "Demo mode · system notifications disabled",
        }
    }

    /// Where the permission stands.
    pub fn authorization(&self) -> (r: Authorization)
        ensures
            r == self.state(),
    {
        self.authorization
    }

    /// A test notification may be sent once a check finished, never in demo mode.
    pub fn can_test(&self) -> (r: bool)
        ensures
            r == (self.state() != Authorization::Checking && self.state()
                != Authorization::Demo),
    {
        self.authorization != Authorization::Checking && self.authorization != Authorization::Demo
    }
}

pub open spec fn status_text(a: Authorization) -> Seq<char> {
    match a {
        Authorization::Checking => "Notifications: waiting for macOS permission…"@,
        Authorization::Granted => "Notifications: permission granted"@,
        Authorization::Denied => "Notifications are disabled. Enable them in System Settings → Notifications → Codex Sub Switcher."@,
        Authorization::Unavailable => "Notifications require running Codex Sub Switcher.app."@,
        Authorization::Failed => "Could not check notification permission. Try again."@,
        Authorization::Demo => "Demo mode · system notifications disabled"@,
    }
}

/// Queued notifications are delivered at most once: whatever the first
/// answer, a second answer releases nothing.
pub proof fn law_released_once(queue: Seq<NoteView>, first: Authorization, second: Authorization)
    ensures
        released(Seq::empty(), second) == Seq::<NoteView>::empty(),
        released(queue, first) == queue || released(queue, first) == Seq::<NoteView>::empty(),
        first != Authorization::Granted ==> released(queue, first) == Seq::<NoteView>::empty(),
{
}

/// Queuing never holds two notifications with one tag.
pub proof fn law_queue_keeps_tags_unique(queue: Seq<NoteView>, n: NoteView)
    requires
        tags_unique(queue),
    ensures
        tags_unique(queued(queue, n)),
        queued(queue, n).contains(n),
{
    if exists|i: int| 0 <= i < queue.len() && (#[trigger] queue[i]).0 == n.0 {
        let c = choose|i: int| 0 <= i < queue.len() && (#[trigger] queue[i]).0 == n.0;
        assert(queued(queue, n)[c] == n);
    } else {
        assert(queued(queue, n)[queue.len() as int] == n);
    }
}

} // verus!
