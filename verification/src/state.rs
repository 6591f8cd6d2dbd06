//! Routing state.
//!
//! Three pieces of state steer deep-link routing: the pending link stored for
//! each window, the owning window of each active session, and the counter
//! that generates window labels. The state is modelled by [`RouterModel`],
//! three mathematical values that every operation's contract speaks of.
//!
//! The host is expected to guard a `RouterState` by one mutually exclusive
//! region; the operations themselves are short and never block.

use vstd::prelude::*;

use crate::alist::{
    alist_contains_value, alist_get, alist_remove, alist_remove_by_value, alist_set, entries_map,
    keys_unique, map_without_value,
};

verus! {

/// Mathematical view of the routing state.
pub ghost struct RouterModel {
    /// Window label -> most recently stored, not yet consumed link.
    pub pending: Map<Seq<char>, Seq<char>>,
    /// Session identifier -> owning window label.
    pub sessions: Map<Seq<char>, Seq<char>>,
    /// Number of window labels handed out so far; never decreased.
    pub counter: nat,
}

/// The deep-link routing state: pending links, session ownership and the
/// window-label counter.
pub struct RouterState {
    pub pending: Vec<(String, String)>,
    pub sessions: Vec<(String, String)>,
    pub counter: u32,
}

impl View for RouterState {
    type V = RouterModel;

    open spec fn view(&self) -> RouterModel {
        RouterModel {
            pending: entries_map(self.pending@),
            sessions: entries_map(self.sessions@),
            counter: self.counter as nat,
        }
    }
}

/// The pending link stored for `label`, if any.
pub open spec fn spec_pending_link(m: RouterModel, label: Seq<char>) -> Option<Seq<char>> {
    if m.pending.contains_key(label) {
        Some(m.pending[label])
    } else {
        None
    }
}

impl RouterState {
    /// The stores keep at most one entry per key.
    pub open spec fn wf(&self) -> bool {
        keys_unique(self.pending@) && keys_unique(self.sessions@)
    }

    /// Fresh state: no pending links, no sessions, no label handed out.
    pub fn new() -> (s: Self)
        ensures
            s.wf(),
            s@.pending == Map::<Seq<char>, Seq<char>>::empty(),
            s@.sessions == Map::<Seq<char>, Seq<char>>::empty(),
            s@.counter == 0,
    {
        RouterState { pending: Vec::new(), sessions: Vec::new(), counter: 0 }
    }

    /// Poll the link stored for the window `label` without consuming it:
    /// polling twice in a row returns the same value.
    pub fn get_pending_link(&self, label: &String) -> (r: Option<String>)
        requires
            self.wf(),
        ensures
            r.deep_view() == spec_pending_link(self@, label@),
    {
        alist_get(&self.pending, label)
    }

    /// Drop the link stored for `label` once the window has applied it.
    pub fn clear_pending_link(&mut self, label: &String)
        requires
            old(self).wf(),
        ensures
            final(self).wf(),
            final(self)@.pending == old(self)@.pending.remove(label@),
            final(self)@.sessions == old(self)@.sessions,
            final(self)@.counter == old(self)@.counter,
    {
        alist_remove(&mut self.pending, label);
    }

    /// Record that the window `label` now shows the session `session_id`.
    /// A second registration for the same identifier overwrites the first.
    pub fn register_session(&mut self, label: &String, session_id: &String)
        requires
            old(self).wf(),
        ensures
            final(self).wf(),
            final(self)@.sessions == old(self)@.sessions.insert(session_id@, label@),
            final(self)@.pending == old(self)@.pending,
            final(self)@.counter == old(self)@.counter,
    {
        alist_set(&mut self.sessions, session_id.clone(), label.clone());
    }

    /// Forget every session the window `label` owns (cleanup is by label, so
    /// the caller need not know the session identifier).
    pub fn unregister_session(&mut self, label: &String)
        requires
            old(self).wf(),
        ensures
            final(self).wf(),
            final(self)@.sessions == map_without_value(old(self)@.sessions, label@),
            final(self)@.pending == old(self)@.pending,
            final(self)@.counter == old(self)@.counter,
            forall|sid: Seq<char>|
                final(self)@.sessions.contains_key(sid) ==> final(self)@.sessions[sid] != label@,
    {
        alist_remove_by_value(&mut self.sessions, label);
    }

    /// The owning window of `session_id`, if the session is active.
    pub fn session_owner(&self, session_id: &String) -> (r: Option<String>)
        requires
            self.wf(),
        ensures
            r.deep_view() == (if self@.sessions.contains_key(session_id@) {
                Some(self@.sessions[session_id@])
            } else {
                None::<Seq<char>>
            }),
    {
        alist_get(&self.sessions, session_id)
    }

    /// Does any window own a session? Used by tests and hosts; the router
    /// itself only asks about the primary window.
    pub fn owns_session(&self, label: &String) -> (r: bool)
        requires
            self.wf(),
        ensures
            r == crate::alist::map_has_value(self@.sessions, label@),
    {
        alist_contains_value(&self.sessions, label)
    }

    /// Number of window labels handed out so far.
    pub fn windows_created(&self) -> (r: u32)
        ensures
            r as nat == self@.counter,
    {
        self.counter
    }

    /// Handle the host's window-destroyed signal: the destroyed window owns
    /// no session any more and its pending link is gone. This is the only
    /// path that prunes stale labels, and it runs for every destroyed
    /// window, the primary included.
    pub fn on_window_destroyed(&mut self, label: &String)
        requires
            old(self).wf(),
        ensures
            final(self).wf(),
            final(self)@.pending == old(self)@.pending.remove(label@),
            final(self)@.sessions == map_without_value(old(self)@.sessions, label@),
            final(self)@.counter == old(self)@.counter,
            !final(self)@.pending.contains_key(label@),
            forall|sid: Seq<char>|
                final(self)@.sessions.contains_key(sid) ==> final(self)@.sessions[sid] != label@,
    {
        alist_remove_by_value(&mut self.sessions, label);
        alist_remove(&mut self.pending, label);
    }
}

} // verus!
