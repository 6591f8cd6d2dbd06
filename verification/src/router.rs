//! The routing decision procedure.
//!
//! Given an activation URL, the router decides among three outcomes: focus
//! the window that already shows the link's session, hand the link to the
//! idle primary window, or allocate a fresh window label for it. The
//! decision and every state change are made here; the host performs the
//! returned action (focus, notify, create) and reports creation failure
//! back, so a racing or failing window subsystem can never corrupt the
//! routing state.

use vstd::prelude::*;

use crate::alist::{alist_contains_value, alist_get, alist_remove, alist_set, map_has_value};
use crate::labels::{main_label, make_session_label, primary_label, session_label};
use crate::link::{extract_session_id, spec_extract_session_id};
use crate::state::{RouterModel, RouterState};

verus! {

/// What the host must do after a routing decision. Focus and notification
/// failures on a vanished window are benign races: the host logs and
/// swallows them.
pub enum RouteAction {
    /// The session is already shown by the window with this label: focus it
    /// and nothing else.
    FocusExisting { label: String },
    /// The link was stored for the idle primary window: emit the
    /// link-available notification to the primary window, then focus it.
    DeliverToPrimary,
    /// A fresh label was allocated and the link stored under it, already
    /// visible to polls: create the window; on success run the retry plan,
    /// on failure report `on_create_failed`.
    CreateWindow { label: String },
}

/// Mathematical view of a routing decision.
pub ghost enum ActionModel {
    FocusExisting { label: Seq<char> },
    DeliverToPrimary,
    CreateWindow { label: Seq<char> },
}

impl View for RouteAction {
    type V = ActionModel;

    open spec fn view(&self) -> ActionModel {
        match self {
            RouteAction::FocusExisting { label } => ActionModel::FocusExisting { label: label@ },
            RouteAction::DeliverToPrimary => ActionModel::DeliverToPrimary,
            RouteAction::CreateWindow { label } => ActionModel::CreateWindow { label: label@ },
        }
    }
}

/// The primary window is busy exactly when it owns some session.
pub open spec fn primary_busy(m: RouterModel) -> bool {
    map_has_value(m.sessions, main_label())
}

/// The owning window of the URL's session, if the URL carries a session
/// identifier that is active.
pub open spec fn owned_session(m: RouterModel, url: Seq<char>) -> Option<Seq<char>> {
    match spec_extract_session_id(url) {
        Some(sid) => if m.sessions.contains_key(sid) {
            Some(m.sessions[sid])
        } else {
            None
        },
        None => None,
    }
}

/// The routing state after `url` is routed.
pub open spec fn route_model(m: RouterModel, url: Seq<char>) -> RouterModel {
    if owned_session(m, url) is Some {
        m
    } else if !primary_busy(m) {
        RouterModel { pending: m.pending.insert(main_label(), url), sessions: m.sessions, counter: m.counter }
    } else {
        RouterModel {
            pending: m.pending.insert(session_label(m.counter + 1), url),
            sessions: m.sessions,
            counter: m.counter + 1,
        }
    }
}

/// The decision taken for `url`.
pub open spec fn route_action(m: RouterModel, url: Seq<char>) -> ActionModel {
    if owned_session(m, url) is Some {
        ActionModel::FocusExisting { label: owned_session(m, url).unwrap() }
    } else if !primary_busy(m) {
        ActionModel::DeliverToPrimary
    } else {
        ActionModel::CreateWindow { label: session_label(m.counter + 1) }
    }
}

/// Redundant delivery plan for a link: the link-available notification is
/// re-emitted to `label` after each delay, covering the race between window
/// creation and the moment its content attaches a listener. The consumer
/// de-duplicates by URL, so redundant delivery is safe and required.
pub struct RetryPlan {
    pub label: String,
    pub url: String,
    pub delays_ms: Vec<u64>,
}

/// The two fixed redundant-delivery delays, in milliseconds: one short,
/// one longer.
pub open spec fn retry_delays() -> Seq<u64> {
    seq![500u64, 1500u64]
}

/// Build the delivery-retry plan for a link handed to `label`.
pub fn retry_plan(label: String, url: String) -> (p: RetryPlan)
    ensures
        p.label@ == label@,
        p.url@ == url@,
        p.delays_ms@ == retry_delays(),
{
    let mut delays_ms: Vec<u64> = Vec::new();
    delays_ms.push(500);
    delays_ms.push(1500);
    proof {
        assert(delays_ms@ =~= retry_delays());
    }
    RetryPlan { label, url, delays_ms }
}

impl RouterState {
    /// Route an incoming deep link URL.
    ///
    /// The returned action tells the host what to perform; the state change
    /// (pending-link writes, label allocation) has already happened when the
    /// call returns, so a fresh window's poll always sees its link.
    pub fn route(&mut self, url: &String) -> (a: RouteAction)
        requires
            old(self).wf(),
            old(self)@.counter < u32::MAX,
        ensures
            final(self).wf(),
            final(self)@ == route_model(old(self)@, url@),
            a@ == route_action(old(self)@, url@),
    {
        let sid = extract_session_id(url.as_str());
        match sid {
            Some(sid) => {
                match alist_get(&self.sessions, &sid) {
                    Some(owner) => {
                        return RouteAction::FocusExisting { label: owner };
                    },
                    None => {},
                }
            },
            None => {},
        }
        let main_lab = primary_label();
        if !alist_contains_value(&self.sessions, &main_lab) {
            alist_set(&mut self.pending, main_lab, url.clone());
            RouteAction::DeliverToPrimary
        } else {
            self.counter = self.counter + 1;
            let label = make_session_label(self.counter);
            alist_set(&mut self.pending, label.clone(), url.clone());
            RouteAction::CreateWindow { label }
        }
    }

    /// The window for `label` could not be created: drop the orphaned
    /// pending link, then fall back to the primary window even if it is
    /// busy — creation failure takes priority over duplicate avoidance. The
    /// host must then emit the link-available notification to the primary
    /// window and focus it, as in the idle-primary branch.
    pub fn on_create_failed(&mut self, label: &String, url: &String)
        requires
            old(self).wf(),
        ensures
            final(self).wf(),
            final(self)@.pending == old(self)@.pending.remove(label@).insert(main_label(), url@),
            final(self)@.sessions == old(self)@.sessions,
            final(self)@.counter == old(self)@.counter,
    {
        alist_remove(&mut self.pending, label);
        alist_set(&mut self.pending, primary_label(), url.clone());
    }

    /// Record a deep link already present at process start: it is stored for
    /// the primary window before any poll can run, and the returned plan
    /// re-emits the notification to cover slow webview startup.
    pub fn on_initial_launch(&mut self, url: &String) -> (p: RetryPlan)
        requires
            old(self).wf(),
        ensures
            final(self).wf(),
            final(self)@.pending == old(self)@.pending.insert(main_label(), url@),
            final(self)@.sessions == old(self)@.sessions,
            final(self)@.counter == old(self)@.counter,
            p.label@ == main_label(),
            p.url@ == url@,
            p.delays_ms@ == retry_delays(),
    {
        alist_set(&mut self.pending, primary_label(), url.clone());
        retry_plan(primary_label(), url.clone())
    }
}

} // verus!
