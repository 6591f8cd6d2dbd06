//! Routing laws.
//!
//! Global guarantees of the router, proved over the model: labels in the
//! stores are always ones the router produced (so the next allocated label
//! is fresh), and each routing branch has exactly the effects the design
//! promises.

use vstd::prelude::*;

use crate::alist::map_without_value;
use crate::labels::{
    label_from_counter, lemma_session_label_injective, lemma_session_label_not_main, main_label,
    session_label,
};
use crate::link::spec_extract_session_id;
use crate::router::{owned_session, primary_busy, route_action, route_model, ActionModel};
use crate::state::{spec_pending_link, RouterModel};

verus! {

/// Label soundness: every window label in either store was produced by the
/// router — the reserved primary label, or a counter-generated label no
/// newer than the counter.
pub open spec fn labels_ok(m: RouterModel) -> bool {
    &&& forall|k: Seq<char>| #[trigger]
        m.pending.contains_key(k) ==> label_from_counter(k, m.counter)
    &&& forall|k: Seq<char>| #[trigger]
        m.sessions.contains_key(k) ==> label_from_counter(m.sessions[k], m.counter)
}

/// A label the router produced while the counter was `c1` is still one of
/// its labels at any later counter value: labels are never reused.
pub proof fn lemma_label_from_counter_mono(label: Seq<char>, c1: nat, c2: nat)
    requires
        label_from_counter(label, c1),
        c1 <= c2,
    ensures
        label_from_counter(label, c2),
{
    if label != main_label() {
        let k = choose|k: nat| 1 <= k <= c1 && label == session_label(k);
        assert(1 <= k <= c2 && label == session_label(k));
    }
}

/// The label allocated next is fresh: it appears in neither store, neither
/// as a window with a pending link nor as the owner of any session.
pub proof fn lemma_next_label_fresh(m: RouterModel)
    requires
        labels_ok(m),
    ensures
        !m.pending.contains_key(session_label(m.counter + 1)),
        forall|sid: Seq<char>| #[trigger]
            m.sessions.contains_key(sid) ==> m.sessions[sid] != session_label(m.counter + 1),
{
    let fresh = session_label(m.counter + 1);
    lemma_session_label_not_main(m.counter + 1);
    if m.pending.contains_key(fresh) {
        assert(label_from_counter(fresh, m.counter));
        let k = choose|k: nat| 1 <= k <= m.counter && fresh == session_label(k);
        lemma_session_label_injective(k, m.counter + 1);
    }
    assert forall|sid: Seq<char>| #[trigger]
        m.sessions.contains_key(sid) implies m.sessions[sid] != fresh by {
        if m.sessions[sid] == fresh {
            assert(label_from_counter(fresh, m.counter));
            let k = choose|k: nat| 1 <= k <= m.counter && fresh == session_label(k);
            lemma_session_label_injective(k, m.counter + 1);
        }
    }
}

/// Routing preserves label soundness, whichever branch is taken.
pub proof fn lemma_route_preserves_labels_ok(m: RouterModel, url: Seq<char>)
    requires
        labels_ok(m),
    ensures
        labels_ok(route_model(m, url)),
{
    let m2 = route_model(m, url);
    if owned_session(m, url) is Some {
    } else if !primary_busy(m) {
        assert forall|k: Seq<char>| #[trigger]
            m2.pending.contains_key(k) implies label_from_counter(k, m2.counter) by {
            if k != main_label() {
                assert(m.pending.contains_key(k));
            }
        }
    } else {
        assert forall|k: Seq<char>| #[trigger]
            m2.pending.contains_key(k) implies label_from_counter(k, m2.counter) by {
            if k == session_label(m.counter + 1) {
                assert(1 <= m.counter + 1 <= m2.counter && k == session_label(m.counter + 1));
            } else {
                assert(m.pending.contains_key(k));
                lemma_label_from_counter_mono(k, m.counter, m2.counter);
            }
        }
        assert forall|k: Seq<char>| #[trigger]
            m2.sessions.contains_key(k) implies label_from_counter(m2.sessions[k], m2.counter) by {
            lemma_label_from_counter_mono(m.sessions[k], m.counter, m2.counter);
        }
    }
}

/// Registering a session under a router-produced label preserves label
/// soundness.
pub proof fn lemma_register_preserves_labels_ok(m: RouterModel, session_id: Seq<char>, label: Seq<char>)
    requires
        labels_ok(m),
        label_from_counter(label, m.counter),
    ensures
        labels_ok(
            (RouterModel {
                pending: m.pending,
                sessions: m.sessions.insert(session_id, label),
                counter: m.counter,
            }),
        ),
{
}

/// Pruning a window label — on disconnect or window destruction — preserves
/// label soundness: both stores only shrink.
pub proof fn lemma_prune_preserves_labels_ok(m: RouterModel, label: Seq<char>)
    requires
        labels_ok(m),
    ensures
        labels_ok(
            (RouterModel {
                pending: m.pending.remove(label),
                sessions: map_without_value(m.sessions, label),
                counter: m.counter,
            }),
        ),
{
}

/// The creation-failure fallback preserves label soundness: it only removes
/// a label and stores the link for the reserved primary window.
pub proof fn lemma_create_failed_preserves_labels_ok(m: RouterModel, label: Seq<char>, url: Seq<char>)
    requires
        labels_ok(m),
    ensures
        labels_ok(
            (RouterModel {
                pending: m.pending.remove(label).insert(main_label(), url),
                sessions: m.sessions,
                counter: m.counter,
            }),
        ),
{
    let m2 = RouterModel {
        pending: m.pending.remove(label).insert(main_label(), url),
        sessions: m.sessions,
        counter: m.counter,
    };
    assert forall|k: Seq<char>| #[trigger]
        m2.pending.contains_key(k) implies label_from_counter(k, m2.counter) by {
        if k != main_label() {
            assert(m.pending.contains_key(k));
        }
    }
}

/// A link stored at initial launch goes to the reserved primary label, so
/// label soundness is preserved.
pub proof fn lemma_initial_launch_preserves_labels_ok(m: RouterModel, url: Seq<char>)
    requires
        labels_ok(m),
    ensures
        labels_ok(
            (RouterModel {
                pending: m.pending.insert(main_label(), url),
                sessions: m.sessions,
                counter: m.counter,
            }),
        ),
{
    let m2 = RouterModel {
        pending: m.pending.insert(main_label(), url),
        sessions: m.sessions,
        counter: m.counter,
    };
    assert forall|k: Seq<char>| #[trigger]
        m2.pending.contains_key(k) implies label_from_counter(k, m2.counter) by {
        if k != main_label() {
            assert(m.pending.contains_key(k));
        }
    }
}

/// Polling is idempotent: two polls of the pending link for `label`, with
/// no clearing operation in between, return the same value. A poll is a
/// read of the routing state — it never consumes the entry — so both calls
/// see the same model `m` and hence the same stored link.
pub proof fn lemma_poll_idempotent(
    m: RouterModel,
    label: Seq<char>,
    first: Option<Seq<char>>,
    second: Option<Seq<char>>,
)
    requires
        first == spec_pending_link(m, label),
        second == spec_pending_link(m, label),
    ensures
        first == second,
{
}

/// A link whose session is already owned by a window leads to exactly one
/// focus of that window: the routing state is left untouched.
pub proof fn lemma_owned_session_only_focuses(m: RouterModel, url: Seq<char>, sid: Seq<char>)
    requires
        spec_extract_session_id(url) == Some(sid),
        m.sessions.contains_key(sid),
    ensures
        route_model(m, url) == m,
        route_action(m, url) == (ActionModel::FocusExisting { label: m.sessions[sid] }),
{
}

/// A link that arrives while no window owns any session is delivered to the
/// primary window: its pending link becomes the URL, and session ownership
/// and the counter are untouched.
pub proof fn lemma_no_owner_delivers_to_primary(m: RouterModel, url: Seq<char>)
    requires
        forall|sid: Seq<char>| !(#[trigger] m.sessions.contains_key(sid)),
    ensures
        route_action(m, url) == ActionModel::DeliverToPrimary,
        route_model(m, url).pending == m.pending.insert(main_label(), url),
        spec_pending_link(route_model(m, url), main_label()) == Some(url),
        route_model(m, url).sessions == m.sessions,
        route_model(m, url).counter == m.counter,
{
    assert(!primary_busy(m));
}

/// A link that arrives while the primary window is busy and whose session is
/// not owned creates exactly one new window, under a fresh, never-used
/// label: the URL is stored under that label before any notification can be
/// emitted, and the primary window's pending link is never touched.
pub proof fn lemma_busy_primary_creates_fresh_window(m: RouterModel, url: Seq<char>)
    requires
        labels_ok(m),
        primary_busy(m),
        spec_extract_session_id(url) is Some ==> !m.sessions.contains_key(
            spec_extract_session_id(url).unwrap(),
        ),
    ensures
        route_action(m, url) == (ActionModel::CreateWindow { label: session_label(m.counter + 1) }),
        !m.pending.contains_key(session_label(m.counter + 1)),
        forall|sid: Seq<char>| #[trigger]
            m.sessions.contains_key(sid) ==> m.sessions[sid] != session_label(m.counter + 1),
        route_model(m, url).pending == m.pending.insert(session_label(m.counter + 1), url),
        route_model(m, url).sessions == m.sessions,
        route_model(m, url).counter == m.counter + 1,
        spec_pending_link(route_model(m, url), main_label()) == spec_pending_link(m, main_label()),
{
    lemma_next_label_fresh(m);
    lemma_session_label_not_main(m.counter + 1);
}

} // verus!
