use breeze_core::labels::{make_session_label, primary_label};
use breeze_core::router::RouteAction;
use breeze_core::state::RouterState;

fn s(x: &str) -> String {
    x.to_string()
}

#[test]
fn label_generation() {
    assert_eq!(primary_label(), s("main"));
    assert_eq!(make_session_label(1), s("session-1"));
    assert_eq!(make_session_label(10), s("session-10"));
    assert_eq!(make_session_label(4294967295), s("session-4294967295"));
}

#[test]
fn initial_launch_stores_link_and_schedules_retries() {
    let mut st = RouterState::new();
    let url = s("breeze://x?session=abc");
    let plan = st.on_initial_launch(&url);
    assert_eq!(plan.label, s("main"));
    assert_eq!(plan.url, url);
    assert_eq!(plan.delays_ms, vec![500u64, 1500u64]);
    assert_eq!(st.get_pending_link(&s("main")), Some(url));
}

#[test]
fn idle_primary_receives_link() {
    let mut st = RouterState::new();
    let url = s("breeze://x?session=abc");
    let action = st.route(&url);
    assert!(matches!(action, RouteAction::DeliverToPrimary));
    assert_eq!(st.get_pending_link(&s("main")), Some(url));
    assert_eq!(st.windows_created(), 0);
}

#[test]
fn session_less_link_goes_to_idle_primary() {
    let mut st = RouterState::new();
    let url = s("breeze://x");
    let action = st.route(&url);
    assert!(matches!(action, RouteAction::DeliverToPrimary));
    assert_eq!(st.get_pending_link(&s("main")), Some(url));
}

#[test]
fn busy_primary_creates_new_window() {
    let mut st = RouterState::new();
    st.register_session(&s("main"), &s("abc"));
    let url = s("breeze://x?session=def");
    let action = st.route(&url);
    match action {
        RouteAction::CreateWindow { label } => {
            assert_eq!(label, s("session-1"));
            assert_eq!(st.get_pending_link(&label), Some(url));
        }
        _ => panic!("expected a new window"),
    }
    assert_eq!(st.session_owner(&s("abc")), Some(s("main")));
    assert_eq!(st.get_pending_link(&s("main")), None);
    assert_eq!(st.windows_created(), 1);
}

#[test]
fn owned_session_only_focuses() {
    let mut st = RouterState::new();
    st.register_session(&s("main"), &s("abc"));
    let url = s("breeze://x?session=def");
    let action = st.route(&url);
    assert!(matches!(action, RouteAction::CreateWindow { .. }));
    st.register_session(&s("session-1"), &s("def"));
    let before = st.get_pending_link(&s("session-1"));
    let again = st.route(&url);
    match again {
        RouteAction::FocusExisting { label } => assert_eq!(label, s("session-1")),
        _ => panic!("expected a focus of the existing window"),
    }
    assert_eq!(st.get_pending_link(&s("session-1")), before);
    assert_eq!(st.get_pending_link(&s("main")), None);
    assert_eq!(st.windows_created(), 1);
}

#[test]
fn destroyed_window_is_pruned() {
    let mut st = RouterState::new();
    st.register_session(&s("main"), &s("abc"));
    let url = s("breeze://x?session=def");
    st.route(&url);
    st.register_session(&s("session-1"), &s("def"));
    assert_eq!(st.session_owner(&s("def")), Some(s("session-1")));
    assert_eq!(st.get_pending_link(&s("session-1")), Some(url));
    st.on_window_destroyed(&s("session-1"));
    assert_eq!(st.session_owner(&s("def")), None);
    assert_eq!(st.get_pending_link(&s("session-1")), None);
    assert_eq!(st.session_owner(&s("abc")), Some(s("main")));
}

#[test]
fn destroy_prunes_every_owned_session() {
    let mut st = RouterState::new();
    st.register_session(&s("session-1"), &s("one"));
    st.register_session(&s("session-1"), &s("two"));
    st.register_session(&s("main"), &s("three"));
    st.on_window_destroyed(&s("session-1"));
    assert_eq!(st.session_owner(&s("one")), None);
    assert_eq!(st.session_owner(&s("two")), None);
    assert_eq!(st.session_owner(&s("three")), Some(s("main")));
}

#[test]
fn poll_is_idempotent() {
    let mut st = RouterState::new();
    let url = s("breeze://x?session=abc");
    st.on_initial_launch(&url);
    let first = st.get_pending_link(&s("main"));
    let second = st.get_pending_link(&s("main"));
    assert_eq!(first, second);
    assert_eq!(first, Some(url));
    st.clear_pending_link(&s("main"));
    assert_eq!(st.get_pending_link(&s("main")), None);
}

#[test]
fn creation_failure_falls_back_to_primary() {
    let mut st = RouterState::new();
    st.register_session(&s("main"), &s("abc"));
    let url = s("breeze://x?session=def");
    let action = st.route(&url);
    let label = match action {
        RouteAction::CreateWindow { label } => label,
        _ => panic!("expected a new window"),
    };
    st.on_create_failed(&label, &url);
    assert_eq!(st.get_pending_link(&label), None);
    assert_eq!(st.get_pending_link(&s("main")), Some(url));
}

#[test]
fn unregister_is_by_label() {
    let mut st = RouterState::new();
    st.register_session(&s("main"), &s("abc"));
    assert!(st.owns_session(&s("main")));
    st.unregister_session(&s("main"));
    assert!(!st.owns_session(&s("main")));
    assert_eq!(st.session_owner(&s("abc")), None);
}

#[test]
fn register_same_session_overwrites() {
    let mut st = RouterState::new();
    st.register_session(&s("main"), &s("abc"));
    st.register_session(&s("session-1"), &s("abc"));
    assert_eq!(st.session_owner(&s("abc")), Some(s("session-1")));
    assert!(!st.owns_session(&s("main")));
}

#[test]
fn window_labels_are_never_reused() {
    let mut st = RouterState::new();
    st.register_session(&s("main"), &s("abc"));
    let first = match st.route(&s("breeze://x?session=one")) {
        RouteAction::CreateWindow { label } => label,
        _ => panic!("expected a new window"),
    };
    assert_eq!(first, s("session-1"));
    st.on_window_destroyed(&first);
    let second = match st.route(&s("breeze://x?session=two")) {
        RouteAction::CreateWindow { label } => label,
        _ => panic!("expected a new window"),
    };
    assert_eq!(second, s("session-2"));
    assert_eq!(st.windows_created(), 2);
}
