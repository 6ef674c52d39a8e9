use tab_shell::state::{
    apply_update, close_tab, create_tab, go_back, go_forward, navigate_to, new_tab_id, BrowserState,
    TabError,
};
use tab_shell::tab::{Tab, TabUpdateEvent};

fn open(state: &mut BrowserState<u32>, id: &str, surface: u32) -> Tab {
    create_tab(state, id.to_string(), surface).expect("fresh id")
}

#[test]
fn new_tab_has_defaults() {
    let tab = Tab::new("t1".to_string());
    assert_eq!(tab.id(), "t1");
    assert_eq!(tab.url(), "about:blank");
    assert_eq!(tab.title(), "New Tab");
    assert!(!tab.can_go_back());
    assert!(!tab.can_go_forward());
}

#[test]
fn created_tab_becomes_active() {
    let mut state: BrowserState<u32> = BrowserState::new();
    assert_eq!(state.active_tab(), None);
    let a = open(&mut state, "a", 1);
    assert_eq!(a.id(), "a");
    assert_eq!(a.url(), "about:blank");
    assert_eq!(a.title(), "New Tab");
    assert_eq!(state.active_tab(), Some("a"));
    assert_eq!(state.tabs().len(), 1);
    assert_eq!(state.surface(&"a".to_string()), Some(&1));
}

#[test]
fn create_then_close_restores_previous_active() {
    let mut state: BrowserState<u32> = BrowserState::new();
    let a = open(&mut state, "a", 1);
    let b = open(&mut state, "b", 2);
    assert_eq!(state.active_tab(), Some(b.id()));
    assert_eq!(close_tab(&mut state, &b.id), Some(2));
    assert_eq!(state.active_tab(), Some(a.id()));
}

#[test]
fn load_finished_updates_tab() {
    let mut state: BrowserState<u32> = BrowserState::new();
    let a = open(&mut state, "a", 1);
    let event = TabUpdateEvent::load_finished(
        a.id.clone(),
        Some("https://example.com".to_string()),
        Some("Example".to_string()),
        true,
        false,
    );
    assert_eq!(event.tab_id(), a.id());
    assert_eq!(event.url(), "https://example.com");
    assert_eq!(event.title(), "Example");
    assert!(event.can_go_back());
    assert!(!event.can_go_forward());
    apply_update(&mut state, &event);
    let stored = &state.tabs()[0];
    assert_eq!(stored.id(), "a");
    assert_eq!(stored.title(), "Example");
    assert_eq!(stored.url(), "https://example.com");
    assert!(stored.can_go_back());
    assert!(!stored.can_go_forward());
}

#[test]
fn load_finished_without_uri_or_title_uses_defaults() {
    let event = TabUpdateEvent::load_finished("x".to_string(), None, None, false, true);
    assert_eq!(event.url(), "about:blank");
    assert_eq!(event.title(), "New Tab");
    assert!(event.can_go_forward());
}

#[test]
fn update_for_closed_tab_is_ignored() {
    let mut state: BrowserState<u32> = BrowserState::new();
    open(&mut state, "a", 1);
    let event =
        TabUpdateEvent::load_finished("gone".to_string(), None, Some("T".to_string()), true, true);
    apply_update(&mut state, &event);
    assert_eq!(state.tabs()[0].title(), "New Tab");
    assert!(!state.tabs()[0].can_go_back());
}

#[test]
fn closing_twice_is_a_noop() {
    let mut state: BrowserState<u32> = BrowserState::new();
    let a = open(&mut state, "a", 1);
    open(&mut state, "b", 2);
    assert_eq!(close_tab(&mut state, &a.id), Some(1));
    assert_eq!(close_tab(&mut state, &a.id), None);
    assert_eq!(state.tabs().len(), 1);
    assert_eq!(state.active_tab(), Some("b"));
}

#[test]
fn navigate_after_close_finds_nothing() {
    let mut state: BrowserState<u32> = BrowserState::new();
    let a = open(&mut state, "a", 7);
    assert_eq!(navigate_to(&state, &a.id), Some(&7));
    close_tab(&mut state, &a.id);
    assert_eq!(navigate_to(&state, &a.id), None);
    assert_eq!(go_back(&state, &a.id, |_: &u32| true), None);
    assert_eq!(go_forward(&state, &a.id, |_: &u32| true), None);
}

#[test]
fn closing_active_picks_most_recent_remaining() {
    let mut state: BrowserState<u32> = BrowserState::new();
    open(&mut state, "a", 1);
    open(&mut state, "b", 2);
    open(&mut state, "c", 3);
    close_tab(&mut state, &"c".to_string());
    assert_eq!(state.active_tab(), Some("b"));
    close_tab(&mut state, &"a".to_string());
    assert_eq!(state.active_tab(), Some("b"));
    close_tab(&mut state, &"b".to_string());
    assert_eq!(state.active_tab(), None);
    assert!(state.tabs().is_empty());
}

#[test]
fn closing_inactive_keeps_active() {
    let mut state: BrowserState<u32> = BrowserState::new();
    open(&mut state, "a", 1);
    open(&mut state, "b", 2);
    open(&mut state, "c", 3);
    assert_eq!(close_tab(&mut state, &"b".to_string()), Some(2));
    assert_eq!(state.active_tab(), Some("c"));
    assert_eq!(state.surface(&"a".to_string()), Some(&1));
    assert_eq!(state.surface(&"c".to_string()), Some(&3));
}

/// A stand-in surface that knows whether its history has a page behind and
/// ahead of the current one.
#[derive(Debug, PartialEq)]
struct History {
    back: bool,
    forward: bool,
}

#[test]
fn back_and_forward_follow_surface_report() {
    let mut state: BrowserState<History> = BrowserState::new();
    let a = create_tab(&mut state, "a".to_string(), History { back: false, forward: true })
        .expect("fresh id");
    create_tab(&mut state, "b".to_string(), History { back: true, forward: false })
        .expect("fresh id");
    assert_eq!(go_back(&state, &a.id, |h: &History| h.back), None);
    assert_eq!(
        go_forward(&state, &a.id, |h: &History| h.forward),
        Some(&History { back: false, forward: true })
    );
    let b = "b".to_string();
    assert_eq!(
        go_back(&state, &b, |h: &History| h.back),
        Some(&History { back: true, forward: false })
    );
    assert_eq!(go_forward(&state, &b, |h: &History| h.forward), None);
}

#[test]
fn back_ignores_recorded_flag_when_surface_disagrees() {
    let mut state: BrowserState<u32> = BrowserState::new();
    let a = open(&mut state, "a", 5);
    assert!(!state.tabs()[0].can_go_back());
    assert_eq!(go_back(&state, &a.id, |_: &u32| true), Some(&5));
    let event = TabUpdateEvent::load_finished(a.id.clone(), None, None, true, true);
    apply_update(&mut state, &event);
    assert_eq!(go_back(&state, &a.id, |_: &u32| false), None);
    assert_eq!(go_forward(&state, &a.id, |_: &u32| false), None);
}

#[test]
fn reused_id_is_refused() {
    let mut state: BrowserState<u32> = BrowserState::new();
    let a = open(&mut state, "a", 1);
    assert_eq!(create_tab(&mut state, "a".to_string(), 2).err(), Some(TabError::DuplicateId));
    assert_eq!(state.tabs().len(), 1);
    close_tab(&mut state, &a.id);
    assert_eq!(create_tab(&mut state, "a".to_string(), 3).err(), Some(TabError::DuplicateId));
    assert!(state.tabs().is_empty());
    assert_eq!(state.active_tab(), None);
}

#[test]
fn drawn_ids_are_distinct() {
    let mut state: BrowserState<u32> = BrowserState::new();
    let mut seen: Vec<String> = Vec::new();
    for k in 0..20u32 {
        let id = new_tab_id(&state).expect("unused id");
        assert_eq!(id.len(), 36);
        assert_eq!(id.matches('-').count(), 4);
        let tab = create_tab(&mut state, id, k).expect("fresh id");
        assert!(!seen.contains(&tab.id));
        seen.push(tab.id.clone());
        if k % 3 == 0 {
            close_tab(&mut state, &tab.id);
        }
    }
}
