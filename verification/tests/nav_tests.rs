use ncli::nav::{AppState, Directive, Event, Key, Repaint, Section};
use ncli::search::{Entry, Object};

fn demo_tree() -> indexmap::IndexMap<String, Vec<String>> {
    let mut tree = indexmap::IndexMap::new();
    tree.insert(
        "writing".to_string(),
        vec!["daily journal".to_string(), "diary".to_string(), "calendar".to_string()],
    );
    tree.insert(
        "academic".to_string(),
        vec!["physics".to_string(), "maths".to_string()],
    );
    tree.insert(
        "hobbies".to_string(),
        vec!["japanese".to_string(), "books".to_string(), "music".to_string()],
    );
    tree
}

fn demo_state() -> AppState {
    AppState::new(
        demo_tree(),
        vec!["physics".to_string(), "calendar".to_string()],
    )
}

fn key(state: &mut AppState, k: Key) -> Directive {
    state.reduce(Event::Key(k))
}

fn result_entry(k: &str, title: &str) -> Entry {
    Entry {
        key: k.to_string(),
        object: Object {
            id: k.to_string(),
            parent_id: None,
            title: title.to_string(),
            object_type: "page".to_string(),
            children: Vec::new(),
        },
    }
}

#[test]
fn fresh_state_starts_on_login() {
    let state = demo_state();
    assert_eq!(state.section, Section::Login);
    assert!(!state.authenticated);
    assert_eq!(state.page_pos, 0);
    assert!(!state.drilled);
    assert!(!state.search.active);
    assert_eq!(state.tables.len(), 8);
}

#[test]
fn section_keys_switch_sections() {
    let mut state = demo_state();
    let d = key(&mut state, Key::Char('h'));
    assert_eq!(state.section, Section::Home);
    assert_eq!(d.repaint, Repaint::Full);
    key(&mut state, Key::Char('p'));
    assert_eq!(state.section, Section::Pages);
    assert!(!state.drilled);
    assert_eq!(state.page_pos, 0);
    key(&mut state, Key::Char('t'));
    assert_eq!(state.section, Section::Tables);
    assert_eq!(state.table_pos, 0);
    key(&mut state, Key::Char('f'));
    assert_eq!(state.section, Section::Favorites);
    assert_eq!(state.favorite_pos, 0);
}

#[test]
fn seven_downs_over_five_tables_land_on_two() {
    let mut tree = indexmap::IndexMap::new();
    tree.insert(
        "only".to_string(),
        vec![
            "t0".to_string(),
            "t1".to_string(),
            "t2".to_string(),
            "t3".to_string(),
            "t4".to_string(),
        ],
    );
    let mut state = AppState::new(tree, Vec::new());
    key(&mut state, Key::Char('t'));
    assert_eq!(state.table_pos, 0);
    for _ in 0..7 {
        key(&mut state, Key::Down);
    }
    assert_eq!(state.table_pos, (0 + 7) % 5);
    assert_eq!(state.table_pos, 2);
}

#[test]
fn full_cycle_returns_to_start() {
    let mut state = demo_state();
    key(&mut state, Key::Char('t'));
    key(&mut state, Key::Down);
    key(&mut state, Key::Down);
    assert_eq!(state.table_pos, 2);
    for _ in 0..8 {
        key(&mut state, Key::Down);
    }
    assert_eq!(state.table_pos, 2);
}

#[test]
fn up_wraps_to_last() {
    let mut state = demo_state();
    key(&mut state, Key::Char('p'));
    key(&mut state, Key::Up);
    assert_eq!(state.page_pos, 2);
    key(&mut state, Key::Char('f'));
    key(&mut state, Key::Up);
    assert_eq!(state.favorite_pos, 1);
}

#[test]
fn moves_on_empty_axes_hold_zero() {
    let mut state = AppState::new(indexmap::IndexMap::new(), Vec::new());
    key(&mut state, Key::Char('t'));
    key(&mut state, Key::Down);
    key(&mut state, Key::Up);
    assert_eq!(state.table_pos, 0);
    key(&mut state, Key::Char('f'));
    key(&mut state, Key::Up);
    assert_eq!(state.favorite_pos, 0);
    key(&mut state, Key::Char('p'));
    key(&mut state, Key::Down);
    assert_eq!(state.page_pos, 0);
    key(&mut state, Key::Enter);
    assert!(!state.drilled);
}

#[test]
fn drill_then_esc_returns_to_page_list_not_home() {
    let mut state = demo_state();
    key(&mut state, Key::Char('p'));
    key(&mut state, Key::Down);
    assert_eq!(state.page_pos, 1);
    key(&mut state, Key::Enter);
    assert!(state.drilled);
    assert_eq!(state.item_pos, 0);
    let d = key(&mut state, Key::Esc);
    assert!(!state.drilled);
    assert_eq!(state.page_pos, 1);
    assert_eq!(state.section, Section::Pages);
    assert_eq!(d.repaint, Repaint::Full);
}

#[test]
fn esc_outside_drill_returns_home() {
    let mut state = demo_state();
    key(&mut state, Key::Char('t'));
    key(&mut state, Key::Esc);
    assert_eq!(state.section, Section::Home);
}

#[test]
fn drilled_moves_wrap_over_page_items() {
    let mut state = demo_state();
    key(&mut state, Key::Char('p'));
    key(&mut state, Key::Down);
    key(&mut state, Key::Enter);
    key(&mut state, Key::Down);
    assert_eq!(state.item_pos, 1);
    key(&mut state, Key::Down);
    assert_eq!(state.item_pos, 0);
    key(&mut state, Key::Up);
    assert_eq!(state.item_pos, 1);
}

#[test]
fn drilling_into_empty_page_holds_item_zero() {
    let mut tree = indexmap::IndexMap::new();
    tree.insert("empty".to_string(), Vec::new());
    let mut state = AppState::new(tree, Vec::new());
    key(&mut state, Key::Char('p'));
    key(&mut state, Key::Enter);
    assert!(state.drilled);
    assert_eq!(state.item_pos, 0);
    key(&mut state, Key::Down);
    assert_eq!(state.item_pos, 0);
    key(&mut state, Key::Up);
    assert_eq!(state.item_pos, 0);
}

#[test]
fn quit_key_requests_termination_only() {
    let mut state = demo_state();
    key(&mut state, Key::Char('t'));
    let d = key(&mut state, Key::Char('q'));
    assert!(d.quit);
    assert_eq!(d.repaint, Repaint::Skip);
    assert_eq!(state.section, Section::Tables);
}

#[test]
fn unmapped_key_is_ignored() {
    let mut state = demo_state();
    key(&mut state, Key::Char('t'));
    key(&mut state, Key::Down);
    let d = key(&mut state, Key::Char('z'));
    assert_eq!(d.repaint, Repaint::Skip);
    assert!(!d.quit && !d.issue_search && !d.begin_login && !d.request_logout);
    assert_eq!(state.section, Section::Tables);
    assert_eq!(state.table_pos, 1);
    let d2 = key(&mut state, Key::Backspace);
    assert_eq!(d2.repaint, Repaint::Skip);
    assert_eq!(state.table_pos, 1);
}

#[test]
fn login_key_enters_auth_and_begins_login() {
    let mut state = demo_state();
    let d = key(&mut state, Key::Char('l'));
    assert_eq!(state.section, Section::Auth);
    assert!(d.begin_login);
    assert!(!d.request_logout);
}

#[test]
fn login_key_when_authenticated_requests_logout() {
    let mut state = demo_state();
    state.set_auth(true);
    let d = key(&mut state, Key::Char('l'));
    assert!(d.request_logout);
    assert!(!d.begin_login);
    assert_eq!(state.section, Section::Login);
}

#[test]
fn auth_completion_lands_on_home() {
    let mut state = demo_state();
    key(&mut state, Key::Char('l'));
    let d = state.reduce(Event::Authenticated(true));
    assert_eq!(state.section, Section::Home);
    assert!(state.authenticated);
    assert_eq!(d.repaint, Repaint::Full);
}

#[test]
fn failed_login_stays_on_auth() {
    let mut state = demo_state();
    key(&mut state, Key::Char('l'));
    let d = state.reduce(Event::Authenticated(false));
    assert_eq!(state.section, Section::Auth);
    assert!(!state.authenticated);
    assert_eq!(d.repaint, Repaint::Skip);
}

#[test]
fn logout_completion_lands_on_login() {
    let mut state = demo_state();
    state.set_auth(true);
    state.set_section(Section::Home);
    state.reduce(Event::LogoutDone);
    assert_eq!(state.section, Section::Login);
    assert!(!state.authenticated);
}

#[test]
fn search_toggle_then_esc_restores_prior_state() {
    let mut state = demo_state();
    key(&mut state, Key::Char('p'));
    key(&mut state, Key::Down);
    key(&mut state, Key::Enter);
    key(&mut state, Key::Down);
    let d = key(&mut state, Key::Char('s'));
    assert!(state.search.active);
    assert!(d.issue_search);
    key(&mut state, Key::Esc);
    assert!(!state.search.active);
    assert_eq!(state.section, Section::Pages);
    assert!(state.drilled);
    assert_eq!(state.page_pos, 1);
    assert_eq!(state.item_pos, 1);
    assert!(state.search.query.is_empty());
    assert!(state.search.results.is_empty());
    assert_eq!(state.search.cursor, 0);
}

#[test]
fn typing_in_overlay_edits_query_and_reissues() {
    let mut state = demo_state();
    key(&mut state, Key::Char('s'));
    let d = key(&mut state, Key::Char('j'));
    assert_eq!(state.search.query, vec!['j']);
    assert!(d.issue_search);
    assert_eq!(d.repaint, Repaint::SearchBox);
    key(&mut state, Key::Char('o'));
    assert_eq!(state.search.query, vec!['j', 'o']);
    let d2 = key(&mut state, Key::Backspace);
    assert_eq!(state.search.query, vec!['j']);
    assert!(d2.issue_search);
    key(&mut state, Key::Backspace);
    key(&mut state, Key::Backspace);
    assert!(state.search.query.is_empty());
}

#[test]
fn overlay_cursor_wraps_over_results() {
    let mut state = demo_state();
    key(&mut state, Key::Char('s'));
    state.apply_search_results(Some(vec![
        result_entry("1", "alpha"),
        result_entry("2", "beta"),
        result_entry("3", "gamma"),
    ]));
    assert_eq!(state.search.cursor, 0);
    key(&mut state, Key::Up);
    assert_eq!(state.search.cursor, 1);
    key(&mut state, Key::Up);
    key(&mut state, Key::Up);
    assert_eq!(state.search.cursor, 0);
    key(&mut state, Key::Down);
    assert_eq!(state.search.cursor, 2);
}

#[test]
fn overlay_cursor_moves_are_noops_without_results() {
    let mut state = demo_state();
    key(&mut state, Key::Char('s'));
    key(&mut state, Key::Up);
    assert_eq!(state.search.cursor, 0);
    key(&mut state, Key::Down);
    assert_eq!(state.search.cursor, 0);
}

#[test]
fn failed_search_keeps_previous_results() {
    let mut state = demo_state();
    key(&mut state, Key::Char('s'));
    state.apply_search_results(Some(vec![result_entry("1", "alpha")]));
    assert_eq!(state.search.results.len(), 1);
    state.apply_search_results(None);
    assert_eq!(state.search.results.len(), 1);
    assert_eq!(state.search.results[0].object.title, "alpha");
}

#[test]
fn typed_query_ranks_delivered_results() {
    let mut state = demo_state();
    key(&mut state, Key::Char('s'));
    key(&mut state, Key::Char('j'));
    key(&mut state, Key::Char('o'));
    state.apply_search_results(Some(vec![
        result_entry("n", "Notes"),
        result_entry("p", "Projects"),
        result_entry("j", "Journal"),
    ]));
    assert_eq!(state.search.results[0].object.title, "Journal");
}

#[test]
fn results_arriving_after_overlay_closed_are_discarded() {
    let mut state = demo_state();
    key(&mut state, Key::Char('s'));
    key(&mut state, Key::Esc);
    state.apply_search_results(Some(vec![result_entry("1", "alpha")]));
    assert!(state.search.results.is_empty());
}
