use ncli::dims::{get_dimensions, y_search};
use ncli::layout::{
    controls_plan, flat_panel, home_items, overlay_geometry, overlay_rows, pages_panel,
    render_plan, split_ctrl, truncate_query, window_start, ContentPlan,
};
use ncli::nav::{AppState, Event, Key};
use ncli::search::{Entry, Object};

fn names(texts: &[&str]) -> Vec<String> {
    texts.iter().map(|t| t.to_string()).collect()
}

fn found_entry(k: &str, title: &str) -> Entry {
    Entry {
        key: k.to_string(),
        object: Object {
            id: k.to_string(),
            parent_id: None,
            title: title.to_string(),
            object_type: "database".to_string(),
            children: Vec::new(),
        },
    }
}

#[test]
fn dimensions_clamp_to_content_box() {
    let d = get_dimensions(200, 100);
    assert_eq!(d.content_width, 60);
    assert_eq!(d.content_height, 30);
    assert_eq!(d.x_center, 100);
    assert_eq!(d.y_center, 50);
    assert_eq!(y_search(&d), 36);
    let small = get_dimensions(40, 12);
    assert_eq!(small.content_width, 40);
    assert_eq!(small.content_height, 12);
    assert_eq!(y_search(&small), 1);
}

#[test]
fn window_start_snaps_to_multiples_of_seven() {
    assert_eq!(window_start(0), 0);
    assert_eq!(window_start(6), 0);
    assert_eq!(window_start(7), 7);
    assert_eq!(window_start(13), 7);
    assert_eq!(window_start(14), 14);
}

#[test]
fn flat_panel_windows_and_highlights() {
    let items = names(&["t0", "t1", "t2", "t3", "t4", "t5", "t6", "t7", "t8", "t9"]);
    let favorites = names(&["t9", "t2"]);
    let rows = flat_panel(&items, 8, &favorites);
    assert_eq!(rows.len(), 3);
    assert_eq!(rows[0].text, "t7");
    assert_eq!(rows[1].text, "t8");
    assert_eq!(rows[2].text, "t9");
    assert!(!rows[0].selected && rows[1].selected && !rows[2].selected);
    assert!(!rows[0].favorite && !rows[1].favorite && rows[2].favorite);
}

#[test]
fn flat_panel_first_window_shows_seven_rows() {
    let items = names(&["t0", "t1", "t2", "t3", "t4", "t5", "t6", "t7", "t8", "t9"]);
    let rows = flat_panel(&items, 3, &Vec::new());
    assert_eq!(rows.len(), 7);
    assert!(rows[3].selected);
}

#[test]
fn flat_panel_of_empty_list_is_empty() {
    let rows = flat_panel(&Vec::new(), 0, &Vec::new());
    assert!(rows.is_empty());
}

#[test]
fn pages_panel_marks_selection_and_favorites() {
    let mut tree = indexmap::IndexMap::new();
    tree.insert("writing".to_string(), names(&["journal", "calendar"]));
    tree.insert("academic".to_string(), names(&["physics", "maths"]));
    let mut state = AppState::new(tree, names(&["physics"]));
    state.reduce(Event::Key(Key::Char('p')));
    state.reduce(Event::Key(Key::Down));
    let panel = pages_panel(&state);
    assert_eq!(panel.page_rows.len(), 2);
    assert_eq!(panel.page_rows[0].text, "writing");
    assert_eq!(panel.page_rows[1].text, "academic");
    assert!(!panel.page_rows[0].selected && panel.page_rows[1].selected);
    assert_eq!(panel.item_rows.len(), 2);
    assert_eq!(panel.item_rows[0].text, "physics");
    assert!(panel.item_rows[0].favorite);
    assert!(!panel.item_rows[1].favorite);
    assert!(!panel.item_rows[0].selected);
    state.reduce(Event::Key(Key::Enter));
    let drilled = pages_panel(&state);
    assert!(drilled.item_rows[0].selected);
}

#[test]
fn drilling_into_empty_page_renders_empty_panel() {
    let mut tree = indexmap::IndexMap::new();
    tree.insert("empty".to_string(), Vec::new());
    let mut state = AppState::new(tree, Vec::new());
    state.reduce(Event::Key(Key::Char('p')));
    state.reduce(Event::Key(Key::Enter));
    assert!(state.drilled);
    assert_eq!(state.item_pos, 0);
    match render_plan(&state) {
        ContentPlan::Pages(panel) => {
            assert_eq!(panel.page_rows.len(), 1);
            assert!(panel.item_rows.is_empty());
        }
        _ => panic!("pages screen expected"),
    }
}

#[test]
fn render_plan_follows_section_and_overlay() {
    let mut tree = indexmap::IndexMap::new();
    tree.insert("p".to_string(), names(&["a", "b"]));
    let mut state = AppState::new(tree, names(&["a"]));
    assert!(matches!(render_plan(&state), ContentPlan::Login));
    state.reduce(Event::Key(Key::Char('h')));
    assert!(matches!(render_plan(&state), ContentPlan::Home));
    state.reduce(Event::Key(Key::Char('t')));
    match render_plan(&state) {
        ContentPlan::Tables(rows) => {
            assert_eq!(rows.len(), 2);
            assert!(rows[0].selected);
            assert!(rows[0].favorite);
        }
        _ => panic!("tables screen expected"),
    }
    state.reduce(Event::Key(Key::Char('f')));
    match render_plan(&state) {
        ContentPlan::Favorites(rows) => {
            assert_eq!(rows.len(), 1);
            assert_eq!(rows[0].text, "a");
        }
        _ => panic!("favorites screen expected"),
    }
    state.reduce(Event::Key(Key::Char('s')));
    assert!(matches!(render_plan(&state), ContentPlan::Hidden));
}

#[test]
fn overlay_rows_highlight_cursor() {
    let results = vec![found_entry("1", "alpha"), found_entry("2", "beta")];
    let rows = overlay_rows(&results, 1);
    assert_eq!(rows.len(), 2);
    assert_eq!(rows[0].text, "alpha");
    assert_eq!(rows[1].text, "beta");
    assert!(!rows[0].selected && rows[1].selected);
}

#[test]
fn short_query_is_shown_unchanged() {
    let query: Vec<char> = "notes".chars().collect();
    assert_eq!(truncate_query(&query, 30), query);
    let boundary: Vec<char> = "x".repeat(53).chars().collect();
    assert_eq!(truncate_query(&boundary, 30), boundary);
}

#[test]
fn long_query_keeps_tail_behind_ellipsis() {
    let query: Vec<char> = "ab".chars().collect();
    let shown = truncate_query(&query, 4);
    assert_eq!(shown, vec!['.', '.', '.', 'b']);
    let longer: Vec<char> = "abcdefgh".chars().collect();
    let shown_longer = truncate_query(&longer, 5);
    assert_eq!(shown_longer.len(), 3 + 3);
    assert_eq!(&shown_longer[3..], &['f', 'g', 'h']);
}

#[test]
fn split_ctrl_separates_key_from_label() {
    let label: Vec<char> = "[m]enu".chars().collect();
    let (left, middle, right) = split_ctrl(&label).expect("bracketed label splits");
    assert_eq!(left, vec!['[']);
    assert_eq!(middle, vec!['m']);
    assert_eq!(right, "]enu".chars().collect::<Vec<char>>());
    let spaced: Vec<char> = "[esc] exit search".chars().collect();
    let (_, key, rest) = split_ctrl(&spaced).expect("bracketed label splits");
    assert_eq!(key, "esc".chars().collect::<Vec<char>>());
    assert_eq!(rest, "] exit search".chars().collect::<Vec<char>>());
}

#[test]
fn unbracketed_label_does_not_split() {
    let plain: Vec<char> = "menu".chars().collect();
    assert!(split_ctrl(&plain).is_none());
    let half: Vec<char> = "[menu".chars().collect();
    assert!(split_ctrl(&half).is_none());
}

#[test]
fn controls_sit_at_exact_columns() {
    let d = get_dimensions(80, 24);
    let plan = controls_plan(false, false, &d);
    assert_eq!(plan.line_x, 10);
    assert_eq!(plan.line_y, 22);
    assert_eq!(plan.line_width, 60);
    let texts: Vec<&str> = plan.items.iter().map(|i| i.text.as_str()).collect();
    assert_eq!(texts, vec!["[m]enu", "[q]uit", "[h]elp", " [l]ogin"]);
    let xs: Vec<u16> = plan.items.iter().map(|i| i.x).collect();
    assert_eq!(xs, vec![10, 64, 57, 48]);
    assert!(plan.items.iter().all(|i| i.y == 23));
}

#[test]
fn auth_flips_login_label() {
    let d = get_dimensions(80, 24);
    let plan = controls_plan(false, true, &d);
    assert_eq!(plan.items[3].text, "[l]ogout");
}

#[test]
fn search_mode_shows_exit_label_only() {
    let d = get_dimensions(80, 24);
    let plan = controls_plan(true, false, &d);
    assert_eq!(plan.items.len(), 1);
    assert_eq!(plan.items[0].text, "[esc] exit search");
    assert_eq!(plan.items[0].x, 10);
}

#[test]
fn home_options_stack_around_center() {
    let d = get_dimensions(80, 24);
    let items = home_items(&d);
    let texts: Vec<&str> = items.iter().map(|i| i.text.as_str()).collect();
    assert_eq!(texts, vec!["[f]avorites", "[p]ages", "[t]ables", "[r]ecents"]);
    assert!(items.iter().all(|i| i.x == 34));
    let ys: Vec<u16> = items.iter().map(|i| i.y).collect();
    assert_eq!(ys, vec![9, 11, 13, 15]);
}

#[test]
fn overlay_geometry_centers_the_box() {
    let d = get_dimensions(80, 24);
    let g = overlay_geometry(&d);
    assert_eq!(g.x_left, 10);
    assert_eq!(g.y_top, 1);
    assert_eq!(g.box_width, 30);
    assert_eq!(g.x_search, 11);
}

#[test]
fn centered_text_starts_half_its_length_left_of_center() {
    assert_eq!(ncli::dims::centered_x(40, 14), 33);
    assert_eq!(ncli::dims::centered_x(40, 15), 33);
    assert_eq!(ncli::dims::centered_x(5, 10), 0);
}
