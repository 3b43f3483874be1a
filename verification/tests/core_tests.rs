use ncli::account::{get_access_token, User};
use ncli::resize::ResizeFlag;
use ncli::tree::flat_items;
use ncli::wrap::{next_index, prev_index};

#[test]
fn access_token_comes_from_stored_user() {
    let user = User {
        access_token: "SECRET-REDACTED".to_string(),
        bot_id: "bot".to_string(),
        user_id: "uid".to_string(),
        user_name: "name".to_string(),
        user_email: "mail@example.com".to_string(),
        workspace_id: "wid".to_string(),
    };
    assert_eq!(get_access_token(Some(user)), "SECRET-REDACTED");
}

#[test]
fn missing_user_yields_empty_token() {
    assert_eq!(get_access_token(None), "");
}

#[test]
fn resize_burst_coalesces_into_one_repaint() {
    let mut flag = ResizeFlag::new();
    flag.observe(80, 24, 81, 24);
    flag.observe(81, 24, 82, 24);
    flag.observe(82, 24, 82, 30);
    assert!(flag.take());
    assert!(!flag.take());
}

#[test]
fn unchanged_size_raises_nothing() {
    let mut flag = ResizeFlag::new();
    flag.observe(80, 24, 80, 24);
    assert!(!flag.take());
}

#[test]
fn flat_items_keeps_tree_order() {
    let mut tree = indexmap::IndexMap::new();
    tree.insert(
        "writing".to_string(),
        vec!["journal".to_string(), "calendar".to_string()],
    );
    tree.insert("empty".to_string(), Vec::new());
    tree.insert("hobbies".to_string(), vec!["music".to_string()]);
    let flat = flat_items(&tree);
    assert_eq!(flat, vec!["journal", "calendar", "music"]);
}

#[test]
fn next_and_prev_wrap_cyclically() {
    assert_eq!(next_index(0, 5), 1);
    assert_eq!(next_index(4, 5), 0);
    assert_eq!(prev_index(0, 5), 4);
    assert_eq!(prev_index(3, 5), 2);
}

#[test]
fn next_and_prev_hold_zero_on_empty_axis() {
    assert_eq!(next_index(0, 0), 0);
    assert_eq!(prev_index(0, 0), 0);
}

#[test]
fn repeating_next_n_times_returns_to_start() {
    let n: usize = 6;
    for start in 0..n {
        let mut at = start;
        for _ in 0..n {
            at = next_index(at, n);
        }
        assert_eq!(at, start);
    }
}
