use ncli::search::{match_search, Entry, Object};

fn candidate(k: &str, title: &str) -> Entry {
    Entry {
        key: k.to_string(),
        object: Object {
            id: k.to_string(),
            parent_id: None,
            title: title.to_string(),
            object_type: "page".to_string(),
            children: Vec::new(),
        },
    }
}

fn titles(entries: &[Entry]) -> Vec<String> {
    entries.iter().map(|e| e.object.title.clone()).collect()
}

fn keys(entries: &[Entry]) -> Vec<String> {
    entries.iter().map(|e| e.key.clone()).collect()
}

#[test]
fn jo_ranks_journal_first() {
    let query: Vec<char> = "jo".chars().collect();
    let ranked = match_search(
        &query,
        vec![
            candidate("1", "Journal"),
            candidate("2", "Notes"),
            candidate("3", "Projects"),
        ],
    );
    assert_eq!(ranked[0].object.title, "Journal");
}

#[test]
fn ranking_reorders_candidates() {
    let query: Vec<char> = "jo".chars().collect();
    let ranked = match_search(
        &query,
        vec![
            candidate("n", "Notes"),
            candidate("p", "Projects"),
            candidate("j", "Journal"),
        ],
    );
    assert_eq!(ranked[0].object.title, "Journal");
}

#[test]
fn empty_query_keeps_insertion_order() {
    let query: Vec<char> = Vec::new();
    let ranked = match_search(
        &query,
        vec![
            candidate("3", "gamma"),
            candidate("1", "alpha"),
            candidate("2", "beta"),
        ],
    );
    assert_eq!(titles(&ranked), vec!["gamma", "alpha", "beta"]);
    assert_eq!(keys(&ranked), vec!["3", "1", "2"]);
}

#[test]
fn ranking_twice_gives_same_order() {
    let query: Vec<char> = "al".chars().collect();
    let once = match_search(
        &query,
        vec![
            candidate("1", "alpha"),
            candidate("2", "animal"),
            candidate("3", "metal"),
            candidate("4", "gamma"),
            candidate("5", "altair"),
        ],
    );
    let order_once = keys(&once);
    let twice = match_search(&query, once);
    assert_eq!(keys(&twice), order_once);
}

#[test]
fn no_match_excludes_candidate() {
    let query: Vec<char> = "zq".chars().collect();
    let ranked = match_search(
        &query,
        vec![candidate("1", "alpha"), candidate("2", "zebra quest")],
    );
    assert_eq!(keys(&ranked), vec!["2"]);
}

#[test]
fn all_unmatched_gives_empty_ranking() {
    let query: Vec<char> = "xyz".chars().collect();
    let ranked = match_search(
        &query,
        vec![candidate("1", "alpha"), candidate("2", "beta")],
    );
    assert!(ranked.is_empty());
}

#[test]
fn duplicate_titles_stay_distinguished_and_stable() {
    let query: Vec<char> = "jo".chars().collect();
    let ranked = match_search(
        &query,
        vec![
            candidate("first", "Journal"),
            candidate("second", "Journal"),
        ],
    );
    assert_eq!(keys(&ranked), vec!["first", "second"]);
}

#[test]
fn substring_match_outranks_scattered_match() {
    let query: Vec<char> = "abc".chars().collect();
    let ranked = match_search(
        &query,
        vec![
            candidate("scattered", "axbxcx"),
            candidate("exact", "abcdef"),
        ],
    );
    assert_eq!(ranked[0].key, "exact");
}
