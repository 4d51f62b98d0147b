use mica::app::ColumnHint;
use mica::editor::view::BufferSearchState;
use mica::navigation::{current_navigation_location, NavigationHistory};
use ropey::Rope;

#[test]
fn navigation_history_moves_back_and_forward_between_files() {
    let first_text = Rope::from_str("first\nline");
    let second_text = Rope::from_str("");
    let mut history = NavigationHistory::new();
    let origin = current_navigation_location(Some("/w/first.rs"), &first_text, 7);
    history.record_navigation_origin(origin);
    let here = current_navigation_location(Some("/w/second.rs"), &second_text, 0);
    let target = history.navigate_history(true, here).unwrap();
    assert_eq!(target.path, "/w/first.rs");
    assert_eq!(target.line, 2);
    assert_eq!(target.column, ColumnHint::Chars(2));
    let here = current_navigation_location(Some("/w/first.rs"), &first_text, 7);
    let target = history.navigate_history(false, here).unwrap();
    assert_eq!(target.path, "/w/second.rs");
    assert_eq!(target.line, 1);
}

#[test]
fn empty_history_explains_itself() {
    let mut history = NavigationHistory::new();
    assert_eq!(history.navigate_history(true, None).unwrap_err(), "No previous navigation location");
    assert_eq!(history.navigate_history(false, None).unwrap_err(), "No forward navigation location");
    assert!(current_navigation_location(None, &Rope::from_str("x"), 0).is_none());
}

#[test]
fn history_keeps_the_latest_hundred_origins() {
    let text = Rope::from_str("a\nb\nc");
    let mut history = NavigationHistory::new();
    for _ in 0..150 {
        history.record_navigation_origin(current_navigation_location(Some("/w/old.rs"), &text, 0));
    }
    history.record_navigation_origin(current_navigation_location(Some("/w/new.rs"), &text, 99));
    let target = history.navigate_history(true, None).unwrap();
    assert_eq!((target.path.as_str(), target.line, target.column), ("/w/new.rs", 3, ColumnHint::Chars(2)));
    let mut count = 1;
    while history.navigate_history(true, None).is_ok() {
        count += 1;
    }
    assert_eq!(count, 100);
}

#[test]
fn incremental_search_cycles_through_matches() {
    let mut search = BufferSearchState::default();
    assert_eq!(search.select_search_match(1), None);
    search.restart("ab".to_owned(), 3);
    assert_eq!((search.query.as_str(), search.generation, search.current), ("ab", 3, 0));
    search.matches = vec![0..2, 5..7, 9..11];
    assert_eq!(search.select_search_match(1), Some((5, 7)));
    assert_eq!(search.select_search_match(1), Some((9, 11)));
    assert_eq!(search.select_search_match(1), Some((0, 2)));
    assert_eq!(search.select_search_match(-1), Some((9, 11)));
    assert_eq!(search.select_search_match(0), Some((9, 11)));
    assert_eq!(search.current, 2);
}
