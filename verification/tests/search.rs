use std::sync::atomic::AtomicU64;

use mica::search::buffer::{find_matches, literal_matches};
use mica::search::files::{fuzzy_files, fuzzy_rank, rank_file_matches};
use mica::search::results::FileMatch;

#[test]
fn reports_unicode_scalar_ranges() {
    let token = AtomicU64::new(1);
    assert_eq!(find_matches("日a日a", "日a", &token, 1, 100), vec![0..2, 2..4]);
}

#[test]
fn cancellation_discards_partial_results() {
    let token = AtomicU64::new(2);
    assert!(find_matches("abc abc", "abc", &token, 1, 100).is_empty());
}

#[test]
fn matches_do_not_overlap_and_respect_the_limit() {
    assert_eq!(literal_matches("aaaa", "aa", 0), vec![0..2, 2..4]);
    assert_eq!(literal_matches("aaaa", "aa", 1), vec![0..2]);
    assert!(literal_matches("abc", "", 5).is_empty());
}

#[test]
fn fuzzy_search_ranks_matching_paths() {
    let cancellation = AtomicU64::new(1);
    let matches = fuzzy_files(
        "mnr",
        vec!["docs/manual.md".to_owned(), "src/main.rs".to_owned(), "src/lib.rs".to_owned()],
        &cancellation,
        1,
        20,
    );
    assert_eq!(matches[0].path, "src/main.rs");
}

#[test]
fn newer_generation_cancels_search() {
    let cancellation = AtomicU64::new(2);
    assert!(fuzzy_files("src", vec!["src/main.rs".to_owned()], &cancellation, 1, 20).is_empty());
}

#[test]
fn empty_fuzzy_query_lists_the_first_paths_unscored() {
    let cancellation = AtomicU64::new(2);
    let matches = fuzzy_files("", vec!["b".to_owned(), "a".to_owned(), "c".to_owned()], &cancellation, 1, 2);
    assert_eq!(matches.len(), 2);
    assert_eq!((matches[0].path.as_str(), matches[0].score), ("b", 0));
    assert_eq!(matches[1].path, "a");
}

#[test]
fn fuzzy_results_are_limited() {
    let cancellation = AtomicU64::new(1);
    let paths = vec!["a/x.rs".to_owned(), "x.rs".to_owned(), "b/c/x.rs".to_owned()];
    let matches = fuzzy_files("x", paths, &cancellation, 1, 2);
    assert_eq!(matches.len(), 2);
    assert!(matches[0].score >= matches[1].score);
}

#[test]
fn scored_matches_rank_by_score_then_depth_then_path() {
    let m = |path: &str, score: u32| FileMatch { path: path.to_owned(), score };
    let ranked = rank_file_matches(vec![m("b/x", 5), m("z", 5), m("a", 9), m("a/x", 5), m("q", 1)], 4);
    let order: Vec<(&str, u32)> = ranked.iter().map(|f| (f.path.as_str(), f.score)).collect();
    assert_eq!(order, vec![("a", 9), ("z", 5), ("a/x", 5), ("b/x", 5)]);
}

#[test]
fn fuzzy_rank_agrees_with_an_uncancelled_search() {
    let paths = vec!["docs/manual.md".to_owned(), "src/main.rs".to_owned(), "src/lib.rs".to_owned()];
    let cancellation = AtomicU64::new(1);
    let ranked = fuzzy_rank("mnr", &paths, 20);
    assert_eq!(ranked[0].path, "src/main.rs");
    assert_eq!(ranked, fuzzy_files("mnr", paths.clone(), &cancellation, 1, 20));
    assert_eq!(fuzzy_rank("", &paths, 1).len(), 1);
}

#[test]
fn matches_are_exact_while_the_generation_holds() {
    assert_eq!(mica::search::buffer::find_matches_with("日a日a", "日a", &|| 1u64, 1, 100), vec![0..2, 2..4]);
    assert!(mica::search::buffer::find_matches_with("日a日a", "日a", &|| 2u64, 1, 100).is_empty());
}
