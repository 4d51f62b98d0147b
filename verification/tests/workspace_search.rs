use mica::search::results::WorkspaceSearchOptions;
use mica::search::workspace::{
    build_globs, build_matcher, path_allowed, search_file_bytes, search_text, WorkspaceSearchError,
};

fn options(query: &str) -> WorkspaceSearchOptions {
    WorkspaceSearchOptions { query: query.to_owned(), ..Default::default() }
}

#[test]
fn whole_word_search_is_case_insensitive_by_default() {
    let mut opts = options("hello");
    opts.whole_word = true;
    let pattern = build_matcher(&opts).unwrap();
    let mut out = Vec::new();
    search_text("src/b.rs", "Hello hello_world HELLO\n", &pattern, !opts.case_sensitive, &mut out);
    assert_eq!(out.len(), 2);
    assert_eq!((out[0].line, out[0].column), (1, 1));
    assert_eq!((out[1].column, out[1].match_start, out[1].match_end), (19, 18, 23));
    assert_eq!(out[1].line_text, "Hello hello_world HELLO");
    assert_eq!(out[1].path, "src/b.rs");
}

#[test]
fn literal_queries_are_escaped_and_columns_count_chars() {
    let pattern = build_matcher(&options("a.c")).unwrap();
    let mut out = Vec::new();
    search_text("f", "日本 a.c abc\nx\na.c", &pattern, true, &mut out);
    assert_eq!(out.len(), 2);
    assert_eq!((out[0].line, out[0].column, out[0].match_start), (1, 4, 7));
    assert_eq!((out[1].line, out[1].column), (3, 1));
}

#[test]
fn invalid_regex_is_reported() {
    let mut opts = options("[");
    opts.regex = true;
    match build_matcher(&opts) {
        Err(error @ WorkspaceSearchError::InvalidRegex(_)) => {
            assert!(error.message().starts_with("invalid search expression: "));
        }
        other => panic!("expected an invalid expression, got {other:?}"),
    }
}

#[test]
fn globs_filter_paths() {
    let includes = build_globs(&vec!["src/**".to_owned()]).unwrap();
    let excludes = build_globs(&vec!["**/*.md".to_owned()]).unwrap();
    assert!(path_allowed("src/a.rs", &includes, &None));
    assert!(!path_allowed("docs/a.rs", &includes, &None));
    assert!(!path_allowed("src/readme.md", &includes, &excludes));
    assert!(path_allowed("anything", &None, &None));
    assert_eq!(build_globs(&Vec::new()).unwrap(), None);
    match build_globs(&vec!["ok/*".to_owned(), "[".to_owned()]) {
        Err(WorkspaceSearchError::InvalidGlob { glob, .. }) => assert_eq!(glob, "["),
        other => panic!("expected an invalid glob, got {other:?}"),
    }
}

#[test]
fn binary_files_are_skipped_unless_asked() {
    let pattern = build_matcher(&options("hello")).unwrap();
    let mut out = Vec::new();
    assert!(!search_file_bytes("image.bin", b"hello\0world", false, &pattern, true, &mut out));
    assert!(out.is_empty());
    assert!(search_file_bytes("image.bin", b"hello\0world", true, &pattern, true, &mut out));
    assert_eq!(out.len(), 1);
    assert!(search_file_bytes("a.txt", b"say HELLO", false, &pattern, true, &mut out));
    assert_eq!(out.len(), 2);
}

#[test]
fn the_first_glob_that_does_not_compile_is_reported_and_valid_lists_are_kept() {
    match build_globs(&vec!["*.rs".to_owned(), "a[".to_owned(), "b[".to_owned()]) {
        Err(WorkspaceSearchError::InvalidGlob { glob, .. }) => assert_eq!(glob, "a["),
        other => panic!("expected an invalid glob, got {other:?}"),
    }
    assert_eq!(
        build_globs(&vec!["*.rs".to_owned(), "docs/**".to_owned()]).unwrap(),
        Some(vec!["*.rs".to_owned(), "docs/**".to_owned()])
    );
}

#[test]
fn literal_queries_escape_every_meta_character() {
    let pattern = build_matcher(&options(r"a.b*(c)|[d]{e}^$#&-~\%/")).unwrap();
    assert_eq!(pattern, r"a\.b\*\(c\)\|\[d\]\{e\}\^\$\#\&\-\~\\%/");
}
