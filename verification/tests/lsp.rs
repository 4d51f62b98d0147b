use mica::lsp::client::path_uri;
use mica::lsp::position::{
    char_offset_to_position, position_to_char_offset, utf16_column_to_char, Position,
};
use mica::lsp::snippet::expand_lsp_snippet;
use mica::lsp::uri::{file_uri, file_uri_to_path};

#[test]
fn converts_utf16_positions_at_unicode_boundaries() {
    let text = "a😀日\nβ";
    assert_eq!(char_offset_to_position(text, 0), Position::new(0, 0));
    assert_eq!(char_offset_to_position(text, 2), Position::new(0, 3));
    assert_eq!(char_offset_to_position(text, 3), Position::new(0, 4));
    assert_eq!(char_offset_to_position(text, 5), Position::new(1, 1));
    assert_eq!(position_to_char_offset(text, Position::new(0, 3)), 2);
    assert_eq!(position_to_char_offset(text, Position::new(0, 4)), 3);
    assert_eq!(position_to_char_offset(text, Position::new(1, 1)), 5);
}

#[test]
fn clamps_mid_surrogate_and_out_of_range_positions() {
    let text = "😀x";
    assert_eq!(position_to_char_offset(text, Position::new(0, 1)), 0);
    assert_eq!(position_to_char_offset(text, Position::new(9, 0)), 2);
}

#[test]
fn utf16_columns_map_to_chars() {
    assert_eq!(utf16_column_to_char("😀x", 2), 1);
    assert_eq!(utf16_column_to_char("😀x", 3), 2);
    assert_eq!(utf16_column_to_char("ab", 10), 2);
}

#[test]
fn snippet_defaults_expand_and_cursor_goes_to_first_stop() {
    let (text, cursor) = expand_lsp_snippet("fn ${1:name}(${2:args}) {$0}");
    assert_eq!(text, "fn name(args) {}");
    assert_eq!(cursor, Some(3));
}

#[test]
fn snippet_final_stop_is_used_without_numbered_ones() {
    let (text, cursor) = expand_lsp_snippet("println!($0)");
    assert_eq!(text, "println!()");
    assert_eq!(cursor, Some(9));
}

#[test]
fn snippet_escapes_and_stray_dollars_stay_text() {
    assert_eq!(expand_lsp_snippet("\\$x $ a$"), ("$x $ a$".to_owned(), None));
    assert_eq!(expand_lsp_snippet("${x}"), ("${x}".to_owned(), None));
    let (text, cursor) = expand_lsp_snippet("${2:b}${1}");
    assert_eq!(text, "b");
    assert_eq!(cursor, Some(1));
}

#[test]
fn file_uris_round_trip_through_percent_encoding() {
    let uri = file_uri("/tmp/a b/日.rs");
    assert_eq!(uri, "file:///tmp/a%20b/%E6%97%A5.rs");
    assert_eq!(file_uri_to_path(&uri), Some("/tmp/a b/日.rs".to_owned()));
    assert_eq!(file_uri_to_path("http://x"), None);
    assert_eq!(file_uri_to_path("file:///bad%zz"), None);
    assert_eq!(file_uri_to_path("file:///end%4"), Some("/end%4".to_owned()));
}

#[test]
fn server_uris_escape_spaces_only() {
    assert_eq!(path_uri("/w s/日"), "file:///w%20s/日");
}

#[test]
fn char_offsets_survive_a_round_trip_through_positions() {
    let text = "a😀日\nβ\n\n😀x";
    for offset in 0..=text.chars().count() {
        assert_eq!(position_to_char_offset(text, char_offset_to_position(text, offset)), offset);
    }
}
