use mica::editor::syntax::{classify_capture, HighlightKind, SyntaxLanguage};
use mica::editor::movement::{display_column, move_down, move_left, move_right, move_up};
use mica::editor::wrap::{
    move_visual_vertical, visible_visual_rows, visual_index_for_offset, visual_row_count,
    wrapped_line_ranges,
};
use ropey::Rope;
use unicode_segmentation::UnicodeSegmentation;

#[test]
fn wraps_without_splitting_unicode_graphemes() {
    assert_eq!(wrapped_line_ranges("ab日本👩‍💻z", 4, 4, false), vec![0..3, 3..7, 7..8]);
}

#[test]
fn empty_and_line_break_only_lines_have_one_empty_row() {
    assert_eq!(wrapped_line_ranges("", 4, 4, false), vec![0..0]);
    assert_eq!(wrapped_line_ranges("\r\n", 4, 4, false), vec![0..0]);
}

#[test]
fn tabs_reach_the_next_tab_stop() {
    assert_eq!(wrapped_line_ranges("a\tb", 4, 4, false), vec![0..2, 2..3]);
    assert_eq!(wrapped_line_ranges("abc", 0, 4, false), vec![0..1, 1..2, 2..3]);
}

#[test]
fn languages_come_from_extensions_and_names() {
    assert_eq!(SyntaxLanguage::from_extension("rs"), Some(SyntaxLanguage::Rust));
    assert_eq!(SyntaxLanguage::from_extension("hpp"), Some(SyntaxLanguage::Cpp));
    assert_eq!(SyntaxLanguage::from_extension("txt"), None);
    assert_eq!(SyntaxLanguage::from_language_name("c_cpp"), Some(SyntaxLanguage::Cpp));
    assert_eq!(SyntaxLanguage::from_language_name("shell"), Some(SyntaxLanguage::Bash));
    assert_eq!(SyntaxLanguage::Css.comment_tokens(), Some(("/*", Some("*/"))));
    assert_eq!(SyntaxLanguage::Json.comment_tokens(), None);
}

#[test]
fn captures_are_classified_by_root_name() {
    assert_eq!(classify_capture("keyword.control"), Some(HighlightKind::Keyword));
    assert_eq!(classify_capture("text.literal"), Some(HighlightKind::String));
    assert_eq!(classify_capture("punctuation.delimiter"), None);
    assert_eq!(classify_capture("boolean"), Some(HighlightKind::Constant));
}

#[test]
fn maps_offsets_and_visible_rows_consistently() {
    let text = Rope::from_str("abcdef\nxy\n");
    assert_eq!(visual_row_count(&text, 3, 4, false), 4);
    assert_eq!(visual_index_for_offset(&text, 4, 3, 4, false), 1);
    let rows = visible_visual_rows(&text, 1, 2, 3, 4, false);
    assert_eq!(rows[0].range_in_line, 3..6);
    assert_eq!(rows[1].line_index, 1);
}

#[test]
fn vertical_movement_uses_wrapped_visual_rows() {
    let text = Rope::from_str("abcdef\n");
    assert_eq!(move_visual_vertical(&text, 1, None, 3, 4, false, true).0, 4);
    assert_eq!(move_visual_vertical(&text, 4, None, 3, 4, false, false).0, 1);
}

#[test]
fn a_zero_count_still_yields_one_visible_row() {
    let text = Rope::from_str("ab\ncd");
    let rows = visible_visual_rows(&text, 1, 0, 10, 4, false);
    assert_eq!(rows.len(), 1);
    assert_eq!(rows[0].line_index, 1);
    assert_eq!(rows[0].line_start_char, 3);
    assert!(visible_visual_rows(&text, 5, 3, 10, 4, false).is_empty());
}

#[test]
fn visual_moves_stop_at_the_first_and_last_rows() {
    let text = Rope::from_str("abcdef");
    assert_eq!(move_visual_vertical(&text, 1, None, 3, 4, false, false), (1, 1));
    assert_eq!(move_visual_vertical(&text, 4, Some(2), 3, 4, false, true), (4, 2));
    assert_eq!(visual_index_for_offset(&text, 100, 3, 4, false), 1);
}

#[test]
fn grapheme_movement_treats_emoji_as_one_stop() {
    let rope = Rope::from_str("a👩‍💻日");
    assert_eq!(move_right(&rope, 1), 4);
    assert_eq!(move_left(&rope, 4), 1);
}

#[test]
fn display_width_handles_cjk_and_tabs() {
    assert_eq!(display_column("a\t日本", 4, 4), 8);
}

fn reference_move_left(text: &Rope, char_offset: usize) -> usize {
    if char_offset == 0 {
        return 0;
    }
    let prefix = text.slice(..char_offset).to_string();
    prefix
        .grapheme_indices(true)
        .next_back()
        .map_or(0, |(byte, _)| prefix[..byte].chars().count())
}

fn reference_move_right(text: &Rope, char_offset: usize) -> usize {
    if char_offset >= text.len_chars() {
        return text.len_chars();
    }
    let suffix = text.slice(char_offset..).to_string();
    suffix
        .graphemes(true)
        .next()
        .map_or(char_offset, |grapheme| char_offset + grapheme.chars().count())
}

#[test]
fn windowed_movement_matches_full_scan_reference_on_a_large_buffer() {
    let mut content = "line of plain ascii text ".repeat(200);
    content.push_str("日本語 emoji 👩‍💻 more 日本語 ");
    content.push_str(&"x".repeat(50));
    let rope = Rope::from_str(&content);
    let len = rope.len_chars();
    let mut probes: Vec<usize> = (0..=20).collect();
    probes.extend((len.saturating_sub(20)..=len).collect::<Vec<_>>());
    let middle = len / 2;
    probes.extend((middle.saturating_sub(20)..=(middle + 20).min(len)).collect::<Vec<_>>());
    for offset in probes {
        assert_eq!(
            move_left(&rope, offset),
            reference_move_left(&rope, offset),
            "move_left mismatch at offset {offset}"
        );
        assert_eq!(
            move_right(&rope, offset),
            reference_move_right(&rope, offset),
            "move_right mismatch at offset {offset}"
        );
    }
}

#[test]
fn vertical_moves_keep_the_display_column() {
    let rope = Rope::from_str("abcdef\nx\n日本語");
    assert_eq!(move_down(&rope, 4, None, 4), (8, 4));
    assert_eq!(move_down(&rope, 8, Some(4), 4), (11, 4));
    assert_eq!(move_up(&rope, 11, Some(4), 4), (8, 4));
    assert_eq!(move_up(&rope, 2, None, 4), (2, 2));
    assert_eq!(move_down(&rope, 12, None, 4), (12, 6));
}

#[test]
fn words_that_are_names_and_extensions_agree() {
    for word in ["c", "cpp", "json", "jsonc", "markdown", "toml", "bash", "tsx", "html", "css"] {
        assert_eq!(SyntaxLanguage::from_extension(word), SyntaxLanguage::from_language_name(word));
    }
}
