use mica::buffer::selection::{CharOffset, Selection};
use mica::buffer::text_buffer::{
    detect_line_ending, DiskRead, DiskState, ExternalChangeOutcome, LineEnding, TextBuffer,
};

#[test]
fn deleting_moves_by_grapheme_cluster() {
    let mut buffer = TextBuffer::empty(None, false);
    buffer.insert("A👩‍💻e\u{301}日").unwrap();
    buffer.delete_backward().unwrap();
    assert_eq!(buffer.text_string(), "A👩‍💻e\u{301}");
    buffer.delete_backward().unwrap();
    assert_eq!(buffer.text_string(), "A👩‍💻");
    buffer.delete_backward().unwrap();
    assert_eq!(buffer.text_string(), "A");
}

#[test]
fn undo_redo_and_dirty_state_track_saved_content() {
    let mut buffer = TextBuffer::empty(None, false);
    buffer.insert("日本語").unwrap();
    assert!(buffer.is_dirty());
    assert!(buffer.undo().unwrap());
    assert!(!buffer.is_dirty());
    assert!(buffer.redo().unwrap());
    assert_eq!(buffer.text_string(), "日本語");
}

#[test]
fn selection_replacement_is_one_edit() {
    let mut buffer = TextBuffer::empty(None, false);
    buffer.insert("abcdef").unwrap();
    buffer.set_selection(Selection { anchor: CharOffset(2), head: CharOffset(5) });
    buffer.insert("X").unwrap();
    assert_eq!(buffer.text_string(), "abXf");
    buffer.undo().unwrap();
    assert_eq!(buffer.text_string(), "abcdef");
}

#[test]
fn newline_inherits_leading_indentation_as_one_undoable_edit() {
    let mut buffer = TextBuffer::empty(None, false);
    buffer.insert("\t  value").unwrap();
    buffer.insert_newline_with_indent().unwrap();
    assert_eq!(buffer.text_string(), "\t  value\n\t  ");
    buffer.undo().unwrap();
    assert_eq!(buffer.text_string(), "\t  value");
}

#[test]
fn selected_lines_indent_and_outdent_as_single_edits() {
    let mut buffer = TextBuffer::empty(None, false);
    buffer.insert("one\n  two\nthree").unwrap();
    buffer.set_selection(Selection { anchor: CharOffset(0), head: CharOffset(9) });
    buffer.change_selected_line_indent("    ", false).unwrap();
    assert_eq!(buffer.text_string(), "    one\n      two\nthree");
    buffer.undo().unwrap();
    assert_eq!(buffer.text_string(), "one\n  two\nthree");
    buffer.set_selection(Selection { anchor: CharOffset(0), head: CharOffset(9) });
    buffer.change_selected_line_indent("    ", true).unwrap();
    assert_eq!(buffer.text_string(), "one\ntwo\nthree");
}

#[test]
fn line_comment_toggle_preserves_indentation_and_line_endings() {
    let mut buffer = TextBuffer::empty(None, false);
    buffer.insert("  one\r\n\ttwo\r\n").unwrap();
    buffer.set_selection(Selection { anchor: CharOffset(0), head: CharOffset(buffer.text().len_chars()) });
    buffer.toggle_selected_line_comment("//", None).unwrap();
    assert_eq!(buffer.text_string(), "  // one\r\n\t// two\r\n");
    buffer.toggle_selected_line_comment("//", None).unwrap();
    assert_eq!(buffer.text_string(), "  one\r\n\ttwo\r\n");
}

#[test]
fn block_comments_wrap_each_line() {
    let mut buffer = TextBuffer::empty(None, false);
    buffer.insert("a\n\nb").unwrap();
    buffer.select_all();
    buffer.toggle_selected_line_comment("<!--", Some("-->")).unwrap();
    assert_eq!(buffer.text_string(), "<!-- a -->\n\n<!-- b -->");
    buffer.select_all();
    buffer.toggle_selected_line_comment("<!--", Some("-->")).unwrap();
    assert_eq!(buffer.text_string(), "a\n\nb");
}

#[test]
fn line_duplicate_move_delete_are_each_undoable() {
    let mut buffer = TextBuffer::empty(None, false);
    buffer.insert("one\ntwo\nthree\n").unwrap();
    buffer.set_selection(Selection::caret(CharOffset(5)));
    buffer.duplicate_selected_lines().unwrap();
    assert_eq!(buffer.text_string(), "one\ntwo\ntwo\nthree\n");
    buffer.undo().unwrap();
    buffer.set_selection(Selection::caret(CharOffset(5)));
    buffer.move_selected_lines(false).unwrap();
    assert_eq!(buffer.text_string(), "two\none\nthree\n");
    buffer.undo().unwrap();
    buffer.set_selection(Selection::caret(CharOffset(5)));
    buffer.move_selected_lines(true).unwrap();
    assert_eq!(buffer.text_string(), "one\nthree\ntwo\n");
    buffer.undo().unwrap();
    buffer.set_selection(Selection::caret(CharOffset(5)));
    buffer.delete_selected_lines().unwrap();
    assert_eq!(buffer.text_string(), "one\nthree\n");
    buffer.undo().unwrap();
    assert_eq!(buffer.text_string(), "one\ntwo\nthree\n");
}

#[test]
fn save_formatting_trims_whitespace_and_uses_existing_line_ending() {
    let mut buffer = TextBuffer::recovered(None, "", None, false, LineEnding::CrLf, false);
    buffer.insert("one  \r\ntwo\t").unwrap();
    assert!(buffer.apply_save_formatting(true, true).unwrap());
    assert_eq!(buffer.text_string(), "one\r\ntwo\r\n");
    buffer.undo().unwrap();
    assert_eq!(buffer.text_string(), "one  \r\ntwo\t");
}

#[test]
fn save_formatting_of_formatted_text_changes_nothing() {
    let mut buffer = TextBuffer::empty(None, false);
    buffer.insert("done\n").unwrap();
    assert!(!buffer.apply_save_formatting(true, true).unwrap());
    assert!(!buffer.apply_save_formatting(false, false).unwrap());
    assert_eq!(buffer.text_string(), "done\n");
}

#[test]
fn auto_pair_places_caret_inside_and_surrounds_selection() {
    let mut buffer = TextBuffer::empty(None, false);
    buffer.insert_auto_pair('(', ')').unwrap();
    assert_eq!(buffer.text_string(), "()");
    assert_eq!(buffer.selection().head, CharOffset(1));
    assert!(buffer.skip_matching_closer(')'));
    buffer.insert("word").unwrap();
    buffer.set_selection(Selection { anchor: CharOffset(2), head: CharOffset(6) });
    buffer.insert_auto_pair('"', '"').unwrap();
    assert_eq!(buffer.text_string(), "()\"word\"");
    assert_eq!(buffer.selected_text().as_deref(), Some("word"));
}

#[test]
fn replacing_all_ranges_is_one_undoable_edit() {
    let mut buffer = TextBuffer::empty(None, false);
    buffer.insert("one two one").unwrap();
    assert_eq!(buffer.replace_all_ranges(&[0..3, 8..11], "1").unwrap(), 2);
    assert_eq!(buffer.text_string(), "1 two 1");
    buffer.undo().unwrap();
    assert_eq!(buffer.text_string(), "one two one");
}

#[test]
fn heterogeneous_text_edits_are_applied_as_one_edit() {
    let mut buffer = TextBuffer::empty(None, false);
    buffer.insert("let  x=1;").unwrap();
    assert_eq!(
        buffer.apply_text_edits(vec![(3..5, " ".to_owned()), (6..7, " = ".to_owned())]).unwrap(),
        2
    );
    assert_eq!(buffer.text_string(), "let x = 1;");
    buffer.undo().unwrap();
    assert_eq!(buffer.text_string(), "let  x=1;");
}

#[test]
fn text_edits_are_applied_in_range_order_and_overlaps_skipped() {
    let mut buffer = TextBuffer::empty(None, false);
    buffer.insert("abcdef").unwrap();
    let applied = buffer
        .apply_text_edits(vec![(4..5, "E".to_owned()), (0..2, "AB".to_owned()), (1..3, "x".to_owned())])
        .unwrap();
    assert_eq!(applied, 2);
    assert_eq!(buffer.text_string(), "ABcdEf");
    assert_eq!(buffer.apply_text_edits(vec![]).unwrap(), 0);
}

#[test]
fn selected_text_and_cut_preserve_unicode_boundaries() {
    let mut buffer = TextBuffer::empty(None, false);
    buffer.insert("A日本👩‍💻Z").unwrap();
    buffer.set_selection(Selection { anchor: CharOffset(1), head: CharOffset(3) });
    assert_eq!(buffer.selected_text().as_deref(), Some("日本"));
    assert!(buffer.delete_selection().unwrap());
    assert_eq!(buffer.text_string(), "A👩‍💻Z");
}

#[test]
fn read_only_buffers_refuse_edits() {
    let mut buffer = TextBuffer::recovered(None, "fixed", None, false, LineEnding::Lf, true);
    assert!(buffer.insert("x").is_err());
    assert!(buffer.change_selected_line_indent("  ", false).is_err());
    assert_eq!(buffer.text_string(), "fixed");
}

#[test]
fn save_preserves_bom_crlf_and_trailing_newline() {
    let mut buffer = TextBuffer::from_disk_bytes("file.txt".to_owned(), b"\xEF\xBB\xBFone\r\ntwo\r\n", false, false);
    assert!(buffer.has_bom());
    assert_eq!(buffer.line_ending(), LineEnding::CrLf);
    buffer.set_selection(Selection::caret(CharOffset(buffer.text().len_chars())));
    buffer.insert("three").unwrap();
    let snapshot = buffer.prepare_save().unwrap();
    assert_eq!(snapshot.bytes, b"\xEF\xBB\xBFone\r\ntwo\r\nthree".to_vec());
    buffer.complete_save(&snapshot);
    assert!(!buffer.is_dirty());
}

#[test]
fn external_change_never_replaces_dirty_text() {
    let mut local = TextBuffer::from_disk_bytes("f".to_owned(), b"base", false, false);
    local.set_selection(Selection::caret(CharOffset(local.text().len_chars())));
    local.insert(" local").unwrap();
    let fresh = TextBuffer::from_disk_bytes("f".to_owned(), b"external", false, false);
    assert_eq!(local.reconcile_external(Some(fresh), true), ExternalChangeOutcome::Conflict);
    assert_eq!(local.text_string(), "base local");
    assert_eq!(local.disk_state(), DiskState::ModifiedExternally);
}

#[test]
fn clean_buffer_auto_reloads_and_preserves_cursor() {
    let mut local = TextBuffer::from_disk_bytes("f".to_owned(), b"old", false, false);
    local.set_selection(Selection::caret(CharOffset(2)));
    let fresh = TextBuffer::from_disk_bytes("f".to_owned(), b"new content", false, false);
    assert_eq!(local.reconcile_external(Some(fresh), true), ExternalChangeOutcome::Reloaded);
    assert_eq!(local.text_string(), "new content");
    assert_eq!(local.selection().head, CharOffset(2));
}

#[test]
fn external_deletion_keeps_buffer_content() {
    let mut buffer = TextBuffer::empty(Some("missing".to_owned()), false);
    buffer.insert("keep me").unwrap();
    assert_eq!(buffer.reconcile_external(None, true), ExternalChangeOutcome::Deleted);
    assert_eq!(buffer.text_string(), "keep me");
    assert_eq!(buffer.disk_state(), DiskState::Deleted);
}

#[test]
fn disk_state_follows_a_fresh_read() {
    let mut buffer = TextBuffer::from_disk_bytes("f".to_owned(), b"same", false, false);
    assert_eq!(buffer.refresh_disk_state(DiskRead::Bytes(b"same".to_vec())).unwrap(), DiskState::Present);
    assert_eq!(buffer.refresh_disk_state(DiskRead::Bytes(b"other".to_vec())).unwrap(), DiskState::ModifiedExternally);
    assert_eq!(buffer.refresh_disk_state(DiskRead::NotFound).unwrap(), DiskState::Deleted);
    assert!(buffer.refresh_disk_state(DiskRead::Failed("denied".to_owned())).is_err());
}

#[test]
fn line_endings_are_classified_by_their_pairs() {
    let crlf: Vec<char> = "a\r\nb\r\n".chars().collect();
    assert_eq!(detect_line_ending(&crlf), LineEnding::CrLf);
    let lf: Vec<char> = "a\nb\nc".chars().collect();
    assert_eq!(detect_line_ending(&lf), LineEnding::Lf);
    let mixed: Vec<char> = "a\nb\r\nc\n".chars().collect();
    assert_eq!(detect_line_ending(&mixed), LineEnding::Mixed);
}

#[test]
fn deleted_file_remains_open_and_can_be_saved_again() {
    let mut buffer = TextBuffer::from_disk_bytes("f".to_owned(), b"on disk", false, false);
    assert!(buffer.disk_hash().is_some());
    assert_eq!(buffer.reconcile_external(None, true), ExternalChangeOutcome::Deleted);
    assert_eq!(buffer.disk_hash(), None);
    let snapshot = buffer.prepare_save().unwrap();
    assert_eq!(snapshot.expected_disk_hash, None);
    assert!(mica::buffer::persistence::check_unchanged(&snapshot.path, None, snapshot.expected_disk_hash).is_ok());
    assert_eq!(snapshot.bytes, b"on disk".to_vec());
    buffer.complete_save(&snapshot);
    assert_eq!(buffer.disk_state(), DiskState::Present);
    assert!(!buffer.is_dirty());

    let mut refreshed = TextBuffer::from_disk_bytes("g".to_owned(), b"x", false, false);
    assert_eq!(refreshed.refresh_disk_state(DiskRead::NotFound).unwrap(), DiskState::Deleted);
    let snapshot = refreshed.prepare_save().unwrap();
    assert!(mica::buffer::persistence::check_unchanged(&snapshot.path, None, snapshot.expected_disk_hash).is_ok());
}
