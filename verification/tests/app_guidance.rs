use mica::app::{opened_cursor_offset, ColumnHint};
use ropey::Rope;
use mica::app::{clippy_unavailable, editor_wrap_width, git_error_guidance, split_globs};

#[test]
fn git_failures_receive_actionable_guidance_without_losing_raw_output() {
    assert!(git_error_guidance("fatal: Authentication failed").contains("SSH key"));
    assert!(
        git_error_guidance("! [rejected] main -> main (non-fast-forward)")
            .contains("remote has newer")
    );
    assert!(
        git_error_guidance("Author identity unknown; please tell me who you are")
            .contains("user.name")
    );
    assert_eq!(git_error_guidance("unknown failure"), "unknown failure");
}

#[test]
fn clippy_absence_is_recognised() {
    assert!(clippy_unavailable(b"error: no such command: `clippy`"));
    assert!(clippy_unavailable(b"Clippy Is Not Installed for this toolchain"));
    assert!(!clippy_unavailable(b"error[E0308]: mismatched types"));
}

#[test]
fn globs_are_split_and_trimmed() {
    assert_eq!(split_globs(" *.rs, ,src/** "), vec!["*.rs".to_owned(), "src/**".to_owned()]);
}

#[test]
fn wrap_width_is_positive() {
    assert!(editor_wrap_width(80, true, 30, false, 10) >= 1);
}

#[test]
fn utf16_column_hint_lands_past_non_bmp_characters_on_the_target_line() {
    let text = Rope::from_str("a\nlet s = \"😀😀\"; foo();\n");
    let cursor = opened_cursor_offset(&text, Some(2), Some(ColumnHint::Utf16(17)));
    let line_start = text.line_to_char(1);
    assert_eq!(cursor - line_start, 14, "cursor should land right at `foo`");
    assert!(text.slice(cursor..).to_string().starts_with("foo"));
}

#[test]
fn opened_cursor_clamps_line_and_column() {
    let text = Rope::from_str("one\ntwo");
    assert_eq!(opened_cursor_offset(&text, None, None), 0);
    assert_eq!(opened_cursor_offset(&text, Some(9), Some(ColumnHint::Chars(2))), 5);
    assert_eq!(opened_cursor_offset(&text, Some(1), Some(ColumnHint::Chars(99))), 4);
    assert_eq!(opened_cursor_offset(&text, Some(0), Some(ColumnHint::Chars(0))), 0);
}
