use mica::app::{apply_completion, CompletionCandidate};
use mica::buffer::selection::{CharOffset, Selection};
use mica::buffer::text_buffer::{BufferError, TextBuffer};
use mica::lsp::position::Position;

fn buffer_with(text: &str) -> TextBuffer {
    let mut buffer = TextBuffer::empty(None, false);
    buffer.insert(text).unwrap();
    buffer
}

fn candidate(insert_text: &str, replace_range: Option<(Position, Position)>, cursor: Option<usize>) -> CompletionCandidate {
    CompletionCandidate {
        label: insert_text.to_owned(),
        insert_text: insert_text.to_owned(),
        detail: None,
        replace_range,
        cursor_char_offset: cursor,
    }
}

#[test]
fn completion_replaces_the_typed_prefix() {
    let mut buffer = buffer_with("let ver");
    let range = (Position { line: 0, character: 4 }, Position { line: 0, character: 7 });
    apply_completion(&mut buffer, &candidate("version", Some(range), None)).unwrap();
    assert_eq!(buffer.text_string(), "let version");
    assert_eq!(buffer.selection(), Selection::caret(CharOffset(11)));
    buffer.undo().unwrap();
    assert_eq!(buffer.text_string(), "let ver");
}

#[test]
fn completion_without_range_inserts_at_the_cursor() {
    let mut buffer = buffer_with("a.");
    apply_completion(&mut buffer, &candidate("len", None, None)).unwrap();
    assert_eq!(buffer.text_string(), "a.len");
    assert_eq!(buffer.selection(), Selection::caret(CharOffset(5)));
}

#[test]
fn completion_snippet_cursor_is_placed_inside_the_text() {
    let mut buffer = buffer_with("x = ");
    apply_completion(&mut buffer, &candidate("foo()", None, Some(4))).unwrap();
    assert_eq!(buffer.text_string(), "x = foo()");
    assert_eq!(buffer.selection(), Selection::caret(CharOffset(8)));
    let mut other = buffer_with("");
    apply_completion(&mut other, &candidate("ab", None, Some(9))).unwrap();
    assert_eq!(other.selection(), Selection::caret(CharOffset(2)));
}

#[test]
fn completion_range_out_of_order_or_past_the_end_is_clamped() {
    let mut buffer = buffer_with("ab\ncd");
    let range = (Position { line: 9, character: 0 }, Position { line: 1, character: 1 });
    apply_completion(&mut buffer, &candidate("Z", Some(range), None)).unwrap();
    assert_eq!(buffer.text_string(), "ab\ncZ");
}

#[test]
fn completion_in_a_read_only_buffer_is_refused() {
    let mut buffer = TextBuffer::empty(None, true);
    let result = apply_completion(&mut buffer, &candidate("x", None, None));
    assert!(matches!(result, Err(BufferError::ReadOnly)));
    assert_eq!(buffer.text_string(), "");
}
