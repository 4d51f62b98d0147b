use mica::editor::syntax::{convert_byte_spans, HighlightKind, HighlightSpan};

fn span(start_char: usize, end_char: usize, kind: HighlightKind) -> HighlightSpan {
    HighlightSpan { start_char, end_char, kind }
}

#[test]
fn byte_spans_become_sorted_char_spans() {
    let source = "é a";
    let spans = vec![
        (3, 4, HighlightKind::Variable),
        (0, 2, HighlightKind::Keyword),
        (0, 4, HighlightKind::Comment),
    ];
    assert_eq!(
        convert_byte_spans(source, spans),
        vec![
            span(0, 1, HighlightKind::Keyword),
            span(0, 3, HighlightKind::Comment),
            span(2, 3, HighlightKind::Variable),
        ]
    );
}

#[test]
fn byte_spans_inside_a_char_or_past_the_end_are_dropped() {
    let source = "日x";
    let spans = vec![
        (1, 3, HighlightKind::String),
        (0, 3, HighlightKind::Number),
        (3, 9, HighlightKind::Type),
    ];
    assert_eq!(convert_byte_spans(source, spans), vec![span(0, 1, HighlightKind::Number)]);
}

#[test]
fn equal_byte_spans_keep_their_order() {
    let spans = vec![(0, 2, HighlightKind::Function), (0, 2, HighlightKind::Constant)];
    assert_eq!(
        convert_byte_spans("ab", spans),
        vec![span(0, 2, HighlightKind::Function), span(0, 2, HighlightKind::Constant)]
    );
}
