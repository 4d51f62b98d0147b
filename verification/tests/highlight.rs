use std::sync::atomic::AtomicU64;

use mica::editor::syntax::{highlight, highlight_with, spans_from_captures, HighlightKind, HighlightSpan, SyntaxLanguage};

#[test]
fn rust_highlights_include_keywords_strings_and_comments() {
    let token = AtomicU64::new(1);
    let source = "// 日本語\nfn main() { let value = \"ok\"; }";
    let spans = highlight(SyntaxLanguage::Rust, source, &token, 1).unwrap();
    assert!(spans.iter().any(|span| span.kind == HighlightKind::Comment));
    assert!(spans.iter().any(|span| span.kind == HighlightKind::Keyword));
    assert!(spans.iter().any(|span| span.kind == HighlightKind::String));
    assert!(
        spans
            .iter()
            .all(|span| span.end_char <= source.chars().count())
    );
}

#[test]
fn markdown_highlights_include_heading_code_and_japanese_text() {
    let token = AtomicU64::new(1);
    let source = "# 見出し\n\n```rust\nfn main() {}\n```\n";
    let spans = highlight(SyntaxLanguage::Markdown, source, &token, 1).unwrap();
    assert!(!spans.is_empty());
    assert!(spans.iter().any(|span| span.kind == HighlightKind::Keyword));
    assert!(spans.iter().any(|span| span.kind == HighlightKind::String));
    let char_len = source.chars().count();
    assert!(spans.iter().all(|span| span.end_char <= char_len));
}

#[test]
fn toml_highlights_include_table_key_string_comment_and_japanese_value() {
    let token = AtomicU64::new(1);
    let source = "# comment\n[section]\nkey = \"値\"\n";
    let spans = highlight(SyntaxLanguage::Toml, source, &token, 1).unwrap();
    assert!(spans.iter().any(|span| span.kind == HighlightKind::Type));
    assert!(spans.iter().any(|span| span.kind == HighlightKind::String));
    assert!(spans.iter().any(|span| span.kind == HighlightKind::Comment));
    let char_len = source.chars().count();
    assert!(spans.iter().all(|span| span.end_char <= char_len));
}

#[test]
fn every_spec_language_produces_classified_highlights() {
    let token = AtomicU64::new(1);
    let samples = [
        (SyntaxLanguage::C, "int main(void) { return 0; }"),
        (SyntaxLanguage::Cpp, "class Value { public: int n; };"),
        (
            SyntaxLanguage::Python,
            "def greet(name):\n    return f'hi {name}'\n",
        ),
        (SyntaxLanguage::Json, r#"{"name": true, "count": 2}"#),
        (SyntaxLanguage::Yaml, "name: value\nenabled: true\n"),
        (SyntaxLanguage::Bash, "#!/bin/bash\necho \"hello\"\n"),
        (
            SyntaxLanguage::JavaScript,
            "const greet = (name) => `hi ${name}`;",
        ),
        (SyntaxLanguage::TypeScript, "const count: number = 2;"),
        (SyntaxLanguage::Tsx, "const view = <div>Hello</div>;"),
        (SyntaxLanguage::Html, "<main class=\"content\">Hello</main>"),
        (SyntaxLanguage::Css, ".content { color: red; }"),
    ];
    for (language, source) in samples {
        let spans = highlight(language, source, &token, 1).unwrap();
        assert!(!spans.is_empty(), "no highlights for {language:?}");
        assert!(
            spans
                .iter()
                .all(|span| span.end_char <= source.chars().count()),
            "invalid Unicode offset for {language:?}"
        );
    }
}

#[test]
fn highlighting_gives_up_when_the_generation_moved_on() {
    let token = AtomicU64::new(2);
    let spans = highlight(SyntaxLanguage::Rust, "fn main() {}", &token, 1).unwrap();
    assert!(spans.is_empty());
}

#[test]
fn captures_are_classified_by_name_before_conversion() {
    let captures = vec![
        (3, 7, "function.method".to_owned()),
        (0, 2, "keyword".to_owned()),
        (8, 9, "punctuation.bracket".to_owned()),
        (0, 2, "text.literal".to_owned()),
    ];
    assert_eq!(
        spans_from_captures("fn main()", captures),
        vec![
            HighlightSpan { start_char: 0, end_char: 2, kind: HighlightKind::Keyword },
            HighlightSpan { start_char: 0, end_char: 2, kind: HighlightKind::String },
            HighlightSpan { start_char: 3, end_char: 7, kind: HighlightKind::Function },
        ]
    );
}

#[test]
fn highlighting_through_a_generation_reader_is_exact_while_it_holds() {
    let source = "const view = <div>Hello</div>;";
    let token = AtomicU64::new(1);
    let direct = highlight(SyntaxLanguage::Tsx, source, &token, 1).unwrap();
    assert!(!direct.is_empty());
    assert_eq!(highlight_with(SyntaxLanguage::Tsx, source, &|| 1u64, 1).unwrap(), direct);
    assert!(highlight_with(SyntaxLanguage::Tsx, source, &|| 7u64, 1).unwrap().is_empty());
}
