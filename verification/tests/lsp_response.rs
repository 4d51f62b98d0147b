use mica::app::{ColumnHint, PendingLspRequest};
use mica::lsp::reply::{lsp_reply, reply_fits_check, LspReply};
use mica::diagnostics::model::{DiagnosticSeverity, DiagnosticSource};
use mica::lsp::json::JsonValue;
use mica::lsp::position::Position;
use mica::lsp::response::{
    completion_candidate, hover_lines, lsp_diagnostic, lsp_location, lsp_text_edit,
    signature_help_lines,
};

fn convert(value: &serde_json::Value) -> JsonValue {
    match value {
        serde_json::Value::Null => JsonValue::Null,
        serde_json::Value::Bool(b) => JsonValue::Bool(*b),
        serde_json::Value::Number(n) => JsonValue::Number { value: n.as_u64(), text: n.to_string() },
        serde_json::Value::String(s) => JsonValue::String(s.clone()),
        serde_json::Value::Array(items) => JsonValue::Array(items.iter().map(convert).collect()),
        serde_json::Value::Object(map) => {
            JsonValue::Object(map.iter().map(|(k, v)| (k.clone(), convert(v))).collect())
        }
    }
}

fn json(text: &str) -> JsonValue {
    convert(&serde_json::from_str::<serde_json::Value>(text).unwrap())
}

#[test]
fn completion_candidate_parses_insert_replace_edit_using_the_insert_range() {
    let item = json(
        r#"{
            "label": "version",
            "textEdit": {
                "insert": {"start": {"line": 1, "character": 2}, "end": {"line": 1, "character": 5}},
                "replace": {"start": {"line": 1, "character": 2}, "end": {"line": 1, "character": 9}},
                "newText": "version"
            }
        }"#,
    );
    let candidate = completion_candidate(&item).expect("valid completion item");
    assert_eq!(candidate.insert_text, "version");
    assert_eq!(candidate.replace_range, Some((Position::new(1, 2), Position::new(1, 5))));
}

#[test]
fn completion_candidate_expands_snippet_defaults_and_places_cursor() {
    let item = json(
        r#"{
            "label": "println!",
            "insertTextFormat": 2,
            "insertText": "println!(\"${1:value}\");$0"
        }"#,
    );
    let candidate = completion_candidate(&item).expect("valid completion item");
    assert_eq!(candidate.insert_text, "println!(\"value\");");
    assert_eq!(candidate.cursor_char_offset, Some(10));
}

#[test]
fn completion_without_label_is_refused_and_plain_label_is_inserted() {
    assert!(completion_candidate(&json(r#"{"insertText": "x"}"#)).is_none());
    let candidate = completion_candidate(&json(r#"{"label": "len", "detail": "fn len()"}"#)).unwrap();
    assert_eq!(candidate.insert_text, "len");
    assert_eq!(candidate.detail.as_deref(), Some("fn len()"));
    assert_eq!(candidate.replace_range, None);
    assert_eq!(candidate.cursor_char_offset, None);
}

#[test]
fn signature_help_selects_active_signature_and_documentation() {
    let lines = signature_help_lines(&json(
        r#"{
            "activeSignature": 1,
            "signatures": [
                {"label": "first()"},
                {"label": "target(value: i32)", "documentation": {"kind": "markdown", "value": "Target docs"}}
            ]
        }"#,
    ));
    assert_eq!(lines, vec!["target(value: i32)", "Target docs"]);
}

#[test]
fn signature_help_falls_back_to_the_first_signature() {
    let lines = signature_help_lines(&json(
        r#"{"activeSignature": 7, "signatures": [{"label": "only()", "documentation": "a\nb"}]}"#,
    ));
    assert_eq!(lines, vec!["only()", "a", "b"]);
    assert!(signature_help_lines(&json(r#"{"signatures": []}"#)).is_empty());
}

#[test]
fn hover_contents_become_lines() {
    assert_eq!(
        hover_lines(&json(r#"{"contents": {"kind": "markdown", "value": "**type**"}}"#)),
        vec!["**type**"]
    );
    assert_eq!(
        hover_lines(&json(r#"{"contents": ["one\ntwo", {"language": "rust", "value": "fn f()"}, 3]}"#)),
        vec!["one", "two", "fn f()"]
    );
    assert!(hover_lines(&json(r#"{"other": 1}"#)).is_empty());
}

#[test]
fn diagnostics_convert_utf16_positions_severity_and_code() {
    let value = json(
        r#"{"range":{"start":{"line":0,"character":3},"end":{"line":0,"character":8}},
            "severity":1,"message":"bad value","code":"E1"}"#,
    );
    let diagnostic = lsp_diagnostic("/w/unicode.rs", Some("a😀value"), &value).unwrap();
    assert_eq!(diagnostic.range.start.char_offset, Some(2));
    assert_eq!(diagnostic.range.end.char_offset, Some(7));
    assert_eq!(diagnostic.range.start.column, 3);
    assert_eq!(diagnostic.severity, DiagnosticSeverity::Error);
    assert_eq!(diagnostic.source, DiagnosticSource::Lsp);
    assert_eq!(diagnostic.code.as_deref(), Some("E1"));
    assert_eq!(diagnostic.message, "bad value");
    let numbered = json(
        r#"{"range":{"start":{"line":2,"character":0},"end":{"line":2,"character":1}},
            "severity":4,"message":"m","code":42}"#,
    );
    let diagnostic = lsp_diagnostic("/w/a.rs", None, &numbered).unwrap();
    assert_eq!(diagnostic.severity, DiagnosticSeverity::Hint);
    assert_eq!(diagnostic.code.as_deref(), Some("42"));
    assert_eq!(diagnostic.range.start.char_offset, None);
    let no_message = json(r#"{"range":{"start":{"line":0,"character":0},"end":{"line":0,"character":0}}}"#);
    assert!(lsp_diagnostic("/w/a.rs", None, &no_message).is_none());
}

#[test]
fn locations_count_from_one_in_utf16_columns() {
    let location = lsp_location(&json(
        r#"{"uri":"file:///w/src/main.rs","range":{"start":{"line":4,"character":9},"end":{"line":4,"character":12}}}"#,
    ))
    .unwrap();
    assert_eq!(location.path, "/w/src/main.rs");
    assert_eq!(location.line, 5);
    assert_eq!(location.column, ColumnHint::Utf16(10));
    let link = lsp_location(&json(
        r#"{"targetUri":"file:///w/lib.rs","targetSelectionRange":{"start":{"line":0,"character":0},"end":{"line":0,"character":1}}}"#,
    ))
    .unwrap();
    assert_eq!((link.path.as_str(), link.line), ("/w/lib.rs", 1));
    assert!(lsp_location(&json(r#"{"uri":"http://x/y","range":{"start":{"line":0,"character":0}}}"#)).is_none());
}

#[test]
fn text_edits_are_ordered_char_ranges() {
    let edit = json(
        r#"{"range":{"start":{"line":0,"character":4},"end":{"line":0,"character":1}},"newText":"Z"}"#,
    );
    let (range, text) = lsp_text_edit("a😀bc", &edit).unwrap();
    assert_eq!(range, 1..3);
    assert_eq!(text, "Z");
    assert!(lsp_text_edit("abc", &json(r#"{"newText":"x"}"#)).is_none());
}

fn req_path() -> String {
    "/w/a.rs".to_owned()
}

#[test]
fn replies_without_result_notify_or_save_unchanged() {
    match lsp_reply(&PendingLspRequest::Hover(req_path()), true, None, "") {
        LspReply::Notify(message) => assert_eq!(message, "LSP returned no result"),
        other => panic!("unexpected {other:?}"),
    }
    let null = json("null");
    match lsp_reply(&PendingLspRequest::Formatting(req_path()), true, Some(&null), "") {
        LspReply::FormatUnchanged { path, message } => {
            assert_eq!(path, "/w/a.rs");
            assert_eq!(message, "Formatter returned no edits; saving unchanged");
        }
        other => panic!("unexpected {other:?}"),
    }
}

#[test]
fn stale_hover_and_completion_responses_are_discarded_after_switching_tabs() {
    let hover = json(r#"{"contents":"stale hover"}"#);
    match lsp_reply(&PendingLspRequest::Hover(req_path()), false, Some(&hover), "fn main() {}") {
        LspReply::Notify(message) => assert_eq!(message, "Stale LSP response discarded"),
        other => panic!("a stale hover response must not be shown: {other:?}"),
    }
    let completions = json(r#"[{"label":"stale"}]"#);
    match lsp_reply(&PendingLspRequest::Completion(req_path()), false, Some(&completions), "fn main() {}") {
        LspReply::Notify(message) => assert_eq!(message, "Stale LSP response discarded"),
        other => panic!("a stale completion response must not be offered: {other:?}"),
    }
}

#[test]
fn active_hover_replies_are_shown() {
    let hover = json(r#"{"contents":{"kind":"markdown","value":"**type**"}}"#);
    match lsp_reply(&PendingLspRequest::Hover(req_path()), true, Some(&hover), "") {
        LspReply::Hover(lines) => assert_eq!(lines, vec!["**type**"]),
        other => panic!("unexpected {other:?}"),
    }
}

#[test]
fn definitions_open_their_first_location() {
    let result = json(
        r#"[{"uri":"file:///w/b.rs","range":{"start":{"line":3,"character":4},"end":{"line":3,"character":6}}},
            {"uri":"file:///w/c.rs","range":{"start":{"line":0,"character":0},"end":{"line":0,"character":0}}}]"#,
    );
    match lsp_reply(&PendingLspRequest::Definition(req_path()), false, Some(&result), "") {
        LspReply::OpenLocation(location) => {
            assert_eq!(location.path, "/w/b.rs");
            assert_eq!(location.line, 4);
            assert_eq!(location.column, ColumnHint::Utf16(5));
        }
        other => panic!("unexpected {other:?}"),
    }
    assert!(matches!(
        lsp_reply(&PendingLspRequest::Definition(req_path()), true, Some(&json("[]")), ""),
        LspReply::Nothing
    ));
}

#[test]
fn completions_are_capped_and_read_from_lists() {
    let items: Vec<String> = (0..250).map(|i| format!(r#"{{"label":"item{i}"}}"#)).collect();
    let list = json(&format!(r#"{{"isIncomplete":false,"items":[{}]}}"#, items.join(",")));
    match lsp_reply(&PendingLspRequest::Completion(req_path()), true, Some(&list), "") {
        LspReply::Completions(candidates) => {
            assert_eq!(candidates.len(), 200);
            assert_eq!(candidates[199].label, "item199");
        }
        other => panic!("unexpected {other:?}"),
    }
    match lsp_reply(&PendingLspRequest::Completion(req_path()), true, Some(&json("[]")), "") {
        LspReply::Notify(message) => assert_eq!(message, "No completions"),
        other => panic!("unexpected {other:?}"),
    }
}

#[test]
fn references_formatting_and_signatures_are_read() {
    let refs = json(r#"[{"uri":"file:///w/a.rs","range":{"start":{"line":1,"character":2},"end":{"line":1,"character":3}}},{"bad":1}]"#);
    match lsp_reply(&PendingLspRequest::References(req_path()), true, Some(&refs), "") {
        LspReply::References(locations) => assert_eq!(locations.len(), 1),
        other => panic!("unexpected {other:?}"),
    }
    let edits = json(r#"[{"range":{"start":{"line":0,"character":0},"end":{"line":0,"character":1}},"newText":"X"}]"#);
    match lsp_reply(&PendingLspRequest::Formatting(req_path()), true, Some(&edits), "abc") {
        LspReply::FormatEdits { path, edits } => {
            assert_eq!(path, "/w/a.rs");
            assert_eq!(edits, vec![(0..1, "X".to_owned())]);
        }
        other => panic!("unexpected {other:?}"),
    }
    match lsp_reply(&PendingLspRequest::Formatting(req_path()), true, Some(&json("[]")), "abc") {
        LspReply::FormatUnchanged { message, .. } => assert_eq!(message, "Document is already formatted"),
        other => panic!("unexpected {other:?}"),
    }
    let help = json(r#"{"signatures":[{"label":"f(x)"}]}"#);
    match lsp_reply(&PendingLspRequest::SignatureHelp(req_path()), true, Some(&help), "") {
        LspReply::Signature(lines) => assert_eq!(lines, vec!["f(x)"]),
        other => panic!("unexpected {other:?}"),
    }
}

#[test]
fn accepting_a_completion_replaces_the_textedit_range_instead_of_duplicating_the_prefix() {
    let mut buffer = mica::buffer::text_buffer::TextBuffer::empty(Some("/w/main.rs".to_owned()), false);
    buffer.insert("ver").unwrap();
    let result = json(
        r#"{"items":[{
            "label":"version",
            "textEdit": {
                "range": {"start":{"line":0,"character":0},"end":{"line":0,"character":3}},
                "newText": "version"
            }
        }]}"#,
    );
    let candidates = match lsp_reply(&PendingLspRequest::Completion(req_path()), true, Some(&result), "ver") {
        LspReply::Completions(candidates) => candidates,
        other => panic!("unexpected {other:?}"),
    };
    mica::app::apply_completion(&mut buffer, &candidates[0]).unwrap();
    assert_eq!(
        buffer.text_string(),
        "version",
        "accepting the completion must replace `ver`, not append to it"
    );
}

#[test]
fn replies_whose_locations_cannot_count_from_one_are_recognised() {
    let fits = json(r#"[{"uri":"file:///w/b.rs","range":{"start":{"line":3,"character":4}}}]"#);
    assert!(reply_fits_check(&fits));
    let too_far = json(&format!(
        r#"[{{"uri":"file:///w/b.rs","range":{{"start":{{"line":1,"character":0}}}}}},
            {{"uri":"file:///w/c.rs","range":{{"start":{{"line":{},"character":0}}}}}}]"#,
        u64::MAX
    ));
    assert!(!reply_fits_check(&too_far));
    assert!(reply_fits_check(&json("null")));
}
