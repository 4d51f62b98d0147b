use mica::app::state::{AppEvent, AppState, BufferTab, Effect, Overlay};
use mica::app::{ColumnHint, Focus, PendingLspRequest};
use mica::lsp::json::JsonValue;
use mica::buffer::selection::{CharOffset, Selection};
use mica::buffer::text_buffer::TextBuffer;
use mica::command::id;
use mica::command::Command;

fn state() -> AppState {
    AppState::new(false, 10)
}

fn invoke(state: &mut AppState, command: &str) -> Vec<Effect> {
    let event = AppEvent::Command(Command::Invoke(command.to_owned()));
    assert!(state.handles(&event));
    state.update(event)
}

fn tab_with(path: Option<&str>, text: &str) -> BufferTab {
    let mut buffer = TextBuffer::empty(path.map(|p| p.to_owned()), false);
    buffer.insert(text).unwrap();
    BufferTab::new(buffer)
}

#[test]
fn dirty_tab_requires_explicit_close_confirmation() {
    let mut state = state();
    let mut buffer = TextBuffer::empty(None, false);
    buffer.insert("unsaved").unwrap();
    state.tabs.push(BufferTab::new(buffer));
    state.active_tab = Some(0);

    state.update(AppEvent::Command(Command::CloseTab(0)));
    assert!(matches!(state.overlay, Some(Overlay::ConfirmClose { tab: 0 })));
    assert_eq!(state.tabs.len(), 1);

    state.update(AppEvent::Command(Command::PaletteAccept));
    assert!(state.tabs.is_empty());
    assert_eq!(state.active_tab, None);
}

#[test]
fn cut_and_paste_use_internal_clipboard() {
    let mut state = state();
    let mut buffer = TextBuffer::empty(None, false);
    buffer.insert("日本語").unwrap();
    buffer.set_selection(Selection { anchor: CharOffset(0), head: CharOffset(2) });
    state.tabs.push(BufferTab::new(buffer));
    state.active_tab = Some(0);

    let effects = invoke(&mut state, id::EDITOR_CUT);
    assert!(matches!(effects.as_slice(), [Effect::CopyToClipboard(_)]));
    assert_eq!(state.internal_clipboard, "日本");
    assert_eq!(state.tabs[0].buffer.text_string(), "語");

    invoke(&mut state, id::EDITOR_PASTE);
    assert_eq!(state.tabs[0].buffer.text_string(), "日本語");
}

#[test]
fn clean_tab_closes_without_asking_and_the_next_tab_becomes_active() {
    let mut state = state();
    state.tabs.push(BufferTab::new(TextBuffer::empty(None, false)));
    state.tabs.push(BufferTab::new(TextBuffer::empty(None, false)));
    state.tabs.push(BufferTab::new(TextBuffer::empty(None, false)));
    state.active_tab = Some(1);
    state.update(AppEvent::Command(Command::CloseTab(1)));
    assert!(state.overlay.is_none());
    assert_eq!(state.tabs.len(), 2);
    assert_eq!(state.active_tab, Some(1));
    state.update(AppEvent::Command(Command::CloseTab(1)));
    assert_eq!(state.active_tab, Some(0));
}

#[test]
fn cancelling_the_close_question_keeps_the_tab() {
    let mut state = state();
    state.tabs.push(tab_with(None, "draft"));
    state.active_tab = Some(0);
    invoke(&mut state, id::EDITOR_CLOSE);
    assert_eq!(state.focus, Focus::Overlay);
    state.update(AppEvent::Command(Command::Cancel));
    assert!(state.overlay.is_none());
    assert_eq!(state.focus, Focus::Editor);
    assert_eq!(state.tabs.len(), 1);
}

#[test]
fn pinned_tab_refuses_to_close() {
    let mut state = state();
    state.tabs.push(BufferTab::new(TextBuffer::empty(Some("src/lib.rs".to_owned()), false)));
    state.active_tab = Some(0);
    invoke(&mut state, id::EDITOR_TOGGLE_PIN);
    assert!(state.tabs[0].pinned);
    assert_eq!(state.notification.as_deref(), Some("Pinned lib.rs"));
    invoke(&mut state, id::EDITOR_CLOSE);
    assert_eq!(state.tabs.len(), 1);
    assert_eq!(state.notification.as_deref(), Some("Unpin the tab before closing it"));
    invoke(&mut state, id::EDITOR_TOGGLE_PIN);
    assert_eq!(state.notification.as_deref(), Some("Unpinned lib.rs"));
}

#[test]
fn copy_without_selection_asks_for_one() {
    let mut state = state();
    state.tabs.push(tab_with(None, "abc"));
    state.active_tab = Some(0);
    let effects = invoke(&mut state, id::EDITOR_COPY);
    assert!(effects.is_empty());
    assert_eq!(state.notification.as_deref(), Some("Select text to copy"));
    invoke(&mut state, id::EDITOR_SELECT_ALL);
    let effects = invoke(&mut state, id::EDITOR_COPY);
    assert!(matches!(effects.as_slice(), [Effect::CopyToClipboard(t)] if t == "abc"));
    assert_eq!(state.internal_clipboard, "abc");
}

#[test]
fn paste_with_empty_clipboard_notifies() {
    let mut state = state();
    state.tabs.push(tab_with(None, "abc"));
    state.active_tab = Some(0);
    invoke(&mut state, id::EDITOR_PASTE);
    assert_eq!(state.notification.as_deref(), Some("Internal clipboard is empty"));
    assert_eq!(state.tabs[0].buffer.text_string(), "abc");
}

#[test]
fn typing_undo_and_redo_go_through_the_active_buffer() {
    let mut state = state();
    state.tabs.push(BufferTab::new(TextBuffer::empty(None, false)));
    state.active_tab = Some(0);
    state.update(AppEvent::Command(Command::InsertText("ab".to_owned())));
    state.update(AppEvent::Command(Command::MoveLeft { extend: false }));
    state.update(AppEvent::Command(Command::DeleteBackward));
    assert_eq!(state.tabs[0].buffer.text_string(), "b");
    invoke(&mut state, id::EDITOR_UNDO);
    assert_eq!(state.tabs[0].buffer.text_string(), "ab");
    invoke(&mut state, id::EDITOR_REDO);
    assert_eq!(state.tabs[0].buffer.text_string(), "b");
}

#[test]
fn read_only_buffer_refuses_edits_with_a_notification() {
    let mut state = state();
    state.tabs.push(BufferTab::new(TextBuffer::empty(None, true)));
    state.active_tab = Some(0);
    state.update(AppEvent::Command(Command::InsertText("x".to_owned())));
    assert_eq!(state.tabs[0].buffer.text_string(), "");
    assert_eq!(state.notification.as_deref(), Some("buffer is read-only"));
}

#[test]
fn unknown_command_is_reported() {
    let mut state = state();
    invoke(&mut state, "no.such_command");
    assert_eq!(state.notification.as_deref(), Some("Unknown command: no.such_command"));
}

#[test]
fn commands_outside_this_state_are_not_handled() {
    let state = state();
    assert!(!state.handles(&AppEvent::Command(Command::Invoke(id::EDITOR_FIND.to_owned()))));
    assert!(!state.handles(&AppEvent::Command(Command::MoveUp { extend: false })));
    assert!(state.handles(&AppEvent::Command(Command::Invoke(id::EDITOR_SAVE.to_owned()))));
}

#[test]
fn palette_filters_and_runs_the_first_match() {
    let mut state = state();
    state.tabs.push(tab_with(None, "abc"));
    state.active_tab = Some(0);
    invoke(&mut state, id::COMMAND_PALETTE_OPEN);
    assert!(matches!(state.overlay, Some(Overlay::CommandPalette)));
    for c in "select all".chars() {
        state.update(AppEvent::Command(Command::PaletteInput(c)));
    }
    state.update(AppEvent::Command(Command::PaletteInput('x')));
    state.update(AppEvent::Command(Command::PaletteBackspace));
    assert_eq!(state.palette_query, "select all");
    let accept = AppEvent::Command(Command::PaletteAccept);
    assert!(state.handles(&accept));
    state.update(accept);
    assert!(state.overlay.is_none());
    assert_eq!(state.palette_query, "");
    assert_eq!(state.tabs[0].buffer.selection(), Selection { anchor: CharOffset(0), head: CharOffset(3) });
}

#[test]
fn quitting_with_unsaved_changes_is_refused() {
    let mut state = state();
    state.tabs.push(tab_with(None, "draft"));
    invoke(&mut state, id::APP_QUIT);
    assert!(!state.should_quit);
    assert_eq!(
        state.notification.as_deref(),
        Some("Unsaved changes: save or close them before quitting")
    );
    let mut state = self::state();
    invoke(&mut state, id::APP_QUIT);
    assert!(state.should_quit);
}

#[test]
fn save_is_queued_behind_the_one_in_flight() {
    let mut state = state();
    state.tabs.push(tab_with(Some("notes.txt"), "one"));
    state.active_tab = Some(0);
    let effects = invoke(&mut state, id::EDITOR_SAVE);
    let first = match effects.as_slice() {
        [Effect::Save { tab: 0, snapshot }] => snapshot.clone(),
        other => panic!("unexpected effects: {other:?}"),
    };
    assert_eq!(first.bytes, b"one");
    assert!(state.tabs[0].saving);

    state.update(AppEvent::Command(Command::InsertText("!".to_owned())));
    let effects = invoke(&mut state, id::EDITOR_SAVE);
    assert!(effects.is_empty());
    assert_eq!(state.notification.as_deref(), Some("Save queued"));

    let effects = state.update(AppEvent::SaveCompleted { tab: 0, snapshot: first.clone(), result: Ok(()) });
    match effects.as_slice() {
        [Effect::Save { tab: 0, snapshot }] => {
            assert_eq!(snapshot.bytes, b"one!");
            assert_eq!(snapshot.expected_disk_hash, Some(first.disk_hash));
        }
        other => panic!("unexpected effects: {other:?}"),
    }
    assert_eq!(state.notification.as_deref(), Some("Saved notes.txt"));
    assert!(state.tabs[0].saving);
}

#[test]
fn finished_save_marks_the_buffer_clean_and_refreshes_git() {
    let mut state = state();
    state.tabs.push(tab_with(Some("notes.txt"), "one"));
    state.active_tab = Some(0);
    let effects = invoke(&mut state, id::EDITOR_SAVE);
    let snapshot = match effects.as_slice() {
        [Effect::Save { snapshot, .. }] => snapshot.clone(),
        other => panic!("unexpected effects: {other:?}"),
    };
    let effects = state.update(AppEvent::SaveCompleted { tab: 0, snapshot, result: Ok(()) });
    assert!(matches!(effects.as_slice(), [Effect::RefreshGit]));
    assert!(!state.tabs[0].buffer.is_dirty());
    assert!(!state.tabs[0].saving);
}

#[test]
fn failed_save_drops_the_queued_one() {
    let mut state = state();
    state.tabs.push(tab_with(Some("notes.txt"), "one"));
    state.active_tab = Some(0);
    let effects = invoke(&mut state, id::EDITOR_SAVE);
    let snapshot = match effects.as_slice() {
        [Effect::Save { snapshot, .. }] => snapshot.clone(),
        other => panic!("unexpected effects: {other:?}"),
    };
    invoke(&mut state, id::EDITOR_SAVE);
    assert!(state.tabs[0].pending_save.is_some());
    let effects = state.update(AppEvent::SaveCompleted { tab: 0, snapshot, result: Err("disk full".to_owned()) });
    assert!(effects.is_empty());
    assert_eq!(state.notification.as_deref(), Some("disk full"));
    assert!(state.tabs[0].pending_save.is_none());
    assert!(state.tabs[0].buffer.is_dirty());
}

#[test]
fn untitled_buffer_cannot_be_saved() {
    let mut state = state();
    state.tabs.push(tab_with(None, "x"));
    state.active_tab = Some(0);
    let effects = invoke(&mut state, id::EDITOR_SAVE);
    assert!(effects.is_empty());
    assert_eq!(state.notification.as_deref(), Some("buffer has no file path"));
}

#[test]
fn opened_file_gets_a_tab_and_the_caret_at_the_hinted_place() {
    let mut state = state();
    let buffer = TextBuffer::from_disk_bytes("src/main.rs".to_owned(), "ab\ncdef\n".as_bytes(), false, false);
    state.update(AppEvent::FileOpened {
        path: "src/main.rs".to_owned(),
        line: Some(2),
        column: Some(ColumnHint::Chars(3)),
        result: Ok(buffer),
    });
    assert_eq!(state.tabs.len(), 1);
    assert_eq!(state.active_tab, Some(0));
    assert_eq!(state.tabs[0].buffer.selection(), Selection::caret(CharOffset(5)));
    assert_eq!(state.notification, None);

    let again = TextBuffer::from_disk_bytes("src/main.rs".to_owned(), "ab\ncdef\n".as_bytes(), false, false);
    state.update(AppEvent::FileOpened {
        path: "src//main.rs".to_owned(),
        line: None,
        column: None,
        result: Ok(again),
    });
    assert_eq!(state.tabs.len(), 1);
    assert_eq!(state.tabs[0].buffer.selection(), Selection::caret(CharOffset(0)));
}

#[test]
fn large_file_opens_in_large_file_mode() {
    let mut state = AppState::new(false, 0);
    let buffer = TextBuffer::from_disk_bytes("big.txt".to_owned(), b"x", false, false);
    state.update(AppEvent::FileOpened { path: "big.txt".to_owned(), line: None, column: None, result: Ok(buffer) });
    assert_eq!(
        state.notification.as_deref(),
        Some("Large-file mode: syntax highlighting, LSP, and diff decorations are disabled")
    );
}

#[test]
fn failed_open_is_reported() {
    let mut state = state();
    state.update(AppEvent::FileOpened {
        path: "gone.txt".to_owned(),
        line: None,
        column: None,
        result: Err("not found".to_owned()),
    });
    assert!(state.tabs.is_empty());
    assert_eq!(state.notification.as_deref(), Some("not found"));
}

#[test]
fn open_file_command_asks_the_caller_to_read_it() {
    let mut state = AppState::new(true, 10);
    let effects = state.update(AppEvent::Command(Command::OpenFile("a.txt".to_owned())));
    assert!(matches!(
        effects.as_slice(),
        [Effect::OpenFile { path, read_only: true, line: None, column: None }] if path == "a.txt"
    ));
}

#[test]
fn set_cursor_clamps_and_select_tab_switches() {
    let mut state = state();
    state.tabs.push(tab_with(None, "abc"));
    state.tabs.push(tab_with(None, "de"));
    state.active_tab = Some(0);
    state.update(AppEvent::Command(Command::SetCursor { char_offset: 1, extend: false }));
    state.update(AppEvent::Command(Command::SetCursor { char_offset: 9, extend: true }));
    assert_eq!(state.tabs[0].buffer.selection(), Selection { anchor: CharOffset(1), head: CharOffset(3) });
    state.update(AppEvent::Command(Command::SelectTab(1)));
    assert_eq!(state.active_tab, Some(1));
    state.update(AppEvent::Command(Command::SelectTab(7)));
    assert_eq!(state.active_tab, Some(1));
}

fn recovery(path: Option<&str>, text: &str, cursor_char: usize) -> mica::session::RecoveryBuffer {
    mica::session::RecoveryBuffer {
        path: path.map(|p| p.to_owned()),
        text: text.to_owned(),
        cursor_char,
        expected_disk_hash: None,
        has_bom: false,
        line_ending: mica::buffer::text_buffer::LineEnding::Lf,
    }
}

#[test]
fn crash_recovery_replaces_the_open_tab_and_discards_the_journals() {
    let mut state = state();
    state.tabs.push(BufferTab::new(TextBuffer::empty(Some("src/lib.rs".to_owned()), false)));
    state.active_tab = Some(0);
    state.offer_recovery(mica::session::RecoverySet {
        buffers: vec![recovery(Some("src/lib.rs"), "fn 復旧() {}", 3), recovery(None, "scratch", 99)],
        journal_paths: vec!["journal-1.json".to_owned()],
    });
    assert!(matches!(state.overlay, Some(Overlay::RecoveryPrompt)));
    assert_eq!(state.focus, Focus::Overlay);

    let effects = state.update(AppEvent::Command(Command::RecoveryRecover));
    assert!(matches!(effects.as_slice(), [Effect::DiscardRecovery(paths)] if paths == &vec!["journal-1.json".to_owned()]));
    assert_eq!(state.tabs.len(), 2);
    assert_eq!(state.tabs[0].buffer.text_string(), "fn 復旧() {}");
    assert!(state.tabs[0].buffer.is_dirty());
    assert_eq!(state.tabs[0].buffer.selection(), Selection::caret(CharOffset(3)));
    assert_eq!(state.tabs[1].buffer.text_string(), "scratch");
    assert_eq!(state.tabs[1].buffer.selection(), Selection::caret(CharOffset(7)));
    assert_eq!(state.active_tab, Some(1));
    assert!(state.overlay.is_none());
    assert!(state.pending_recovery.is_empty());
    assert_eq!(
        state.notification.as_deref(),
        Some("Recovered unsaved buffers after abnormal exit")
    );
}

#[test]
fn recovery_can_be_discarded_or_kept_for_later() {
    let mut state = state();
    state.offer_recovery(mica::session::RecoverySet {
        buffers: vec![recovery(None, "x", 0)],
        journal_paths: vec!["j.json".to_owned()],
    });
    state.update(AppEvent::Command(Command::RecoveryLater));
    assert!(state.overlay.is_none());
    assert_eq!(state.pending_recovery.len(), 1);
    assert_eq!(state.notification.as_deref(), Some("Recovery data kept for later"));

    state.offer_recovery(mica::session::RecoverySet {
        buffers: vec![recovery(None, "x", 0)],
        journal_paths: vec!["j.json".to_owned()],
    });
    let effects = state.update(AppEvent::Command(Command::RecoveryDiscard));
    assert!(matches!(effects.as_slice(), [Effect::DiscardRecovery(_)]));
    assert!(state.tabs.is_empty());
    assert!(state.pending_recovery.is_empty());
    assert_eq!(state.notification.as_deref(), Some("Discarded crash recovery data"));
}

#[test]
fn empty_recovery_opens_no_prompt() {
    let mut state = state();
    state.offer_recovery(mica::session::RecoverySet { buffers: Vec::new(), journal_paths: Vec::new() });
    assert!(state.overlay.is_none());
}

fn json_value(value: &serde_json::Value) -> JsonValue {
    match value {
        serde_json::Value::Null => JsonValue::Null,
        serde_json::Value::Bool(b) => JsonValue::Bool(*b),
        serde_json::Value::Number(n) => JsonValue::Number { value: n.as_u64(), text: n.to_string() },
        serde_json::Value::String(s) => JsonValue::String(s.clone()),
        serde_json::Value::Array(items) => JsonValue::Array(items.iter().map(json_value).collect()),
        serde_json::Value::Object(map) => {
            JsonValue::Object(map.iter().map(|(k, v)| (k.clone(), json_value(v))).collect())
        }
    }
}

fn json(text: &str) -> JsonValue {
    json_value(&serde_json::from_str(text).unwrap())
}

#[test]
fn hover_for_the_active_file_opens_over_the_editor() {
    let mut state = state();
    state.tabs.push(BufferTab::new(TextBuffer::empty(Some("/w/src/main.rs".to_owned()), false)));
    state.active_tab = Some(0);
    let event = AppEvent::LspResponse {
        request: PendingLspRequest::Hover("/w/src/main.rs".to_owned()),
        result: Some(json(r#"{"contents": "fn main()"}"#)),
    };
    assert!(state.handles(&event));
    state.update(event);
    assert!(matches!(state.overlay, Some(Overlay::LspHover)));
    assert_eq!(state.lsp_hover, vec!["fn main()".to_owned()]);
    state.update(AppEvent::Command(Command::PaletteAccept));
    assert!(state.overlay.is_none());
    assert_eq!(state.focus, Focus::Editor);
}

#[test]
fn stale_hover_response_is_discarded_after_switching_tabs() {
    let mut state = state();
    state.tabs.push(BufferTab::new(TextBuffer::empty(Some("/w/a.rs".to_owned()), false)));
    state.tabs.push(BufferTab::new(TextBuffer::empty(Some("/w/b.rs".to_owned()), false)));
    state.active_tab = Some(1);
    state.update(AppEvent::LspResponse {
        request: PendingLspRequest::Hover("/w/a.rs".to_owned()),
        result: Some(json(r#"{"contents": "fn a()"}"#)),
    });
    assert!(state.overlay.is_none());
    assert!(state.lsp_hover.is_empty());
    assert_eq!(state.notification.as_deref(), Some("Stale LSP response discarded"));
}

#[test]
fn definition_opens_its_location_at_a_utf16_column() {
    let mut state = state();
    let effects = state.update(AppEvent::LspResponse {
        request: PendingLspRequest::Definition("/w/a.rs".to_owned()),
        result: Some(json(
            r#"[{"uri": "file:///w/b.rs", "range": {"start": {"line": 4, "character": 2}, "end": {"line": 4, "character": 5}}}]"#,
        )),
    });
    assert!(matches!(
        effects.as_slice(),
        [Effect::OpenFile { path, read_only: false, line: Some(5), column: Some(ColumnHint::Utf16(3)) }] if path == "/w/b.rs"
    ));
}

#[test]
fn empty_lsp_result_is_reported() {
    let mut state = state();
    let effects = state.update(AppEvent::LspResponse {
        request: PendingLspRequest::Hover("/w/a.rs".to_owned()),
        result: None,
    });
    assert!(effects.is_empty());
    assert_eq!(state.notification.as_deref(), Some("LSP returned no result"));
}

#[test]
fn save_all_writes_every_unsaved_file_with_a_path() {
    let mut state = state();
    state.tabs.push(tab_with(Some("a.txt"), "one"));
    state.tabs.push(BufferTab::new(TextBuffer::empty(Some("clean.txt".to_owned()), false)));
    state.tabs.push(tab_with(None, "untitled"));
    state.tabs.push(tab_with(Some("b.txt"), "two"));
    state.active_tab = Some(0);
    let effects = invoke(&mut state, id::EDITOR_SAVE_ALL);
    let saved: Vec<usize> = effects
        .iter()
        .map(|effect| match effect {
            Effect::Save { tab, .. } => *tab,
            other => panic!("unexpected effect: {other:?}"),
        })
        .collect();
    assert_eq!(saved, vec![0, 3]);
    assert!(state.tabs[0].saving && state.tabs[3].saving);
    assert!(!state.tabs[1].saving && !state.tabs[2].saving);

    let effects = invoke(&mut state, id::EDITOR_SAVE_ALL);
    assert!(effects.is_empty());
    assert_eq!(state.notification.as_deref(), Some("No writable files to save"));
    assert!(state.tabs[0].pending_save.is_some() && state.tabs[3].pending_save.is_some());
}
