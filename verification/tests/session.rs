use mica::app::SidebarView;
use mica::buffer::text_buffer::LineEnding;
use mica::session::{
    journal_pid, journal_recoverable, journal_recovery, restored_session, stored_session,
    SessionBufferSnapshot, SessionSnapshot, SessionStore, SESSION_VERSION,
};

fn buffer(path: Option<&str>, text: &str, dirty: bool, pinned: bool) -> SessionBufferSnapshot {
    SessionBufferSnapshot {
        path: path.map(str::to_owned),
        text: text.to_owned(),
        dirty,
        cursor_char: 3,
        expected_disk_hash: Some(7),
        has_bom: false,
        line_ending: LineEnding::Lf,
        pinned,
    }
}

fn snapshot() -> SessionSnapshot {
    SessionSnapshot {
        workspace: "/work/project".to_owned(),
        buffers: vec![
            buffer(Some("/work/project/b.rs"), "fn 復旧() {}", true, true),
            buffer(None, "scratch", true, false),
            buffer(Some("/work/project/a.rs"), "saved", false, false),
        ],
        active_tab: Some(2),
        sidebar_visible: true,
        sidebar_view: SidebarView::Search,
        bottom_panel_visible: false,
        sidebar_width: 30,
        bottom_panel_height: 12,
    }
}

#[test]
fn snapshots_store_only_unsaved_text() {
    let stored = stored_session(&snapshot());
    assert_eq!(stored.version, SESSION_VERSION);
    assert_eq!(stored.buffers.len(), 3);
    assert_eq!(stored.buffers[0].unsaved_text.as_deref(), Some("fn 復旧() {}"));
    assert_eq!(stored.buffers[2].unsaved_text, None);
}

#[test]
fn session_restores_tabs_in_order_with_pins() {
    let stored = stored_session(&snapshot());
    let restored = restored_session(&stored, "/work/project/").unwrap();
    assert_eq!(restored.buffers.len(), 2);
    assert_eq!(restored.buffers[0].path, "/work/project/b.rs");
    assert!(restored.buffers[0].pinned);
    assert_eq!(restored.buffers[1].path, "/work/project/a.rs");
    assert_eq!(restored.active_path.as_deref(), Some("/work/project/a.rs"));
    assert_eq!(restored.sidebar_view, SidebarView::Search);
    assert!(restored_session(&stored, "/work/other").is_none());
    let mut old = stored.clone();
    old.version = SESSION_VERSION + 1;
    assert!(restored_session(&old, "/work/project").is_none());
}

#[test]
fn stale_journal_restores_unsaved_unicode_text() {
    let stored = stored_session(&snapshot());
    let recovered = journal_recovery(&stored, "/work/project").unwrap();
    assert_eq!(recovered.len(), 2);
    assert_eq!(recovered[0].text, "fn 復旧() {}");
    assert_eq!(recovered[0].path.as_deref(), Some("/work/project/b.rs"));
    assert_eq!(recovered[1].path, None);
    assert!(journal_recovery(&stored, "/elsewhere").is_none());
}

#[test]
fn only_journals_of_gone_processes_or_this_one_are_recovered() {
    assert!(journal_recoverable(42, 42, true));
    assert!(journal_recoverable(41, 42, false));
    assert!(!journal_recoverable(41, 42, true));
}

#[test]
fn journals_are_named_by_process() {
    let store = SessionStore::layout("/work/project", "/state", 4242);
    assert_eq!(journal_pid(store.current_journal()), Some(4242));
    assert!(store.current_journal().ends_with("/journal-4242.json"));
    assert_eq!(journal_pid("/state/x/journal-.json"), None);
    assert_eq!(journal_pid("/state/x/session.json"), None);
}
