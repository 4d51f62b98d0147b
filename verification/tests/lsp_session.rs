use mica::lsp::json::JsonValue;
use mica::lsp::session::{lsp_client_step, LspAction, LspClientState, LspEvent, LspNotice, LspPhase, Outgoing};

fn number(n: u64) -> JsonValue {
    JsonValue::Number { value: Some(n), text: n.to_string() }
}

fn object(entries: Vec<(&str, JsonValue)>) -> JsonValue {
    JsonValue::Object(entries.into_iter().map(|(k, v)| (k.to_owned(), v)).collect())
}

#[test]
fn lifecycle_initializes_answers_unknown_requests_and_shuts_down() {
    let mut state = LspClientState::new();
    let start = state.start();
    assert!(matches!(start[0], LspAction::Notify(LspNotice::Started)));
    assert!(matches!(start[1], LspAction::Write { message: Outgoing::Initialize, report_failure: true }));
    state.initialize_sent();
    assert_eq!(state.phase, LspPhase::Running);

    let reply = object(vec![("jsonrpc", JsonValue::String("2.0".into())), ("id", number(1)), ("result", object(vec![]))]);
    let actions = lsp_client_step(&mut state, LspEvent::Incoming(reply));
    assert_eq!(actions.len(), 3);
    assert!(matches!(actions[0], LspAction::Write { message: Outgoing::Initialized, report_failure: false }));
    assert!(matches!(actions[1], LspAction::Notify(LspNotice::Initialized)));
    assert!(matches!(actions[2], LspAction::Notify(LspNotice::Message(_))));
    assert!(state.initialized);

    let again = object(vec![("id", number(1)), ("result", JsonValue::Null)]);
    let actions = lsp_client_step(&mut state, LspEvent::Incoming(again));
    assert_eq!(actions.len(), 1);

    let request = object(vec![("id", number(5)), ("method", JsonValue::String("workspace/configuration".into()))]);
    let actions = lsp_client_step(&mut state, LspEvent::Incoming(request));
    assert!(matches!(actions[0], LspAction::Write { message: Outgoing::MethodNotImplemented, .. }));

    let actions = lsp_client_step(&mut state, LspEvent::Send(object(vec![])));
    assert!(matches!(actions[0], LspAction::Write { message: Outgoing::Message(_), report_failure: true }));

    let actions = lsp_client_step(&mut state, LspEvent::Shutdown);
    assert_eq!(actions.len(), 3);
    assert!(matches!(actions[0], LspAction::Write { message: Outgoing::ShutdownRequest, .. }));
    assert!(matches!(actions[1], LspAction::Write { message: Outgoing::Exit, .. }));
    assert!(matches!(actions[2], LspAction::StartShutdownClock));
    assert!(lsp_client_step(&mut state, LspEvent::Send(object(vec![]))).is_empty());
    assert!(lsp_client_step(&mut state, LspEvent::Shutdown).is_empty());
    assert!(lsp_client_step(&mut state, LspEvent::Tick { clock_expired: false }).is_empty());
    let actions = lsp_client_step(&mut state, LspEvent::Tick { clock_expired: true });
    assert!(matches!(actions[0], LspAction::Terminate));
    let actions = lsp_client_step(&mut state, LspEvent::Exited(Some(0)));
    assert!(matches!(actions[0], LspAction::Notify(LspNotice::Exited(Some(0)))));
    assert!(matches!(actions[1], LspAction::Stop));
}

#[test]
fn a_failed_initialize_write_ends_the_connection() {
    let mut state = LspClientState::new();
    let _ = state.start();
    let actions = lsp_client_step(&mut state, LspEvent::WriteFailed("broken pipe".into()));
    assert!(matches!(&actions[0], LspAction::Notify(LspNotice::Error(e)) if e == "broken pipe"));
    assert!(matches!(actions[1], LspAction::Terminate));
    assert!(matches!(actions[2], LspAction::Stop));
}

#[test]
fn end_of_output_starts_the_clock_once() {
    let mut state = LspClientState::new();
    state.initialize_sent();
    let actions = lsp_client_step(&mut state, LspEvent::IncomingEof);
    assert!(matches!(actions[0], LspAction::StartShutdownClock));
    assert!(state.shutting_down);
    assert!(lsp_client_step(&mut state, LspEvent::IncomingEof).is_empty());
    let actions = lsp_client_step(&mut state, LspEvent::IncomingError("gone".into()));
    assert_eq!(actions.len(), 1);
}
