use lsp_det::adapter::crystalline::{identity_from_log, CrystallineAdapter};
use lsp_det::state::{ServerState, ServerStateProvider};
use lsp_det::peek::peek;
use lsp_det::state::{Health, Readiness};

fn log(message: &str) -> String {
    format!(
        r#"{{"jsonrpc":"2.0","method":"window/logMessage","params":{{"type":3,"message":"{message}"}}}}"#
    )
}

fn interpret(adapter: &mut CrystallineAdapter, body: &str) -> Option<ServerState> {
    let view = peek(body.as_bytes()).expect("test bodies are valid JSON");
    adapter.interpret(&view, body.as_bytes())
}

#[test]
fn recognizes_the_found_projects_log_and_nothing_else() {
    assert!(identity_from_log(
        "\"[workspace] Found projects:\n/p/fixture"
    ));
    for other in [
        "LSP server is ready.",
        "[workspace] Found projects:",
        "Flags for project fixture: []",
        "",
    ] {
        assert!(
            !identity_from_log(other),
            "not the startup announcement: {other:?}"
        );
    }
}

#[test]
fn starts_initializing_with_unknown_health_and_declares_nothing() {
    let adapter = CrystallineAdapter::new();
    let state = adapter.initial_state();
    assert_eq!(state.readiness, Readiness::Initializing);
    assert_eq!(state.health, Health::Unknown);
    assert_eq!(
        adapter.guarantees(),
        ServerStateProvider::notifications_only()
    );
}

#[test]
fn the_ready_log_moves_readiness_to_ready_once() {
    let mut adapter = CrystallineAdapter::new();
    let state = interpret(&mut adapter, &log("LSP server is ready."))
        .expect("the ready log is a signal");
    assert_eq!(state.readiness, Readiness::Ready);
    assert_eq!(state.health, Health::Unknown);
    // Idempotent: a second one changes nothing to notify.
    assert!(interpret(&mut adapter, &log("LSP server is ready.")).is_none());
}

#[test]
fn per_request_compilation_progress_and_other_logs_move_nothing() {
    let mut adapter = CrystallineAdapter::new();
    for other in [
        log("\\\"[workspace] Found projects:\\n/p/fixture"),
        log("Flags for project fixture: []"),
        r#"{"jsonrpc":"2.0","method":"$/progress","params":{"token":"workspace/compile/0","value":{"kind":"begin","title":"Building project"}}}"#.to_string(),
        r#"{"jsonrpc":"2.0","method":"$/progress","params":{"token":"workspace/compile/0","value":{"kind":"end","message":"Completed with errors."}}}"#.to_string(),
    ] {
        assert!(
            interpret(&mut adapter, &other).is_none(),
            "the state moved on an unrelated message: {other}"
        );
    }
    assert_eq!(adapter.state(), ServerState::initializing());
}
