use lsp_det::json::Json;
use lsp_det::adapter::haskell_language_server::{is_hls_initialize_result, HaskellLanguageServerAdapter};
use lsp_det::state::{Health, ServerState, ServerStateProvider};
use lsp_det::peek::peek;
use lsp_det::state::Readiness;

fn feed(adapter: &mut HaskellLanguageServerAdapter, body: &str) -> Option<ServerState> {
    let view = peek(body.as_bytes()).expect("test bodies are valid JSON");
    adapter.interpret(&view, body.as_bytes())
}

fn diagnostics(uri: &str, items: &str) -> String {
    format!(
        r#"{{"jsonrpc":"2.0","method":"textDocument/publishDiagnostics","params":{{"uri":"{uri}","diagnostics":[{items}]}}}}"#
    )
}

const CRADLE: &str = r#"{"source":"cradle","severity":1,"range":{"start":{"line":0,"character":0},"end":{"line":1,"character":0}},"message":"Failed to run cabal v2-repl 'lib:x' in directory /p\nConsult the logs"}"#;
const TYPE_ERROR: &str = r#"{"source":"typecheck","severity":1,"range":{"start":{"line":0,"character":0},"end":{"line":1,"character":0}},"message":"Variable not in scope"}"#;

#[test]
fn recognizes_the_server_by_its_pid_prefixed_ghcide_commands() {
    let hls = json(r#"{"capabilities": {"executeCommandProvider": {
        "commands": ["4242:eval:evalCommand", "4242:ghcide-type-lenses:typesignature.add"]
    }}}"#);
    assert!(is_hls_initialize_result(&hls));
    let other = json(r#"{"capabilities": {"executeCommandProvider": {
        "commands": ["nextflow.server.previewDag", "ghcide-something"]
    }}}"#);
    assert!(!is_hls_initialize_result(&other));
    assert!(!is_hls_initialize_result(
        &json(r#"{"capabilities": {"executeCommandProvider": {"commands": []}}}"#)
    ));
    assert!(!is_hls_initialize_result(
        &json(r#"{"capabilities": {}}"#)
    ));
}

#[test]
fn starts_unknown_on_both_axes_and_declares_nothing() {
    let m = HaskellLanguageServerAdapter::new();
    assert_eq!(m.initial_state(), ServerState::unobserved());
    assert_eq!(m.guarantees(), ServerStateProvider::notifications_only());
}

#[test]
fn a_cradle_failure_is_error_health_until_the_file_is_diagnosed_without_it() {
    let mut m = HaskellLanguageServerAdapter::new();
    let state = feed(&mut m, &diagnostics("file:///p/src/A.hs", CRADLE))
        .expect("a cradle failure moves health");
    assert_eq!(state.health, Health::Error);
    assert_eq!(state.readiness, Readiness::Unknown);
    assert_eq!(
        state.message.as_deref(),
        Some("Failed to run cabal v2-repl 'lib:x' in directory /p")
    );
    // A second file with the same failure changes nothing to notify.
    assert!(feed(&mut m, &diagnostics("file:///p/src/B.hs", CRADLE)).is_none());
    // One file recovering is not enough while the other still carries it.
    assert!(feed(&mut m, &diagnostics("file:///p/src/A.hs", TYPE_ERROR)).is_none());
    let state = feed(&mut m, &diagnostics("file:///p/src/B.hs", ""))
        .expect("the last failure clearing moves health");
    assert_eq!(state, ServerState::unobserved());
}

#[test]
fn other_diagnostics_and_progress_move_nothing() {
    let mut m = HaskellLanguageServerAdapter::new();
    assert!(feed(&mut m, &diagnostics("file:///p/src/A.hs", TYPE_ERROR)).is_none());
    // A cradle warning is not a failure.
    assert!(
        feed(
            &mut m,
            &diagnostics(
                "file:///p/src/A.hs",
                r#"{"source":"cradle","severity":2,"range":{"start":{"line":0,"character":0},"end":{"line":1,"character":0}},"message":"Loading…"}"#
            )
        )
        .is_none()
    );
    assert!(
        feed(
            &mut m,
            r#"{"jsonrpc":"2.0","method":"$/progress","params":{"token":1,"value":{"kind":"begin","title":"Indexing"}}}"#
        )
        .is_none()
    );
    assert_eq!(m.state(), ServerState::unobserved());
}

fn json(text: &str) -> Json {
    Json::from_text(text).expect("test values are valid JSON")
}
