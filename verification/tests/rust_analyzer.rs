#[test]
fn watched_files_are_recognised_with_either_path_separator() {
    assert!(is_watched_file("file:///w/src/c.rs"));
    assert!(is_watched_file("file:///C:/w/Cargo.toml"));
    assert!(is_watched_file("file:///C:\\w\\Cargo.lock"));
    assert!(!is_watched_file("file:///w/notes.txt"));
    assert!(!is_watched_file(
        "file:///w/src/rust-analyzer.toml.bak"
    ));
}

use lsp_det::adapter::rust_analyzer::{is_watched_file, RustAnalyzerAdapter};
use lsp_det::state::{Health, Readiness, ServerState, ServerStateProvider, ALL_FILE_CHANGES};
use lsp_det::peek::peek;

fn interpret(adapter: &mut RustAnalyzerAdapter, body: &str) -> Option<ServerState> {
    let view = peek(body.as_bytes()).expect("test bodies are valid JSON");
    adapter.interpret(&view, body.as_bytes())
}

fn status(health: &str, quiescent: bool) -> String {
    format!(
        r#"{{"jsonrpc":"2.0","method":"experimental/serverStatus","params":{{"health":"{health}","quiescent":{quiescent},"message":null}}}}"#
    )
}

#[test]
fn declares_guarantees_for_the_nixpkgs_build_the_suite_passed_on() {
    // The nixpkgs build calls itself by a date (`2026-08-03`). The conformance tests were run against
    // this version too and passed (flake.nix dev environment, 2026-09-03). Version
    // identification is not limited to semver; the leading token of the identity string is
    // matched against the list of tested versions.
    let tested = lsp_det::adapter::select("rust-analyzer", Some("2026-08-03")).unwrap();
    assert_eq!(
        tested.guarantees(),
        ServerStateProvider::workspace(&[("workspace/symbol", 128)], &ALL_FILE_CHANGES)
    );
    let untested = lsp_det::adapter::select("rust-analyzer", Some("2026-08-04")).unwrap();
    assert_eq!(
        untested.guarantees(),
        ServerStateProvider::notifications_only()
    );
}

#[test]
fn rust_analyzer_maps_a_missing_workspace_warning_to_error() {
    // Design 5.1: when rust-analyzer finds no project at all, it emits warning and
    // "Failed to discover workspace." (`current_status()` in reload.rs). Cross-workspace
    // queries do not function, so this is mapped to error. The message string is the only
    // thing available to distinguish it.
    let mut adapter = RustAnalyzerAdapter::new();
    let body = r#"{"method":"experimental/serverStatus","params":{"health":"warning","quiescent":true,"message":"Failed to discover workspace.\nConsider adding the `Cargo.toml` of the workspace to the [`linkedProjects`](https://rust-analyzer.github.io/book/configuration.html#linkedProjects) setting.\n\n"}}"#;
    let state = interpret(&mut adapter, body).unwrap();
    assert_eq!(state.health, Health::Error);
    assert_eq!(state.readiness, Readiness::Ready);
}

#[test]
fn rust_analyzer_maps_the_missing_workspace_warning_to_error_even_after_other_warnings() {
    // current_status() concatenates warning text. It is found even when not at the start.
    let mut adapter = RustAnalyzerAdapter::new();
    let body = r#"{"method":"experimental/serverStatus","params":{"health":"warning","quiescent":true,"message":"Auto-reloading is disabled and the workspace has changed, a manual workspace reload is required.\n\nFailed to discover workspace.\n"}}"#;
    assert_eq!(interpret(&mut adapter, body).unwrap().health, Health::Error);
}

#[test]
fn rust_analyzer_keeps_other_warnings_as_warning() {
    let mut adapter = RustAnalyzerAdapter::new();
    let body = r#"{"method":"experimental/serverStatus","params":{"health":"warning","quiescent":true,"message":"Failed to run build scripts of some packages.\n\n"}}"#;
    assert_eq!(
        interpret(&mut adapter, body).unwrap().health,
        Health::Warning
    );
}

#[test]
fn rust_analyzer_a_non_quiescent_status_means_indexing() {
    let mut adapter = RustAnalyzerAdapter::new();
    let state = interpret(&mut adapter, &status("ok", false)).expect("status is readable");
    assert_eq!(state.readiness, Readiness::Indexing);
}

#[test]
fn rust_analyzer_a_quiescent_status_means_ready() {
    let mut adapter = RustAnalyzerAdapter::new();
    let state = interpret(&mut adapter, &status("ok", true)).expect("status is readable");
    assert_eq!(state.readiness, Readiness::Ready);
}

#[test]
fn rust_analyzer_carries_health_through_unchanged() {
    // Failure arrives via health. Even with error, quiescent is read independently.
    for (upstream, expected) in [
        ("ok", Health::Okay),
        ("warning", Health::Warning),
        ("error", Health::Error),
    ] {
        let mut adapter = RustAnalyzerAdapter::new();
        let state = interpret(&mut adapter, &status(upstream, true)).unwrap();
        assert_eq!(state.health, expected);
        assert_eq!(state.readiness, Readiness::Ready);
    }
}

#[test]
fn rust_analyzer_carries_the_human_message_through() {
    let mut adapter = RustAnalyzerAdapter::new();
    let body = r#"{"method":"experimental/serverStatus","params":{"health":"warning","quiescent":false,"message":"build scripts need rebuilding"}}"#;
    let state = interpret(&mut adapter, body).unwrap();
    assert_eq!(
        state.message.as_deref(),
        Some("build scripts need rebuilding")
    );
}

#[test]
fn rust_analyzer_ignores_unrelated_notifications() {
    let mut adapter = RustAnalyzerAdapter::new();
    let progress = r#"{"jsonrpc":"2.0","method":"$/progress","params":{"token":"x","value":{"kind":"end"}}}"#;
    assert!(interpret(&mut adapter, progress).is_none());
}

#[test]
fn rust_analyzer_ignores_a_request_that_happens_to_use_the_status_method_name() {
    // serverStatus is a notification, not a request.
    let mut adapter = RustAnalyzerAdapter::new();
    let as_request = r#"{"jsonrpc":"2.0","id":1,"method":"experimental/serverStatus","params":{"health":"ok","quiescent":true}}"#;
    assert!(interpret(&mut adapter, as_request).is_none());
}

#[test]
fn rust_analyzer_ignores_a_status_whose_params_do_not_parse() {
    let mut adapter = RustAnalyzerAdapter::new();
    let missing_quiescent =
        r#"{"method":"experimental/serverStatus","params":{"health":"ok"}}"#;
    assert!(interpret(&mut adapter, missing_quiescent).is_none());
}

#[test]
fn rust_analyzer_refuses_observer_only_health_values_claimed_by_the_upstream() {
    // A server must not send unknown, and dead is not a value of this protocol.
    for claimed in ["dead", "unknown"] {
        let mut adapter = RustAnalyzerAdapter::new();
        let body = format!(
            r#"{{"method":"experimental/serverStatus","params":{{"health":"{claimed}","quiescent":true}}}}"#
        );
        assert!(
            interpret(&mut adapter, &body).is_none(),
            "must not accept {claimed} from the upstream"
        );
    }
}
