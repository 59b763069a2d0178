use lsp_det::adapter::parse_version;
use lsp_det::adapter::rust_analyzer::RustAnalyzerAdapter;
use lsp_det::state::{Health, Readiness, ServerState};
use lsp_det::peek::peek;
use lsp_det::adapter::{identity_from_notification, select};
use lsp_det::state::{ServerStateProvider, ALL_FILE_CHANGES};

fn interpret(adapter: &mut RustAnalyzerAdapter, body: &str) -> Option<ServerState> {
    let view = peek(body.as_bytes()).expect("test bodies are valid JSON");
    adapter.interpret(&view, body.as_bytes())
}

fn status(health: &str, quiescent: bool) -> String {
    format!(
        r#"{{"jsonrpc":"2.0","method":"experimental/serverStatus","params":{{"health":"{health}","quiescent":{quiescent},"message":null}}}}"#
    )
}

#[test]
fn parses_the_leading_semver_of_a_rust_analyzer_version_string() {
    assert_eq!(
        parse_version("1.98.0 (88d9e12 2026-08-18)"),
        Some((1, 98, 0))
    );
    assert_eq!(parse_version("1.98.0"), Some((1, 98, 0)));
    assert_eq!(parse_version("0.3.2600-standalone"), Some((0, 3, 2600)));
    assert_eq!(parse_version("nightly"), None);
    assert_eq!(parse_version(""), None);
}

#[test]
fn adapter_maps_a_missing_workspace_warning_to_error() {
    // When no project is found, rust-analyzer reports a warning with "Failed to discover
    // workspace.". Cross-workspace queries cannot work, so it maps to error; the message is
    // the only thing to tell it by.
    let mut adapter = RustAnalyzerAdapter::new();
    let body = r#"{"method":"experimental/serverStatus","params":{"health":"warning","quiescent":true,"message":"Failed to discover workspace.\nConsider adding the `Cargo.toml` of the workspace to the [`linkedProjects`](https://rust-analyzer.github.io/book/configuration.html#linkedProjects) setting.\n\n"}}"#;
    let state = interpret(&mut adapter, body).unwrap();
    assert_eq!(state.health, Health::Error);
    assert_eq!(state.readiness, Readiness::Ready);
}

#[test]
fn adapter_maps_the_missing_workspace_warning_to_error_even_after_other_warnings() {
    // current_status() は警告文を連結する。先頭でなくても見つける。
    let mut adapter = RustAnalyzerAdapter::new();
    let body = r#"{"method":"experimental/serverStatus","params":{"health":"warning","quiescent":true,"message":"Auto-reloading is disabled and the workspace has changed, a manual workspace reload is required.\n\nFailed to discover workspace.\n"}}"#;
    assert_eq!(interpret(&mut adapter, body).unwrap().health, Health::Error);
}

#[test]
fn adapter_keeps_other_warnings_as_warning() {
    let mut adapter = RustAnalyzerAdapter::new();
    let body = r#"{"method":"experimental/serverStatus","params":{"health":"warning","quiescent":true,"message":"Failed to run build scripts of some packages.\n\n"}}"#;
    assert_eq!(
        interpret(&mut adapter, body).unwrap().health,
        Health::Warning
    );
}

#[test]
fn adapter_a_non_quiescent_status_means_indexing() {
    let mut adapter = RustAnalyzerAdapter::new();
    let state = interpret(&mut adapter, &status("ok", false)).expect("status is readable");
    assert_eq!(state.readiness, Readiness::Indexing);
}

#[test]
fn adapter_a_quiescent_status_means_ready() {
    let mut adapter = RustAnalyzerAdapter::new();
    let state = interpret(&mut adapter, &status("ok", true)).expect("status is readable");
    assert_eq!(state.readiness, Readiness::Ready);
}

#[test]
fn adapter_carries_health_through_unchanged() {
    // Failure arrives via health. Even with error, quiescent is read independently.
    for (upstream, expected) in [
        ("ok", Health::Okay),
        ("warning", Health::Warning),
        ("error", Health::Error),
    ] {
        let mut adapter = RustAnalyzerAdapter::new();
        let state = interpret(&mut adapter, &status(upstream, true)).unwrap();
        assert_eq!(state.health, expected);
        assert_eq!(state.readiness, Readiness::Ready);
    }
}

#[test]
fn adapter_carries_the_human_message_through() {
    let mut adapter = RustAnalyzerAdapter::new();
    let body = r#"{"method":"experimental/serverStatus","params":{"health":"warning","quiescent":false,"message":"build scripts need rebuilding"}}"#;
    let state = interpret(&mut adapter, body).unwrap();
    assert_eq!(
        state.message.as_deref(),
        Some("build scripts need rebuilding")
    );
}

#[test]
fn adapter_ignores_unrelated_notifications() {
    let mut adapter = RustAnalyzerAdapter::new();
    let progress = r#"{"jsonrpc":"2.0","method":"$/progress","params":{"token":"x","value":{"kind":"end"}}}"#;
    assert!(interpret(&mut adapter, progress).is_none());
}

#[test]
fn adapter_ignores_a_request_that_happens_to_use_the_status_method_name() {
    // serverStatus は通知であってリクエストではない。
    let mut adapter = RustAnalyzerAdapter::new();
    let as_request = r#"{"jsonrpc":"2.0","id":1,"method":"experimental/serverStatus","params":{"health":"ok","quiescent":true}}"#;
    assert!(interpret(&mut adapter, as_request).is_none());
}

#[test]
fn adapter_ignores_a_status_whose_params_do_not_parse() {
    let mut adapter = RustAnalyzerAdapter::new();
    let missing_quiescent =
        r#"{"method":"experimental/serverStatus","params":{"health":"ok"}}"#;
    assert!(interpret(&mut adapter, missing_quiescent).is_none());
}

#[test]
fn adapter_refuses_observer_only_health_values_claimed_by_the_upstream() {
    // A server must not send unknown, and dead is not a value of this protocol.
    for claimed in ["dead", "unknown"] {
        let mut adapter = RustAnalyzerAdapter::new();
        let body = format!(
            r#"{{"method":"experimental/serverStatus","params":{{"health":"{claimed}","quiescent":true}}}}"#
        );
        assert!(
            interpret(&mut adapter, &body).is_none(),
            "上流の {claimed} を受け入れてはならない"
        );
    }
}

#[test]
fn selects_gopls_by_its_server_info_name() {
    assert!(select("gopls", Some("v0.20.0")).is_some());
}

#[test]
fn selects_pyright_and_basedpyright_by_their_server_info_names() {
    // basedpyright calls itself "basedpyright" in serverInfo. The upstream change adding
    // serverInfo to pyright calls itself by its productName ("Pyright"), so the name
    // comparison is case-insensitive (serverInfo.name is a free-form display string and
    // LSP defines no comparison rule).
    assert!(select("basedpyright", Some("1.39.8")).is_some());
    assert!(select("pyright", None).is_some());
    assert!(
        select("Pyright", None).is_some(),
        "case-insensitive comparison"
    );
    assert!(select("Rust-Analyzer", None).is_some());
    assert!(select("GOPLS", None).is_some());
}

#[test]
fn identifies_typescript_language_server_by_its_startup_log() {
    let body = br#"{"jsonrpc":"2.0","method":"window/logMessage","params":{"type":3,"message":"Using Typescript version (user-setting) 5.9.3 from path \"/x/tsserver.js\""}}"#;
    let view = peek(body).unwrap();
    let identity = identity_from_notification(&view, body)
        .expect("a startup log is an identity announcement");
    assert_eq!(identity.name, "typescript-language-server");
    assert_eq!(identity.version.as_deref(), Some("5.9.3"));
}

#[test]
fn identifies_typescript_language_server_by_its_typescript_version_notification() {
    let body = br#"{"jsonrpc":"2.0","method":"$/typescriptVersion","params":{"version":"5.9.3","source":"user-setting"}}"#;
    let view = peek(body).unwrap();
    let identity = identity_from_notification(&view, body)
        .expect("its own notification is an identity announcement");
    assert_eq!(identity.name, "typescript-language-server");
    assert_eq!(identity.version.as_deref(), Some("5.9.3"));
    assert!(select(&identity.name, identity.version.as_deref()).is_some());
}

#[test]
fn identifies_pyright_by_its_startup_log() {
    let body = br#"{"jsonrpc":"2.0","method":"window/logMessage","params":{"type":3,"message":"Pyright language server 1.1.412 starting"}}"#;
    let view = peek(body).unwrap();
    let identity = identity_from_notification(&view, body)
        .expect("a startup log is an identity announcement");
    assert_eq!(identity.name, "pyright");
    assert_eq!(identity.version.as_deref(), Some("1.1.412"));
    assert!(select(&identity.name, identity.version.as_deref()).is_some());
}

#[test]
fn other_notifications_and_requests_are_not_identities() {
    for body in [
        &br#"{"jsonrpc":"2.0","method":"window/logMessage","params":{"type":3,"message":"Found 2 source files"}}"#[..],
        br#"{"jsonrpc":"2.0","method":"window/showMessage","params":{"type":3,"message":"Pyright language server 1.1.412 starting"}}"#,
        br#"{"jsonrpc":"2.0","id":7,"method":"window/workDoneProgress/create","params":{"token":"t"}}"#,
        br#"{"jsonrpc":"2.0","method":"experimental/serverStatus","params":{"health":"ok","quiescent":true}}"#,
        br#"{"jsonrpc":"2.0","id":0,"result":{"capabilities":{}}}"#,
    ] {
        let view = peek(body).unwrap();
        assert!(
            identity_from_notification(&view, body).is_none(),
            "not an identity announcement: {}",
            String::from_utf8_lossy(body)
        );
    }
}

#[test]
fn mod_selects_rust_analyzer_by_its_server_info_name() {
    assert!(select("rust-analyzer", None).is_some());
    for unknown in ["fake-lsp-server", "", "clangd", "rust-analyzer-proxy"] {
        assert!(
            select(unknown, None).is_none(),
            "not a known name: {unknown:?}"
        );
    }
}

#[test]
fn mod_declares_guarantees_only_for_versions_the_conformance_suite_passed_on() {
    // The guarantee an observer can declare is limited to versions the conformance tests
    // have passed on. lsp-det cannot
    // guarantee rust-analyzer's internals; it only has the observation that a test passed.
    let tested = select("rust-analyzer", Some("1.98.0 (88d9e12 2026-08-18)")).unwrap();
    assert_eq!(
        tested.guarantees(),
        ServerStateProvider::workspace(&[("workspace/symbol", 128)], &ALL_FILE_CHANGES)
    );

    for untested in [
        Some("1.97.0 (abcdef1 2026-07-01)"),
        Some("0.3.2600-standalone"),
        Some("garbage"),
        None,
    ] {
        let adapter = select("rust-analyzer", untested).unwrap();
        assert_eq!(
            adapter.guarantees(),
            ServerStateProvider::notifications_only(),
            "declared a guarantee for untested version {untested:?}"
        );
    }
}
