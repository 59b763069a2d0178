use lsp_det::json::Json;
use lsp_det::adapter::typescript_language_server::{identity_from_typescript_version, startup_identity, TypescriptLanguageServerAdapter, SERVER_NAME};
use lsp_det::state::{FileChangeType, ServerState, ServerStateProvider};
use lsp_det::peek::peek;
use lsp_det::state::{Health, Readiness};

fn progress(token: &str, value: &str) -> String {
    format!(
        r#"{{"jsonrpc":"2.0","method":"$/progress","params":{{"token":"{token}","value":{value}}}}}"#
    )
}

fn load_begin(token: &str) -> String {
    progress(
        token,
        r#"{"kind":"begin","title":"Initializing JS/TS language features…"}"#,
    )
}

fn load_end(token: &str) -> String {
    progress(token, r#"{"kind":"end"}"#)
}

fn log(kind: u8, message: &str) -> String {
    format!(
        r#"{{"jsonrpc":"2.0","method":"window/logMessage","params":{{"type":{kind},"message":"{message}"}}}}"#
    )
}

/// The measured wording (SIGKILL).
const EXITED: &str = "[lspserver] [tsclient] [tsserver] Exited. Code: null. Signal: SIGKILL";

fn interpret(adapter: &mut TypescriptLanguageServerAdapter, body: &str) -> Option<ServerState> {
    let view = peek(body.as_bytes()).expect("test bodies are valid JSON");
    adapter.interpret(&view, body.as_bytes())
}

// --- what the server calls itself -------------------------------------------

#[test]
fn reads_the_startup_log_as_the_identity_before_initialize_completes() {
    // The exact wording measured. The only identity announcement that arrives before the
    // initialize response.
    let identity = startup_identity(
        r#"Using Typescript version (user-setting) 5.9.3 from path "/nix/store/x/lib/tsserver.js""#,
    )
    .expect("a startup log is an identity announcement");
    assert_eq!(identity.name, SERVER_NAME);
    assert_eq!(identity.version.as_deref(), Some("5.9.3"));

    let bundled = startup_identity(r#"Using Typescript version (bundled) 5.9.3 from path "x""#)
        .expect("still an identity announcement even with a different source");
    assert_eq!(bundled.version.as_deref(), Some("5.9.3"));
}

#[test]
fn typescript_language_server_other_log_lines_are_not_identities() {
    for other in [
        "Pyright language server 1.1.412 starting",
        "Using (workspace) TypeScript 5.9.3 instead - x",
        "[lspserver] Killing TS Server",
        "Using Typescript version",
        "",
    ] {
        assert!(
            startup_identity(other).is_none(),
            "not an identity announcement: {other:?}"
        );
    }
}

#[test]
fn reads_the_typescript_version_as_the_identity() {
    // The exact params measured. The name is the mapping key; the version is tsserver's.
    let identity = identity_from_typescript_version(
        &json(r#"{"version": "5.9.3", "source": "user-setting"}"#),
    )
    .expect("$/typescriptVersion is an identity announcement");
    assert_eq!(identity.name, SERVER_NAME);
    assert_eq!(identity.version.as_deref(), Some("5.9.3"));
}

#[test]
fn a_typescript_version_without_a_version_string_still_names_the_server() {
    let identity = identity_from_typescript_version(&json(r#"{"source": "bundled"}"#))
        .expect("still an identity announcement without a version");
    assert_eq!(identity.name, SERVER_NAME);
    assert_eq!(identity.version, None);
    assert!(
        identity_from_typescript_version(&json(r#""5.9.3""#)).is_none(),
        "does not read anything but an object"
    );
}

// --- readiness -------------------------------------------------------------

#[test]
fn typescript_language_server_starts_initializing_with_unknown_health() {
    let state = TypescriptLanguageServerAdapter::new().initial_state();
    assert_eq!(state.readiness, Readiness::Initializing);
    assert_eq!(state.health, Health::Unknown);
}

#[test]
fn begin_of_a_project_load_means_indexing() {
    let mut adapter = TypescriptLanguageServerAdapter::new();
    let state = interpret(&mut adapter, &load_begin("1")).expect("begin is a signal");
    assert_eq!(state.readiness, Readiness::Indexing);
    assert_eq!(
        state.health,
        Health::Unknown,
        "begin does not speak to health"
    );
}

#[test]
fn end_of_the_project_load_means_ready_and_ok() {
    let mut adapter = TypescriptLanguageServerAdapter::new();
    interpret(&mut adapter, &load_begin("1"));
    let state = interpret(&mut adapter, &load_end("1")).expect("end is a signal");
    assert_eq!(state.readiness, Readiness::Ready);
    assert_eq!(state.health, Health::Okay, "a successful load was observed");
}

#[test]
fn sequential_project_loads_rearm() {
    // Opening a second project: end of the first -> begin of the second -> end.
    let mut adapter = TypescriptLanguageServerAdapter::new();
    interpret(&mut adapter, &load_begin("a"));
    interpret(&mut adapter, &load_end("a"));
    let state =
        interpret(&mut adapter, &load_begin("b")).expect("the reload's begin is a signal");
    assert_eq!(state.readiness, Readiness::Indexing);
    let state = interpret(&mut adapter, &load_end("b")).expect("end is a signal");
    assert_eq!(state.readiness, Readiness::Ready);
}

#[test]
fn waits_for_every_open_token() {
    // Since loading is sequential, two should not open at once, but if they do, all are
    // waited for.
    let mut adapter = TypescriptLanguageServerAdapter::new();
    interpret(&mut adapter, &load_begin("a"));
    interpret(&mut adapter, &load_begin("b"));
    let after_a = interpret(&mut adapter, &load_end("a"));
    assert!(
        after_a
            .as_ref()
            .is_none_or(|s| s.readiness != Readiness::Ready),
        "claimed ready on the first end: {after_a:?}"
    );
    assert_eq!(
        interpret(&mut adapter, &load_end("b"))
            .expect("the last end is a signal")
            .readiness,
        Readiness::Ready
    );
}

#[test]
fn end_of_an_unknown_token_is_ignored() {
    let mut adapter = TypescriptLanguageServerAdapter::new();
    assert!(interpret(&mut adapter, &load_end("stray")).is_none());
}

// --- health ----------------------------------------------------------------

#[test]
fn a_tsserver_exit_log_means_error_with_the_log_as_message() {
    let mut adapter = TypescriptLanguageServerAdapter::new();
    interpret(&mut adapter, &load_begin("1"));
    interpret(&mut adapter, &load_end("1"));
    let state = interpret(&mut adapter, &log(1, EXITED)).expect("a crash is a signal");
    assert_eq!(state.health, Health::Error);
    assert_eq!(state.message.as_deref(), Some(EXITED));
    assert_eq!(
        state.readiness,
        Readiness::Ready,
        "does not change readiness"
    );
}

#[test]
fn a_later_end_does_not_restore_ok_after_a_crash() {
    // tsserver is not restarted. Even when the indicator resets (ends) on a crash, it is
    // not reverted to ok.
    let mut adapter = TypescriptLanguageServerAdapter::new();
    interpret(&mut adapter, &load_begin("1"));
    interpret(&mut adapter, &log(1, EXITED));
    let state = interpret(&mut adapter, &load_end("1"));
    assert!(
        state.as_ref().is_none_or(|s| s.health == Health::Error),
        "reverted to ok on the end after a crash: {state:?}"
    );
}

#[test]
fn typescript_language_server_ignores_other_logs_progress_and_other_vocabularies() {
    let mut adapter = TypescriptLanguageServerAdapter::new();
    for other in [
        log(3, "Using Typescript version (user-setting) 5.9.3 from path x"),
        log(3, "[lspserver] Killing TS Server"),
        log(1, "some other error"),
        progress("d", r#"{"kind":"begin","title":"Finding references"}"#),
        progress("d", r#"{"kind":"end"}"#),
        r#"{"jsonrpc":"2.0","method":"$/typescriptVersion","params":{"version":"5.9.3","source":"user-setting"}}"#.to_string(),
        r#"{"jsonrpc":"2.0","method":"experimental/serverStatus","params":{"health":"ok","quiescent":true,"message":null}}"#.to_string(),
    ] {
        assert!(
            interpret(&mut adapter, &other).is_none(),
            "the state moved on an unrelated message: {other}"
        );
    }
}

// --- guarantee ---------------------------------------------------------------

#[test]
fn a_typescript_version_notification_without_a_version_keeps_the_guarantee_basis() {
    // After a tested version is settled by the startup log, the basis is not discarded even
    // if $/typescriptVersion arrives lacking a version (per Copilot's feedback). If a
    // version is present, it updates the basis.
    let mut adapter = TypescriptLanguageServerAdapter::for_version(Some("5.9.3"));
    assert_eq!(
        adapter.guarantees(),
        ServerStateProvider::workspace(&[], &[FileChangeType::Changed])
    );
    interpret(
        &mut adapter,
        r#"{"jsonrpc":"2.0","method":"$/typescriptVersion","params":{"source":"bundled"}}"#,
    );
    assert_eq!(
        adapter.guarantees(),
        ServerStateProvider::workspace(&[], &[FileChangeType::Changed]),
        "discarded the basis on a notification with no version"
    );
    interpret(
        &mut adapter,
        r#"{"jsonrpc":"2.0","method":"$/typescriptVersion","params":{"version":"5.9.2","source":"bundled"}}"#,
    );
    assert_eq!(
        adapter.guarantees(),
        ServerStateProvider::notifications_only(),
        "a notification with a version updates the basis"
    );
}

#[test]
fn declares_guarantees_only_for_typescript_versions_the_conformance_suite_passed_on() {
    // The conformance tests were run against typescript-language-server 5.3.0 + TypeScript 5.9.3 and
    // passed. Only TypeScript's version appears in the identity announcement.
    assert_eq!(
        TypescriptLanguageServerAdapter::for_version(Some("5.9.3")).guarantees(),
        ServerStateProvider::workspace(&[], &[FileChangeType::Changed])
    );
    for version in [Some("5.9.2"), Some("5.3.0"), Some("garbage"), None] {
        assert_eq!(
            TypescriptLanguageServerAdapter::for_version(version).guarantees(),
            ServerStateProvider::notifications_only(),
            "declared a guarantee for unmeasured version {version:?}"
        );
    }
}

fn json(text: &str) -> Json {
    Json::from_text(text).expect("test values are valid JSON")
}
