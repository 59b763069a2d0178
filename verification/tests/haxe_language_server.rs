use lsp_det::adapter::haxe_language_server::{identity_from_log, HaxeLanguageServerAdapter, CONNECTED_LOG, KEEPS_CRASHING_MESSAGE};
use lsp_det::state::{Health, Readiness, ServerState, ServerStateProvider};
use lsp_det::peek::peek;

fn progress(token: &str, kind: &str, title: Option<&str>) -> String {
    let title = title
        .map(|t| format!(r#","title":"{t}""#))
        .unwrap_or_default();
    format!(
        r#"{{"jsonrpc":"2.0","method":"$/progress","params":{{"token":"{token}","value":{{"kind":"{kind}"{title}}}}}}}"#
    )
}

fn log_message(message: &str) -> String {
    format!(
        r#"{{"jsonrpc":"2.0","method":"window/logMessage","params":{{"type":4,"message":"{message}"}}}}"#
    )
}

fn show_message(kind: u8, message: &str) -> String {
    format!(
        r#"{{"jsonrpc":"2.0","method":"window/showMessage","params":{{"type":{kind},"message":"{message}"}}}}"#
    )
}

fn feed(adapter: &mut HaxeLanguageServerAdapter, body: &str) -> Option<ServerState> {
    let view = peek(body.as_bytes()).expect("test bodies are valid JSON");
    adapter.interpret(&view, body.as_bytes())
}

#[test]
fn recognizes_the_haxe_path_log_and_nothing_else() {
    assert!(identity_from_log("Haxe Path: haxe"));
    assert!(!identity_from_log("Using --server-connect 127.0.0.1:6000"));
    assert!(!identity_from_log("Done."));
}

#[test]
fn starts_initializing_and_declares_no_guarantee() {
    let m = HaxeLanguageServerAdapter::new();
    assert_eq!(m.initial_state(), ServerState::initializing());
    assert_eq!(m.guarantees(), ServerStateProvider::notifications_only());
}

#[test]
fn concurrent_startup_tokens_only_complete_when_all_have_ended() {
    let mut m = HaxeLanguageServerAdapter::new();
    assert!(
        feed(
            &mut m,
            &progress("0", "begin", Some("Haxe: Building Cache..."))
        )
        .is_none(),
        "a begin does not move an already-initializing server"
    );
    assert!(
        feed(
            &mut m,
            &progress("1", "begin", Some("Haxe: Parsing Classpaths..."))
        )
        .is_none()
    );
    assert!(
        feed(&mut m, &progress("0", "end", None)).is_none(),
        "\"Parsing Classpaths\" is still open"
    );
    assert!(
        feed(
            &mut m,
            &progress(
                "2",
                "begin",
                Some("Haxe: Building Refactoring Cache\u{2026}...")
            )
        )
        .is_none()
    );
    assert!(
        feed(&mut m, &progress("2", "end", None)).is_none(),
        "\"Parsing Classpaths\" is still open"
    );
    let state = feed(&mut m, &progress("1", "end", None)).expect("the last token ended");
    assert_eq!(state.readiness, Readiness::Ready);
}

#[test]
fn a_rebuild_after_ready_goes_through_indexing() {
    let mut m = HaxeLanguageServerAdapter::new();
    feed(
        &mut m,
        &progress("0", "begin", Some("Haxe: Building Cache...")),
    );
    feed(&mut m, &progress("0", "end", None));
    let state = feed(
        &mut m,
        &progress("3", "begin", Some("Haxe: Building Cache...")),
    )
    .expect("a begin while ready moves to indexing");
    assert_eq!(state.readiness, Readiness::Indexing);
    let state = feed(&mut m, &progress("3", "end", None)).expect("back to ready");
    assert_eq!(state.readiness, Readiness::Ready);
}

#[test]
fn per_request_progress_is_ignored() {
    let mut m = HaxeLanguageServerAdapter::new();
    assert!(
        feed(
            &mut m,
            &progress("d", "begin", Some("Haxe: Collecting Diagnostics..."))
        )
        .is_none()
    );
    assert!(feed(&mut m, &progress("d", "end", None)).is_none());
    assert!(
        feed(
            &mut m,
            &progress(
                "r",
                "begin",
                Some("Haxe: Performing Refactor Operation\u{2026}.....")
            )
        )
        .is_none()
    );
    assert_eq!(m.state().readiness, Readiness::Initializing);
}

#[test]
fn health_from_showmessage_and_the_connected_log() {
    let mut m = HaxeLanguageServerAdapter::new();
    let state = feed(
        &mut m,
        &show_message(
            1,
            "Haxe version check failed: \\\"/bin/sh: haxe: command not found\\\"",
        ),
    )
    .expect("an error showMessage moves health");
    assert_eq!(state.health, Health::Error);
    assert_eq!(
        state.message.as_deref(),
        Some("Haxe version check failed: \"/bin/sh: haxe: command not found\"")
    );
    let state = feed(&mut m, &log_message(CONNECTED_LOG)).expect("connected clears health");
    assert_eq!(state.health, Health::Okay);
    assert_eq!(state.message, None);
    // An info showMessage is not a failure.
    assert!(feed(&mut m, &show_message(3, "Checking memory...")).is_none());
}

#[test]
fn keeps_crashing_is_error_health() {
    let mut m = HaxeLanguageServerAdapter::new();
    let body = r#"{"jsonrpc":"2.0","method":"haxe/haxeKeepsCrashing","params":null}"#;
    let state = feed(&mut m, body).expect("the crash notification moves health");
    assert_eq!(state.health, Health::Error);
    assert_eq!(state.message.as_deref(), Some(KEEPS_CRASHING_MESSAGE));
}
