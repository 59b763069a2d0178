use lsp_det::adapter::pyright::{startup_identity, PyrightAdapter};
use lsp_det::state::{FileChangeType, ServerState, ServerStateProvider};
use lsp_det::peek::peek;
use lsp_det::state::{Health, Readiness};

fn log(kind: u8, message: &str) -> String {
    format!(
        r#"{{"jsonrpc":"2.0","method":"window/logMessage","params":{{"type":{kind},"message":"{message}"}}}}"#
    )
}

fn info(message: &str) -> String {
    log(3, message)
}

fn interpret(adapter: &mut PyrightAdapter, body: &str) -> Option<ServerState> {
    let view = peek(body.as_bytes()).expect("test bodies are valid JSON");
    adapter.interpret(&view, body.as_bytes())
}

fn started(adapter: &mut PyrightAdapter, folder: &str) -> Option<ServerState> {
    interpret(
        adapter,
        &info(&format!("Starting service instance \\\"{folder}\\\"")),
    )
}

// --- what the server calls itself -------------------------------------------

#[test]
fn reads_the_name_and_version_out_of_the_startup_log() {
    // The exact wording a real pyright was observed to log.
    let pyright = startup_identity("Pyright language server 1.1.412 starting")
        .expect("pyright's startup log is an identity announcement");
    assert_eq!(pyright.name, "pyright");
    assert_eq!(pyright.version.as_deref(), Some("1.1.412"));

    let based = startup_identity("basedpyright language server 1.39.8 starting")
        .expect("basedpyright's startup log is an identity announcement");
    assert_eq!(based.name, "basedpyright");
    assert_eq!(based.version.as_deref(), Some("1.39.8"));
}

#[test]
fn the_startup_log_may_omit_the_version() {
    // The version can be omitted, since it comes from
    // `serverOptions.version && serverOptions.version + ' '`.
    let identity = startup_identity("Pyright language server starting")
        .expect("still an identity announcement without a version");
    assert_eq!(identity.name, "pyright");
    assert_eq!(identity.version, None);
}

#[test]
fn pyright_other_log_lines_are_not_identities() {
    for other in [
        "Server root directory: file:///nix/store/x/dist",
        "Starting service instance \"pyfix\"",
        "Found 2 source files",
        "rust-analyzer 1.98.0 starting",
        "language server starting",
        "",
    ] {
        assert!(
            startup_identity(other).is_none(),
            "not an identity announcement: {other:?}"
        );
    }
}

// --- readiness -------------------------------------------------------------

#[test]
fn pyright_starts_initializing_with_unknown_health() {
    let adapter = PyrightAdapter::new();
    let state = adapter.initial_state();
    assert_eq!(state.readiness, Readiness::Initializing);
    assert_eq!(state.health, Health::Unknown);
}

#[test]
fn enumeration_of_the_only_folder_means_ready() {
    let mut adapter = PyrightAdapter::new();
    started(&mut adapter, "pyfix");
    let state =
        interpret(&mut adapter, &info("Found 2 source files")).expect("completion is a signal");
    assert_eq!(state.readiness, Readiness::Ready);
    assert_eq!(
        state.health,
        Health::Unknown,
        "enumeration completion is not an observation of health"
    );
}

#[test]
fn no_source_files_is_also_a_completion() {
    let mut adapter = PyrightAdapter::new();
    started(&mut adapter, "empty");
    let state = interpret(&mut adapter, &info("No source files found."))
        .expect("completion is a signal");
    assert_eq!(state.readiness, Readiness::Ready);
}

#[test]
fn waits_for_every_workspace_folder() {
    // "Starting service instance" and a completion log each appear once per folder.
    let mut adapter = PyrightAdapter::new();
    started(&mut adapter, "one");
    started(&mut adapter, "two");
    let after_one = interpret(&mut adapter, &info("Found 400 source files"));
    assert!(
        after_one
            .as_ref()
            .is_none_or(|s| s.readiness != Readiness::Ready),
        "claimed ready on the completion of one folder: {after_one:?}"
    );
    let after_two = interpret(&mut adapter, &info("Found 1200 source files"))
        .expect("the last completion is a signal");
    assert_eq!(after_two.readiness, Readiness::Ready);
}

#[test]
fn a_folder_added_after_ready_rearms() {
    // didChangeWorkspaceFolders starts a new service instance.
    let mut adapter = PyrightAdapter::new();
    started(&mut adapter, "one");
    interpret(&mut adapter, &info("Found 1 source file"));
    let state = started(&mut adapter, "two").expect("starting a new folder is a signal");
    assert_eq!(state.readiness, Readiness::Indexing);
    let state =
        interpret(&mut adapter, &info("Found 3 source files")).expect("completion is a signal");
    assert_eq!(state.readiness, Readiness::Ready);
}

#[test]
fn reenumeration_start_rearms_when_it_is_visible() {
    // "Searching for source files" is log level and not delivered by default, but when it
    // is delivered, it reverts to indexing as the start of re-enumeration.
    let mut adapter = PyrightAdapter::new();
    started(&mut adapter, "one");
    interpret(&mut adapter, &info("Found 1 source file"));
    let state = interpret(&mut adapter, &log(4, "Searching for source files"))
        .expect("the start of re-enumeration is a signal");
    assert_eq!(state.readiness, Readiness::Indexing);
    let state =
        interpret(&mut adapter, &info("Found 2 source files")).expect("completion is a signal");
    assert_eq!(state.readiness, Readiness::Ready);
}

#[test]
fn a_completion_without_a_started_instance_is_ignored() {
    // Does not become ready on a completion log with nothing to count against.
    let mut adapter = PyrightAdapter::new();
    assert!(interpret(&mut adapter, &info("Found 2 source files")).is_none());
}

#[test]
fn pyright_ignores_other_logs_progress_and_other_vocabularies() {
    let mut adapter = PyrightAdapter::new();
    started(&mut adapter, "one");
    for other in [
        info("Pyright language server 1.1.412 starting"),
        info("Server root directory: file:///x"),
        info("Assuming Python version 3.14.7.final.0"),
        info("Auto-excluding **/node_modules"),
        log(1, "some error"),
        r#"{"jsonrpc":"2.0","method":"$/progress","params":{"token":"t","value":{"kind":"begin","title":"Finding references"}}}"#.to_string(),
        r#"{"jsonrpc":"2.0","method":"$/progress","params":{"token":"t","value":{"kind":"end"}}}"#.to_string(),
        r#"{"jsonrpc":"2.0","method":"experimental/serverStatus","params":{"health":"ok","quiescent":true,"message":null}}"#.to_string(),
        r#"{"jsonrpc":"2.0","method":"window/showMessage","params":{"type":3,"message":"Found 2 source files"}}"#.to_string(),
    ] {
        assert!(
            interpret(&mut adapter, &other).is_none(),
            "the state moved on an unrelated message: {other}"
        );
    }
}

#[test]
fn health_never_leaves_unknown() {
    let mut adapter = PyrightAdapter::new();
    started(&mut adapter, "one");
    let state = interpret(&mut adapter, &info("Found 1 source file")).unwrap();
    assert_eq!(state.health, Health::Unknown);
    assert_eq!(state.message, None);
}

// --- guarantee ---------------------------------------------------------------

#[test]
fn pyright_declares_guarantees_only_for_versions_the_conformance_suite_passed_on() {
    // The conformance tests passed against a real pyright 1.1.412 and a real basedpyright
    // 1.39.8.
    // Since version numbers are a separate series per product, the list is kept per
    // product too.
    assert_eq!(
        PyrightAdapter::for_identity("pyright", Some("1.1.412")).guarantees(),
        ServerStateProvider::workspace(&[], &[FileChangeType::Changed])
    );
    assert_eq!(
        PyrightAdapter::for_identity("basedpyright", Some("1.39.8")).guarantees(),
        ServerStateProvider::workspace(&[], &[FileChangeType::Changed])
    );
    for (name, version) in [
        ("pyright", Some("1.1.400")),
        ("pyright", Some("1.39.8")),
        ("pyright", None),
        ("basedpyright", Some("1.1.412")),
        ("basedpyright", Some("1.39.7")),
        ("basedpyright", None),
        ("other", Some("1.1.412")),
    ] {
        assert_eq!(
            PyrightAdapter::for_identity(name, version).guarantees(),
            ServerStateProvider::notifications_only(),
            "declared a guarantee for unmeasured {name} {version:?}"
        );
    }
}
