use lsp_det::adapter::gopls::{gopls_version, GoplsAdapter};
use lsp_det::state::{Health, Readiness, ServerState, ServerStateProvider, ALL_FILE_CHANGES};
use lsp_det::peek::peek;

fn status(health: &str, quiescent: bool) -> String {
    format!(
        r#"{{"jsonrpc":"2.0","method":"experimental/serverStatus","params":{{"health":"{health}","quiescent":{quiescent},"message":null}}}}"#
    )
}

// --- gopls ---------------------------------------------------------------

fn progress(token: &str, value: &str) -> String {
    format!(
        r#"{{"jsonrpc":"2.0","method":"$/progress","params":{{"token":"{token}","value":{value}}}}}"#
    )
}

fn setup_begin(token: &str) -> String {
    progress(
        token,
        r#"{"kind":"begin","title":"Setting up workspace","message":"Loading packages...","cancellable":false}"#,
    )
}

fn setup_end(token: &str, message: &str) -> String {
    progress(token, &format!(r#"{{"kind":"end","message":"{message}"}}"#))
}

fn gopls_interpret(adapter: &mut GoplsAdapter, body: &str) -> Option<ServerState> {
    let view = peek(body.as_bytes()).expect("test bodies are valid JSON");
    adapter.interpret(&view, body.as_bytes())
}

#[test]
fn gopls_begin_of_workspace_setup_means_indexing() {
    let mut adapter = GoplsAdapter::new();
    let state = gopls_interpret(&mut adapter, &setup_begin("1")).expect("begin is a signal");
    assert_eq!(state.readiness, Readiness::Indexing);
    assert_eq!(state.health, Health::Unknown, "begin は health を語らない");
}

#[test]
fn gopls_end_of_workspace_setup_means_ready_and_ok() {
    let mut adapter = GoplsAdapter::new();
    gopls_interpret(&mut adapter, &setup_begin("1"));
    let state = gopls_interpret(&mut adapter, &setup_end("1", "Finished loading packages."))
        .expect("end is a signal");
    assert_eq!(state.readiness, Readiness::Ready);
    assert_eq!(state.health, Health::Okay);
}

#[test]
fn gopls_waits_for_all_tokens() {
    let mut adapter = GoplsAdapter::new();
    gopls_interpret(&mut adapter, &setup_begin("a"));
    gopls_interpret(&mut adapter, &setup_begin("b"));
    let after_a = gopls_interpret(&mut adapter, &setup_end("a", "Finished loading packages."));
    assert!(
        after_a
            .as_ref()
            .is_none_or(|s| s.readiness == Readiness::Indexing),
        "1 つ目の end で ready を名乗った: {after_a:?}"
    );
    let after_b = gopls_interpret(&mut adapter, &setup_end("b", "Finished loading packages."))
        .expect("last end is a signal");
    assert_eq!(after_b.readiness, Readiness::Ready);
}

#[test]
fn gopls_successful_reload_after_a_failed_load_restores_ok() {
    // フォルダ追加などで再ロードが成功したら、観測できた成功に基づいて
    // health を ok に戻す (Copilot の指摘)。
    let mut adapter = GoplsAdapter::new();
    gopls_interpret(&mut adapter, &setup_begin("1"));
    let failed = gopls_interpret(&mut adapter, &setup_end("1", "Error loading packages: x"))
        .expect("end is a signal");
    assert_eq!(failed.health, Health::Error);

    gopls_interpret(&mut adapter, &setup_begin("2"));
    let state = gopls_interpret(&mut adapter, &setup_end("2", "Finished loading packages."))
        .expect("end is a signal");
    assert_eq!(state.readiness, Readiness::Ready);
    assert_eq!(state.health, Health::Okay, "再ロードの成功で ok に戻る");
    assert_eq!(state.message, None);
}

#[test]
fn gopls_a_round_with_one_failed_folder_stays_error() {
    // 同じロードの中で 1 フォルダでも失敗していれば、後のフォルダが
    // 成功しても error のまま (結果は信頼できない)。
    let mut adapter = GoplsAdapter::new();
    gopls_interpret(&mut adapter, &setup_begin("a"));
    gopls_interpret(&mut adapter, &setup_begin("b"));
    gopls_interpret(&mut adapter, &setup_end("a", "Error loading packages: x"));
    let state = gopls_interpret(&mut adapter, &setup_end("b", "Finished loading packages."))
        .expect("last end is a signal");
    assert_eq!(state.readiness, Readiness::Ready);
    assert_eq!(state.health, Health::Error);
    assert_eq!(state.message.as_deref(), Some("Error loading packages: x"));
}

#[test]
fn gopls_end_of_an_unknown_token_is_ignored() {
    // トークンは begin で覚えたものだけ。他の progress の end で ready にしない。
    let mut adapter = GoplsAdapter::new();
    assert!(
        gopls_interpret(
            &mut adapter,
            &setup_end("stray", "Finished loading packages.")
        )
        .is_none()
    );
}

#[test]
fn gopls_failed_load_is_ready_but_error() {
    let mut adapter = GoplsAdapter::new();
    gopls_interpret(&mut adapter, &setup_begin("1"));
    let state = gopls_interpret(
        &mut adapter,
        &setup_end("1", "Error loading packages: no Go files"),
    )
    .expect("end is a signal");
    assert_eq!(state.readiness, Readiness::Ready);
    assert_eq!(state.health, Health::Error);
    assert_eq!(
        state.message.as_deref(),
        Some("Error loading packages: no Go files")
    );
}

#[test]
fn gopls_workspace_load_failure_progress_drives_health() {
    let mut adapter = GoplsAdapter::new();
    gopls_interpret(&mut adapter, &setup_begin("1"));
    gopls_interpret(&mut adapter, &setup_end("1", "Finished loading packages."));

    let begin = progress(
        "e",
        r#"{"kind":"begin","title":"Error loading workspace","message":"err: go.mod file not found","cancellable":false}"#,
    );
    let state = gopls_interpret(&mut adapter, &begin).expect("failure begin is a signal");
    assert_eq!(state.health, Health::Error);
    assert_eq!(state.message.as_deref(), Some("err: go.mod file not found"));
    assert_eq!(state.readiness, Readiness::Ready, "readiness は変えない");

    let report = progress("e", r#"{"kind":"report","message":"err: still broken"}"#);
    let state = gopls_interpret(&mut adapter, &report).expect("report updates the message");
    assert_eq!(state.health, Health::Error);
    assert_eq!(state.message.as_deref(), Some("err: still broken"));

    let end = progress("e", r#"{"kind":"end","message":"Done."}"#);
    let state = gopls_interpret(&mut adapter, &end).expect("failure end is a signal");
    assert_eq!(state.health, Health::Okay);
}

#[test]
fn gopls_ignores_other_progress_titles_and_other_methods() {
    let mut adapter = GoplsAdapter::new();
    let diag = progress(
        "d",
        r#"{"kind":"begin","title":"Calculating diagnostics","message":"..."}"#,
    );
    assert!(gopls_interpret(&mut adapter, &diag).is_none());
    assert!(
        gopls_interpret(
            &mut adapter,
            &progress("d", r#"{"kind":"end","message":"Done."}"#)
        )
        .is_none()
    );
    assert!(
        gopls_interpret(&mut adapter, &status("ok", true)).is_none(),
        "rust-analyzer の語彙は読まない"
    );
}

/// nix ビルドの gopls v0.23.0 が名乗った文字列 (2026-09-03 実測)。
const GOPLS_VERSION_JSON: &str = r#"{"GoVersion":"go1.27.0","Path":"golang.org/x/tools/gopls","Main":{"Path":"golang.org/x/tools/gopls","Version":"(devel)"},"Deps":[{"Path":"golang.org/x/tools","Version":"v0.47.1-0.20260707181000-a299dadba899"}],"Settings":[{"Key":"GOOS","Value":"linux"}],"Version":"v0.23.0"}"#;

#[test]
fn gopls_reads_the_version_out_of_the_build_info_json() {
    // serverInfo.version はビルド情報の JSON。最上位の "Version" が版で、
    // Main.Version は nix ビルドでは "(devel)"。
    assert_eq!(gopls_version(GOPLS_VERSION_JSON).as_deref(), Some("0.23.0"));
    assert_eq!(gopls_version("v0.23.0").as_deref(), Some("0.23.0"));
    assert_eq!(gopls_version("0.23.0").as_deref(), Some("0.23.0"));
    assert_eq!(gopls_version(" v0.23.0 ").as_deref(), Some("0.23.0"));
    assert_eq!(gopls_version("(devel)"), None, "X.Y.Z 以外は受理しない");
    assert_eq!(gopls_version("0.23"), None);
    assert_eq!(gopls_version(""), None);
}

#[test]
fn gopls_declares_guarantees_only_for_versions_the_conformance_suite_passed_on() {
    // The conformance tests passed against a real gopls v0.23.0; nothing is declared for
    // any other version.
    assert_eq!(
        GoplsAdapter::for_version(Some(GOPLS_VERSION_JSON)).guarantees(),
        ServerStateProvider::workspace(&[("workspace/symbol", 100)], &ALL_FILE_CHANGES)
    );
    for untested in [
        Some("v0.22.0"),
        Some("(devel)"),
        Some("1.98.0 (fake)"),
        None,
    ] {
        assert_eq!(
            GoplsAdapter::for_version(untested).guarantees(),
            ServerStateProvider::notifications_only(),
            "テストを当てていない版 {untested:?} に保証を宣言した"
        );
    }
}
