use lsp_det::adapter::clangd::ClangdAdapter;
use lsp_det::peek::peek;
use lsp_det::state::{Health, Readiness, ServerState, ServerStateProvider};
use lsp_det::uri::path_to_uri;

const BACKGROUND_INDEX_TOKEN: &str = "backgroundIndexProgress";

fn progress(token: &str, kind: &str) -> String {
    format!(
        r#"{{"jsonrpc":"2.0","method":"$/progress","params":{{"token":"{token}","value":{{"kind":"{kind}"}}}}}}"#
    )
}

fn feed(adapter: &mut ClangdAdapter, body: &str) -> Option<ServerState> {
    let view = peek(body.as_bytes()).expect("test bodies are valid JSON");
    adapter.interpret(&view, body.as_bytes())
}

/// A workspace held in memory: the files that exist, by absolute path. The probe asks which
/// files to look for; this answers from the list, as a look at the disk would.
struct Fixture {
    root: String,
    files: Vec<String>,
}

impl Fixture {
    fn new(tag: &str) -> Self {
        Fixture {
            root: format!("/tmp/lsp-det-clangd-adapter-{tag}"),
            files: Vec::new(),
        }
    }

    fn path(&self, rel: &str) -> String {
        format!("{}/{rel}", self.root)
    }

    fn write(&mut self, rel: &str) {
        let p = self.path(rel);
        self.files.push(p);
    }

    fn file(&mut self, rel: &str) -> String {
        self.write(rel);
        self.path(rel)
    }
}

fn did_open(path: &str) -> String {
    format!(
        r#"{{"jsonrpc":"2.0","method":"textDocument/didOpen","params":{{"textDocument":{{"uri":"{}","languageId":"cpp","version":1,"text":""}}}}}}"#,
        path_to_uri(path)
    )
}

fn observe(adapter: &mut ClangdAdapter, fixture: &Fixture, body: &str) -> Option<ServerState> {
    let view = peek(body.as_bytes()).expect("test bodies are valid JSON");
    let candidates = adapter.probe_request(&view, body.as_bytes())?;
    let found = candidates.iter().any(|c| fixture.files.contains(c));
    adapter.settle_probe(found)
}

#[test]
fn clangd_starts_initializing() {
    let m = ClangdAdapter::new();
    assert_eq!(m.state().readiness, Readiness::Initializing);
    assert_eq!(m.state().health, Health::Unknown);
}

#[test]
fn a_begin_of_the_background_index_token_is_indexing_and_its_end_is_ready() {
    let mut m = ClangdAdapter::new();
    let state = feed(&mut m, &progress(BACKGROUND_INDEX_TOKEN, "begin"))
        .expect("a begin of the background index token is a signal");
    assert_eq!(state.readiness, Readiness::Indexing);
    assert_eq!(state.health, Health::Unknown);
    let state = feed(&mut m, &progress(BACKGROUND_INDEX_TOKEN, "end"))
        .expect("the matching end is a signal");
    assert_eq!(state.readiness, Readiness::Ready);
    assert_eq!(m.state().readiness, Readiness::Ready);
}

#[test]
fn report_is_ignored() {
    let mut m = ClangdAdapter::new();
    feed(&mut m, &progress(BACKGROUND_INDEX_TOKEN, "begin"));
    assert!(
        feed(&mut m, &progress(BACKGROUND_INDEX_TOKEN, "report")).is_none(),
        "report must not be read"
    );
    assert_eq!(
        m.state().readiness,
        Readiness::Indexing,
        "a report must not move readiness away from indexing"
    );
}

#[test]
fn clangd_a_later_begin_after_ready_reindexes_and_its_end_is_ready_again() {
    let mut m = ClangdAdapter::new();
    feed(&mut m, &progress(BACKGROUND_INDEX_TOKEN, "begin"));
    feed(&mut m, &progress(BACKGROUND_INDEX_TOKEN, "end"));
    assert_eq!(m.state().readiness, Readiness::Ready);
    let state = feed(&mut m, &progress(BACKGROUND_INDEX_TOKEN, "begin"))
        .expect("a begin while ready (the queue non-empty again) is a signal");
    assert_eq!(state.readiness, Readiness::Indexing);
    let state =
        feed(&mut m, &progress(BACKGROUND_INDEX_TOKEN, "end")).expect("its end is a signal");
    assert_eq!(state.readiness, Readiness::Ready);
}

#[test]
fn clangd_ignores_other_tokens() {
    let mut m = ClangdAdapter::new();
    assert!(feed(&mut m, &progress("some-other-token", "begin")).is_none());
    assert!(feed(&mut m, &progress("some-other-token", "end")).is_none());
    assert_eq!(m.state().readiness, Readiness::Initializing);
}

#[test]
fn clangd_ignores_a_progress_that_happens_to_use_the_token_as_a_request() {
    let mut m = ClangdAdapter::new();
    let as_request = format!(
        r#"{{"jsonrpc":"2.0","id":1,"method":"$/progress","params":{{"token":"{BACKGROUND_INDEX_TOKEN}","value":{{"kind":"begin"}}}}}}"#
    );
    let view = peek(as_request.as_bytes()).unwrap();
    assert!(m.interpret(&view, as_request.as_bytes()).is_none());
    assert_eq!(m.state().readiness, Readiness::Initializing);
}

#[test]
fn clangd_health_stays_unknown_regardless_of_readiness() {
    let mut m = ClangdAdapter::new();
    assert_eq!(
        feed(&mut m, &progress(BACKGROUND_INDEX_TOKEN, "begin")).unwrap().health,
        Health::Unknown
    );
    assert_eq!(
        feed(&mut m, &progress(BACKGROUND_INDEX_TOKEN, "end")).unwrap().health,
        Health::Unknown
    );
}

#[test]
fn without_any_signal_readiness_stays_initializing() {
    let m = ClangdAdapter::new();
    assert_eq!(m.state().readiness, Readiness::Initializing);
}

#[test]
fn a_did_open_whose_uri_is_not_a_file_does_not_use_up_the_probe() {
    let mut fixture = Fixture::new("non-file-uri-first");
    let opened = fixture.file("main.cpp");
    let mut m = ClangdAdapter::new();
    let untitled = r#"{"jsonrpc":"2.0","method":"textDocument/didOpen","params":{"textDocument":{"uri":"untitled:Untitled-1","languageId":"cpp","version":1,"text":""}}}"#;
    assert!(observe(&mut m, &fixture, untitled).is_none());
    let state = observe(&mut m, &fixture, &did_open(&opened))
        .expect("the first didOpen with a real path is the one that probes");
    assert_eq!(state.readiness, Readiness::Unknown);
}

#[test]
fn a_compile_commands_json_beside_the_opened_file_leaves_readiness_untouched() {
    let mut fixture = Fixture::new("beside");
    fixture.write("compile_commands.json");
    let opened = fixture.file("main.cpp");
    let mut m = ClangdAdapter::new();
    assert!(
        observe(&mut m, &fixture, &did_open(&opened)).is_none(),
        "a database was found next to the opened file, so nothing should change"
    );
    assert_eq!(m.state().readiness, Readiness::Initializing);
}

#[test]
fn a_build_compile_commands_json_in_a_parent_directory_leaves_readiness_untouched() {
    let mut fixture = Fixture::new("build-parent");
    fixture.write("build/compile_commands.json");
    let opened = fixture.file("src/main.cpp");
    let mut m = ClangdAdapter::new();
    assert!(
        observe(&mut m, &fixture, &did_open(&opened)).is_none(),
        "walking up from src/ must reach the parent's build/compile_commands.json"
    );
    assert_eq!(m.state().readiness, Readiness::Initializing);
}

#[test]
fn a_compile_flags_txt_beside_the_opened_file_leaves_readiness_untouched() {
    let mut fixture = Fixture::new("flags");
    fixture.write("compile_flags.txt");
    let opened = fixture.file("main.cpp");
    let mut m = ClangdAdapter::new();
    assert!(observe(&mut m, &fixture, &did_open(&opened)).is_none());
    assert_eq!(m.state().readiness, Readiness::Initializing);
}

#[test]
fn no_database_anywhere_up_to_the_root_becomes_unknown() {
    let mut fixture = Fixture::new("none");
    let opened = fixture.file("main.cpp");
    let mut m = ClangdAdapter::new();
    let state = observe(&mut m, &fixture, &did_open(&opened))
        .expect("no database found anywhere is a signal");
    assert_eq!(state.readiness, Readiness::Unknown);
    assert_eq!(m.state().readiness, Readiness::Unknown);
}

#[test]
fn compile_commands_dir_scopes_the_probe_to_that_one_directory() {
    let mut fixture = Fixture::new("cdb-dir");
    fixture.write("compile_commands.json");
    let opened = fixture.file("main.cpp");
    let elsewhere = fixture.path("elsewhere");
    let mut m = ClangdAdapter::new();
    m.learn_upstream_arguments(&[format!("--compile-commands-dir={}", elsewhere)]);
    let state = observe(&mut m, &fixture, &did_open(&opened)).expect(
        "--compile-commands-dir scopes the probe to its own directory, which has no database",
    );
    assert_eq!(state.readiness, Readiness::Unknown);
}

#[test]
fn a_begin_after_unknown_still_moves_to_indexing_and_its_end_to_ready() {
    let mut fixture = Fixture::new("begin-after-unknown");
    let opened = fixture.file("main.cpp");
    let mut m = ClangdAdapter::new();
    observe(&mut m, &fixture, &did_open(&opened));
    assert_eq!(m.state().readiness, Readiness::Unknown);
    let state = feed(&mut m, &progress(BACKGROUND_INDEX_TOKEN, "begin"))
        .expect("a begin still moves readiness even after the probe settled on unknown");
    assert_eq!(state.readiness, Readiness::Indexing);
    let state = feed(&mut m, &progress(BACKGROUND_INDEX_TOKEN, "end")).unwrap();
    assert_eq!(state.readiness, Readiness::Ready);
}

#[test]
fn a_second_did_open_is_not_read() {
    let mut fixture = Fixture::new("second-open");
    let opened = fixture.file("main.cpp");
    let mut m = ClangdAdapter::new();
    observe(&mut m, &fixture, &did_open(&opened));
    assert_eq!(m.state().readiness, Readiness::Unknown);
    fixture.write("withdb/compile_commands.json");
    let second = fixture.file("withdb/second.cpp");
    assert!(
        observe(&mut m, &fixture, &did_open(&second)).is_none(),
        "a second didOpen must not be read (the judgment is made once)"
    );
    assert_eq!(
        m.state().readiness,
        Readiness::Unknown,
        "the first judgment must stick"
    );
}

#[test]
fn clangd_declares_a_guarantee_only_for_the_tested_version() {
    let tested =
        ClangdAdapter::for_version(Some("clangd version 21.1.8 linux x86_64-unknown-linux-gnu"));
    assert_eq!(tested.guarantees(), ServerStateProvider::coverage_only(&[]));
    let untested =
        ClangdAdapter::for_version(Some("clangd version 20.1.0 linux x86_64-unknown-linux-gnu"));
    assert_eq!(untested.guarantees(), ServerStateProvider::notifications_only());
    let different_platform =
        ClangdAdapter::for_version(Some("clangd version 21.1.8 darwin arm64-apple-darwin"));
    assert_eq!(
        different_platform.guarantees(),
        ServerStateProvider::notifications_only(),
        "a different platform build is a different, untested version"
    );
    let unversioned = ClangdAdapter::new();
    assert_eq!(unversioned.guarantees(), ServerStateProvider::notifications_only());
}

#[test]
fn clangd_a_tested_guarantee_declares_no_freshness() {
    let tested =
        ClangdAdapter::for_version(Some("clangd version 21.1.8 linux x86_64-unknown-linux-gnu"));
    let json = String::from_utf8(tested.guarantees().to_json().to_bytes()).unwrap();
    assert!(!json.contains("freshness"), "clangd must not declare freshness: {json}");
    assert!(json.contains("coverage"), "clangd must declare coverage: {json}");
}

#[test]
fn clangd_probe_names_each_directory_up_to_the_root() {
    let mut m = ClangdAdapter::new();
    let body = did_open("/w/src/main.cpp");
    let view = peek(body.as_bytes()).unwrap();
    let files = m.probe_request(&view, body.as_bytes()).unwrap();
    assert_eq!(
        files,
        vec![
            "/w/src/compile_commands.json",
            "/w/src/build/compile_commands.json",
            "/w/src/compile_flags.txt",
            "/w/compile_commands.json",
            "/w/build/compile_commands.json",
            "/w/compile_flags.txt",
            "/compile_commands.json",
            "/build/compile_commands.json",
            "/compile_flags.txt",
        ]
    );
    assert!(m.probe_request(&view, body.as_bytes()).is_none(), "the probe is used up");
}

#[test]
fn clangd_reads_the_compile_commands_dir_flag_followed_by_its_value() {
    let mut m = ClangdAdapter::new();
    m.learn_upstream_arguments(&[
        "--log=error".to_string(),
        "--compile-commands-dir".to_string(),
        "/cdb".to_string(),
        "--compile-commands-dir=/later".to_string(),
    ]);
    let body = did_open("/w/main.cpp");
    let view = peek(body.as_bytes()).unwrap();
    let files = m.probe_request(&view, body.as_bytes()).unwrap();
    assert_eq!(files, vec!["/cdb/compile_commands.json"]);
}

#[test]
fn clangd_a_did_open_of_the_root_does_not_use_up_the_probe() {
    let mut m = ClangdAdapter::new();
    let body = r#"{"jsonrpc":"2.0","method":"textDocument/didOpen","params":{"textDocument":{"uri":"file:///","languageId":"cpp","version":1,"text":""}}}"#;
    let view = peek(body.as_bytes()).unwrap();
    assert!(m.probe_request(&view, body.as_bytes()).is_none());
    let body = did_open("/main.cpp");
    let view = peek(body.as_bytes()).unwrap();
    assert_eq!(
        m.probe_request(&view, body.as_bytes()).unwrap(),
        vec!["/compile_commands.json", "/build/compile_commands.json", "/compile_flags.txt"]
    );
}
