use lsp_det::adapter::metals::{is_watched_file, MetalsAdapter};
use lsp_det::state::{Health, Readiness, ServerState, ServerStateProvider, ALL_FILE_CHANGES};
use lsp_det::peek::peek;

fn progress(token: &str, kind: &str, title: Option<&str>) -> String {
    let title = title
        .map(|t| format!(r#","title":"{t}""#))
        .unwrap_or_default();
    format!(
        r#"{{"jsonrpc":"2.0","method":"$/progress","params":{{"token":"{token}","value":{{"kind":"{kind}"{title}}}}}}}"#
    )
}

fn feed(adapter: &mut MetalsAdapter, body: &str) -> Option<ServerState> {
    let view = peek(body.as_bytes()).expect("test bodies are valid JSON");
    adapter.interpret(&view, body.as_bytes())
}

#[test]
fn ready_needs_no_open_token_and_an_indexing_end() {
    let mut m = MetalsAdapter::new();
    assert_eq!(
        feed(&mut m, &progress("b", "begin", Some("scala-cli bspConfig")))
            .unwrap()
            .readiness,
        Readiness::Indexing
    );
    // The gap: no token open, but Indexing has never ended.
    assert_eq!(
        feed(&mut m, &progress("b", "end", None)).unwrap().readiness,
        Readiness::Indexing
    );
    feed(&mut m, &progress("i", "begin", Some("Importing build")));
    feed(&mut m, &progress("i", "end", None));
    feed(&mut m, &progress("x", "begin", Some("Indexing")));
    feed(&mut m, &progress("c", "begin", Some("Compiling fixture_1")));
    assert_eq!(
        feed(&mut m, &progress("x", "end", None)).unwrap().readiness,
        Readiness::Indexing,
        "Compiling is still open"
    );
    assert_eq!(
        feed(&mut m, &progress("c", "end", None)).unwrap().readiness,
        Readiness::Indexing,
        "the last ended token is Compiling"
    );
    feed(&mut m, &progress("x2", "begin", Some("Indexing")));
    assert_eq!(
        feed(&mut m, &progress("x2", "end", None))
            .unwrap()
            .readiness,
        Readiness::Ready
    );
}

#[test]
fn presentation_compiler_and_unknown_titles_are_ignored() {
    let mut m = MetalsAdapter::new();
    assert!(
        feed(
            &mut m,
            &progress("p", "begin", Some("Loading presentation compiler"))
        )
        .is_none()
    );
    assert!(feed(&mut m, &progress("p", "end", None)).is_none());
    assert!(feed(&mut m, &progress("d", "begin", Some("Running doctor"))).is_none());
}

#[test]
fn health_from_the_module_status_level() {
    let mut m = MetalsAdapter::new();
    let status = |level: &str, text: &str, tooltip: &str, kind: &str| {
        format!(
            r#"{{"jsonrpc":"2.0","method":"metals/status","params":{{"text":"{text}","level":"{level}","show":true,"tooltip":"{tooltip}","statusType":"{kind}"}}}}"#
        )
    };
    assert!(
        feed(&mut m, &status("info", " Indexing complete!", "", "metals")).is_none(),
        "the status bar text is not health"
    );
    let s = feed(&mut m, &status("info", "importing...", "", "module")).unwrap();
    assert_eq!(s.health, Health::Okay);
    let s = feed(
        &mut m,
        &status(
            "error",
            "no target",
            "No build target for file found.",
            "module",
        ),
    )
    .unwrap();
    assert_eq!(s.health, Health::Error);
    assert_eq!(
        s.message.as_deref(),
        Some("No build target for file found.")
    );
    let s = feed(&mut m, &status("warn", "fixture", "", "module")).unwrap();
    assert_eq!(s.health, Health::Warning);
    assert_eq!(s.message.as_deref(), Some("fixture"));
}

#[test]
fn predicts_indexing_from_watched_scala_and_build_files_only_when_ready() {
    let mut m = MetalsAdapter::new();
    let changed = |name: &str| {
        format!(
            r#"{{"jsonrpc":"2.0","method":"workspace/didChangeWatchedFiles","params":{{"changes":[{{"uri":"file:///w/{name}","type":2}}]}}}}"#
        )
    };
    let observe = |m: &mut MetalsAdapter, body: &str| {
        let view = peek(body.as_bytes()).unwrap();
        m.observe_client(&view, body.as_bytes())
    };
    assert!(
        observe(&mut m, &changed("C.scala")).is_none(),
        "not ready yet"
    );
    feed(&mut m, &progress("x", "begin", Some("Indexing")));
    feed(&mut m, &progress("x", "end", None));
    assert!(observe(&mut m, &changed("README.md")).is_none());
    assert_eq!(
        observe(&mut m, &changed("project.scala"))
            .unwrap()
            .readiness,
        Readiness::Indexing
    );
    assert!(
        observe(&mut m, &changed("C.scala")).is_none(),
        "already indexing"
    );
    feed(&mut m, &progress("c", "begin", Some("Compiling fixture_1")));
    assert_eq!(
        feed(&mut m, &progress("c", "end", None)).unwrap().readiness,
        Readiness::Indexing
    );
    feed(&mut m, &progress("x2", "begin", Some("Indexing")));
    assert_eq!(
        feed(&mut m, &progress("x2", "end", None))
            .unwrap()
            .readiness,
        Readiness::Ready
    );
    assert!(is_watched_file("file:///w/build.sbt"));
    assert!(is_watched_file("file://C:\\w\\A.scala"));
    assert!(!is_watched_file("file:///w/notes.txt"));
}

#[test]
fn declares_guarantees_only_for_tested_versions() {
    assert_eq!(
        MetalsAdapter::for_version(Some("1.6.8")).guarantees(),
        ServerStateProvider::notifications_only(),
        "no version has passed 7.2 / 7.3 yet"
    );
}
