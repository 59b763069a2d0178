use lsp_det::adapter::expert::ExpertAdapter;
use lsp_det::state::{Readiness, ServerState, ServerStateProvider};
use lsp_det::peek::peek;

fn progress(token: i64, kind: &str, title: Option<&str>) -> String {
    let title = title
        .map(|t| format!(r#","title":"{t}""#))
        .unwrap_or_default();
    format!(
        r#"{{"jsonrpc":"2.0","method":"$/progress","params":{{"token":{token},"value":{{"kind":"{kind}"{title}}}}}}}"#
    )
}

fn feed(adapter: &mut ExpertAdapter, body: &str) -> Option<ServerState> {
    let view = peek(body.as_bytes()).expect("test bodies are valid JSON");
    adapter.interpret(&view, body.as_bytes())
}

fn readiness_after(adapter: &mut ExpertAdapter, body: &str) -> Readiness {
    feed(adapter, body)
        .expect("a phase token moves the state")
        .readiness
}

#[test]
fn ready_only_after_the_indexing_end_with_nothing_open() {
    let mut m = ExpertAdapter::new();
    assert_eq!(
        readiness_after(
            &mut m,
            &progress(1, "begin", Some("[fixture] Starting engine node"))
        ),
        Readiness::Indexing
    );
    feed(
        &mut m,
        &progress(2, "begin", Some("[fixture] Preparing engine")),
    );
    feed(&mut m, &progress(2, "end", None));
    // The gap: the engine is up, no token is open, the build has not started.
    assert_eq!(
        readiness_after(&mut m, &progress(1, "end", None)),
        Readiness::Indexing
    );
    feed(&mut m, &progress(3, "begin", Some("Building fixture")));
    assert_eq!(
        readiness_after(&mut m, &progress(3, "end", None)),
        Readiness::Indexing,
        "a build alone does not complete a round"
    );
    feed(&mut m, &progress(4, "begin", Some("Indexing source code")));
    assert_eq!(
        readiness_after(&mut m, &progress(4, "end", None)),
        Readiness::Ready
    );
    // A later build reindexes.
    assert_eq!(
        readiness_after(&mut m, &progress(5, "begin", Some("Building fixture"))),
        Readiness::Indexing
    );
    feed(&mut m, &progress(5, "end", None));
    feed(&mut m, &progress(6, "begin", Some("Indexing source code")));
    assert_eq!(
        readiness_after(&mut m, &progress(6, "end", None)),
        Readiness::Ready
    );
}

#[test]
fn request_processing_titles_are_ignored() {
    let mut m = ExpertAdapter::new();
    assert!(
        feed(
            &mut m,
            &progress(9, "begin", Some("Finding Completion Candidates"))
        )
        .is_none()
    );
    assert!(feed(&mut m, &progress(9, "end", None)).is_none());
}

#[test]
fn a_loaded_index_completes_a_round_like_a_fresh_one() {
    // Measured on a warm start: "Building" then "Loading search index" with no
    // "Indexing source code" after it.
    let mut m = ExpertAdapter::new();
    feed(&mut m, &progress(3, "begin", Some("Building fixture")));
    assert_eq!(
        readiness_after(&mut m, &progress(3, "end", None)),
        Readiness::Indexing
    );
    feed(&mut m, &progress(6, "begin", Some("Loading search index")));
    assert_eq!(
        readiness_after(&mut m, &progress(6, "end", None)),
        Readiness::Ready
    );
}

#[test]
fn expert_never_declares_a_guarantee() {
    assert_eq!(
        ExpertAdapter::new().guarantees(),
        ServerStateProvider::notifications_only()
    );
}
