use lsp_det::adapter::gleam::{is_dependency_progress_begin, GleamAdapter, DEPENDENCY_PROGRESS_TITLE};
use lsp_det::state::{Readiness, ServerState, ServerStateProvider};
use lsp_det::peek::peek;
use lsp_det::state::Health;

fn progress(token: &str, kind: &str, title: Option<&str>) -> String {
    let title = title
        .map(|t| format!(r#","title":"{t}""#))
        .unwrap_or_default();
    format!(
        r#"{{"jsonrpc":"2.0","method":"$/progress","params":{{"token":"{token}","value":{{"kind":"{kind}"{title}}}}}}}"#
    )
}

fn feed(adapter: &mut GleamAdapter, body: &str) -> Option<ServerState> {
    let view = peek(body.as_bytes()).expect("test bodies are valid JSON");
    adapter.interpret(&view, body.as_bytes())
}

#[test]
fn a_first_begin_does_not_move_past_initializing_and_its_end_is_ready() {
    let mut m = GleamAdapter::new();
    assert_eq!(m.initial_state().readiness, Readiness::Initializing);
    assert!(
        feed(
            &mut m,
            &progress(
                "downloading-dependencies",
                "begin",
                Some(DEPENDENCY_PROGRESS_TITLE)
            )
        )
        .is_none(),
        "a first begin is not an observable change"
    );
    let state = feed(&mut m, &progress("downloading-dependencies", "end", None))
        .expect("the end of the first round is a signal");
    assert_eq!(state.readiness, Readiness::Ready);
    assert_eq!(state.health, Health::Unknown);
}

#[test]
fn a_begin_after_ready_reindexes_and_its_end_is_ready_again() {
    let mut m = GleamAdapter::new();
    feed(&mut m, &progress("downloading-dependencies", "begin", None));
    feed(&mut m, &progress("downloading-dependencies", "end", None));
    let state = feed(&mut m, &progress("downloading-dependencies", "begin", None))
        .expect("a begin while ready (the engine recreated) is a signal");
    assert_eq!(state.readiness, Readiness::Indexing);
    let state = feed(&mut m, &progress("downloading-dependencies", "end", None))
        .expect("the end is a signal");
    assert_eq!(state.readiness, Readiness::Ready);
}

#[test]
fn a_different_token_is_ignored() {
    let mut m = GleamAdapter::new();
    assert!(feed(&mut m, &progress("some-other-token", "begin", None)).is_none());
    assert!(feed(&mut m, &progress("some-other-token", "end", None)).is_none());
    assert_eq!(m.initial_state().readiness, Readiness::Initializing);
}

#[test]
fn gleam_never_declares_a_guarantee() {
    assert_eq!(
        GleamAdapter::new().guarantees(),
        ServerStateProvider::notifications_only()
    );
}

#[test]
fn recognizes_the_dependency_progress_begin_by_its_title() {
    assert!(is_dependency_progress_begin(
        progress(
            "downloading-dependencies",
            "begin",
            Some(DEPENDENCY_PROGRESS_TITLE)
        )
        .as_bytes()
    ));
    assert!(!is_dependency_progress_begin(
        progress("downloading-dependencies", "end", None).as_bytes()
    ));
    assert!(!is_dependency_progress_begin(
        progress("downloading-dependencies", "begin", Some("Something else")).as_bytes()
    ));
}
