use lsp_det::adapter::sorbet::SorbetAdapter;
use lsp_det::state::{Readiness, ServerState, ServerStateProvider};
use lsp_det::peek::peek;
use lsp_det::state::Health;

fn operation(name: &str, status: &str) -> String {
    format!(
        r#"{{"jsonrpc":"2.0","method":"sorbet/showOperation","params":{{"operationName":"{name}","description":"{name}...","status":"{status}"}}}}"#
    )
}

fn feed(adapter: &mut SorbetAdapter, body: &str) -> Option<ServerState> {
    let view = peek(body.as_bytes()).expect("test bodies are valid JSON");
    adapter.interpret(&view, body.as_bytes())
}

#[test]
fn sorbet_starts_initializing() {
    let adapter = SorbetAdapter::new();
    assert_eq!(adapter.initial_state().readiness, Readiness::Initializing);
}

#[test]
fn a_single_start_and_its_end_reach_ready_on_the_first_round() {
    let mut m = SorbetAdapter::new();
    let state = feed(&mut m, &operation("Indexing", "start"))
        .expect("a start is a signal even while it does not move readiness");
    assert_eq!(
        state.readiness,
        Readiness::Initializing,
        "the first round stays initializing until the count returns to zero"
    );
    let state = feed(&mut m, &operation("Indexing", "end"))
        .expect("the end that empties the count is a signal");
    assert_eq!(state.readiness, Readiness::Ready);
    assert_eq!(state.health, Health::Unknown);
}

#[test]
fn nested_operations_only_become_ready_once_the_outermost_ends() {
    let mut m = SorbetAdapter::new();
    feed(&mut m, &operation("SlowPathBlocking", "start"));
    let state = feed(&mut m, &operation("Indexing", "start"))
        .expect("a nested start is still a signal");
    assert_eq!(
        state.readiness,
        Readiness::Initializing,
        "still the first round, and the outer operation is still open"
    );
    let state = feed(&mut m, &operation("Indexing", "end"))
        .expect("the inner end is a signal even though the count does not reach zero");
    assert_eq!(
        state.readiness,
        Readiness::Initializing,
        "the outer SlowPathBlocking is still open"
    );
    let state = feed(&mut m, &operation("SlowPathBlocking", "end"))
        .expect("the outer end that empties the count is a signal");
    assert_eq!(state.readiness, Readiness::Ready);
}

#[test]
fn a_later_start_reindexes_and_its_end_is_ready_again() {
    let mut m = SorbetAdapter::new();
    feed(&mut m, &operation("Indexing", "start"));
    feed(&mut m, &operation("Indexing", "end"));
    let state = feed(&mut m, &operation("SlowPathNonBlocking", "start"))
        .expect("a start after ready (a later round) is a signal");
    assert_eq!(state.readiness, Readiness::Indexing);
    let state =
        feed(&mut m, &operation("SlowPathNonBlocking", "end")).expect("its end is a signal");
    assert_eq!(state.readiness, Readiness::Ready);
}

#[test]
fn ignores_request_tied_operations() {
    let mut m = SorbetAdapter::new();
    feed(&mut m, &operation("Indexing", "start"));
    feed(&mut m, &operation("Indexing", "end"));
    for name in ["References", "SymbolSearch", "Rename", "MoveMethod"] {
        assert!(
            feed(&mut m, &operation(name, "start")).is_none(),
            "a request-tied operation's start moved the state: {name}"
        );
        assert!(
            feed(&mut m, &operation(name, "end")).is_none(),
            "a request-tied operation's end moved the state: {name}"
        );
    }
    assert_eq!(m.state().readiness, Readiness::Ready, "unaffected throughout");
}

#[test]
fn ignores_an_end_that_would_take_the_count_below_zero() {
    let mut m = SorbetAdapter::new();
    assert!(
        feed(&mut m, &operation("Indexing", "end")).is_none(),
        "an end with nothing open must not be treated as reaching zero"
    );
    assert_eq!(m.state().readiness, Readiness::Initializing);
    // The count is still well-formed afterward: a real start/end pair works normally.
    feed(&mut m, &operation("Indexing", "start"));
    let state = feed(&mut m, &operation("Indexing", "end")).expect("a matched end is a signal");
    assert_eq!(state.readiness, Readiness::Ready);
}

#[test]
fn ignores_other_methods() {
    let mut m = SorbetAdapter::new();
    let unrelated = r#"{"jsonrpc":"2.0","method":"window/logMessage","params":{"type":3,"message":"anything"}}"#;
    let view = peek(unrelated.as_bytes()).unwrap();
    assert!(m.interpret(&view, unrelated.as_bytes()).is_none());
}

#[test]
fn ignores_a_show_operation_that_happens_to_be_sent_as_a_request() {
    let mut m = SorbetAdapter::new();
    let as_request = r#"{"jsonrpc":"2.0","id":1,"method":"sorbet/showOperation","params":{"operationName":"Indexing","description":"x","status":"start"}}"#;
    let view = peek(as_request.as_bytes()).unwrap();
    assert!(m.interpret(&view, as_request.as_bytes()).is_none());
}

#[test]
fn sorbet_health_stays_unknown_regardless_of_readiness() {
    let mut m = SorbetAdapter::new();
    assert_eq!(
        feed(&mut m, &operation("Indexing", "start"))
            .unwrap()
            .health,
        Health::Unknown
    );
    assert_eq!(
        feed(&mut m, &operation("Indexing", "end")).unwrap().health,
        Health::Unknown
    );
}

#[test]
fn sorbet_never_declares_a_guarantee() {
    assert_eq!(
        SorbetAdapter::new().guarantees(),
        ServerStateProvider::notifications_only()
    );
}
