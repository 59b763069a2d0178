use lsp_det::framing::RawMessage;
use lsp_det::gate::error_code;
use lsp_det::gate::{is_cross_workspace, Decision, DrainReason, Gate, Release, CROSS_WORKSPACE_METHODS};
use lsp_det::peek::RequestId;
use lsp_det::state::{Health, Readiness, ServerState};
use serde_json::Value;

fn state(health: Health, readiness: Readiness) -> ServerState {
    ServerState {
        health,
        readiness,
        message: None,
    }
}

fn request(id: i64, method: &str) -> (RawMessage, RequestId, String) {
    let body = format!(r#"{{"jsonrpc":"2.0","id":{id},"method":"{method}","params":{{}}}}"#);
    (
        RawMessage {
            body: body.into_bytes(),
        },
        RequestId::Number(id),
        method.to_string(),
    )
}

fn decide(gate: &mut Gate, id: i64, method: &str, s: &ServerState) -> Decision {
    let (msg, rid, m) = request(id, method);
    gate.on_request(msg, rid, &m, s)
}

fn json(msg: &RawMessage) -> Value {
    serde_json::from_slice(&msg.body).unwrap()
}

fn indexing() -> ServerState {
    state(Health::Okay, Readiness::Indexing)
}

// --- Decision table ------------------------------------------------------------------

#[test]
fn holds_a_cross_workspace_request_while_indexing() {
    let mut gate = Gate::new();
    assert_eq!(
        decide(&mut gate, 1, "textDocument/references", &indexing()),
        Decision::Held
    );
    assert_eq!(gate.held_count(), 1);
}

#[test]
fn holds_while_initializing_too() {
    let mut gate = Gate::new();
    let s = state(Health::Unknown, Readiness::Initializing);
    assert_eq!(decide(&mut gate, 1, "workspace/symbol", &s), Decision::Held);
}

#[test]
fn forwards_when_ready() {
    let mut gate = Gate::new();
    let s = state(Health::Okay, Readiness::Ready);
    let (msg, id, m) = request(1, "textDocument/references");
    assert_eq!(
        gate.on_request(msg.clone(), id, &m, &s),
        Decision::Forward(msg)
    );
}

#[test]
fn forwards_when_readiness_is_unknown() {
    // There is no signal to wait for.
    let mut gate = Gate::new();
    let s = state(Health::Unknown, Readiness::Unknown);
    assert!(matches!(
        decide(&mut gate, 1, "textDocument/references", &s),
        Decision::Forward(_)
    ));
}

#[test]
fn treats_warning_like_ok() {
    // Waiting does not improve it.
    let mut gate = Gate::new();
    assert_eq!(
        decide(
            &mut gate,
            1,
            "textDocument/references",
            &state(Health::Warning, Readiness::Indexing)
        ),
        Decision::Held
    );
    assert!(matches!(
        decide(
            &mut gate,
            2,
            "textDocument/references",
            &state(Health::Warning, Readiness::Ready)
        ),
        Decision::Forward(_)
    ));
}

#[test]
fn rejects_immediately_when_health_is_error() {
    // Regardless of readiness.
    for readiness in [Readiness::Indexing, Readiness::Ready, Readiness::Unknown] {
        let mut gate = Gate::new();
        let s = ServerState {
            health: Health::Error,
            readiness,
            message: Some("Failed to load workspaces.".to_string()),
        };
        match decide(&mut gate, 7, "textDocument/references", &s) {
            Decision::Reject(response) => {
                let v = json(&response);
                assert_eq!(v["id"], 7);
                assert_eq!(v["error"]["code"], error_code::REQUEST_FAILED);
                assert!(
                    v["error"]["message"]
                        .as_str()
                        .unwrap()
                        .contains("Failed to load workspaces."),
                    "the message is attached: {v}"
                );
            }
            other => panic!("error should reject immediately: {other:?}"),
        }
        assert_eq!(gate.held_count(), 0);
    }
}

#[test]
fn forwards_non_cross_workspace_requests_regardless_of_state() {
    let mut gate = Gate::new();
    for (method, s) in [
        ("textDocument/hover", indexing()),
        (
            "textDocument/completion",
            state(Health::Unknown, Readiness::Initializing),
        ),
        (
            "textDocument/documentSymbol",
            state(Health::Error, Readiness::Ready),
        ),
        ("initialize", indexing()),
        ("shutdown", indexing()),
    ] {
        assert!(
            matches!(decide(&mut gate, 1, method, &s), Decision::Forward(_)),
            "{method} is not made to wait"
        );
    }
}

#[test]
fn forwards_everything_when_the_client_decides() {
    let mut gate = Gate::new();
    gate.set_client_decides(true);
    assert!(matches!(
        decide(&mut gate, 1, "textDocument/references", &indexing()),
        Decision::Forward(_)
    ));
    assert!(matches!(
        decide(
            &mut gate,
            2,
            "textDocument/references",
            &state(Health::Error, Readiness::Ready)
        ),
        Decision::Forward(_)
    ));
}

#[test]
fn lists_exactly_the_methods_of_spec_7_0() {
    assert_eq!(CROSS_WORKSPACE_METHODS.len(), 11);
    assert!(is_cross_workspace("textDocument/prepareRename"));
    assert!(!is_cross_workspace("textDocument/hover"));
}

// --- State changes -------------------------------------------------------------------

#[test]
fn releases_held_requests_in_order_when_ready() {
    let mut gate = Gate::new();
    decide(&mut gate, 1, "textDocument/references", &indexing());
    decide(&mut gate, 2, "workspace/symbol", &indexing());
    let released = gate.on_state(&state(Health::Okay, Readiness::Ready));
    let ids: Vec<Value> = released
        .iter()
        .map(|r| match r {
            Release::Forward(msg) => json(msg)["id"].clone(),
            Release::Reject(_) => panic!("ready should forward"),
        })
        .collect();
    assert_eq!(ids, vec![Value::from(1), Value::from(2)]);
    assert_eq!(gate.held_count(), 0);
}

#[test]
fn keeps_holding_while_still_indexing() {
    let mut gate = Gate::new();
    decide(&mut gate, 1, "textDocument/references", &indexing());
    assert!(gate.on_state(&indexing()).is_empty());
    assert!(
        gate.on_state(&state(Health::Warning, Readiness::Initializing))
            .is_empty()
    );
    assert_eq!(gate.held_count(), 1);
}

#[test]
fn rejects_held_requests_when_health_turns_error() {
    let mut gate = Gate::new();
    decide(&mut gate, 1, "textDocument/references", &indexing());
    let released = gate.on_state(&state(Health::Error, Readiness::Indexing));
    assert_eq!(released.len(), 1);
    match &released[0] {
        Release::Reject(response) => {
            assert_eq!(json(response)["error"]["code"], error_code::REQUEST_FAILED)
        }
        other => panic!("error should reject: {other:?}"),
    }
    assert_eq!(gate.held_count(), 0);
}

#[test]
fn releases_when_readiness_becomes_unknown() {
    // If the signal is gone, there is no reason to wait either.
    let mut gate = Gate::new();
    decide(&mut gate, 1, "textDocument/references", &indexing());
    let released = gate.on_state(&state(Health::Unknown, Readiness::Unknown));
    assert!(matches!(released.as_slice(), [Release::Forward(_)]));
}

// --- cancel / drain -----------------------------------------------------

#[test]
fn cancel_removes_a_held_request_and_answers_request_cancelled() {
    let mut gate = Gate::new();
    decide(&mut gate, 1, "textDocument/references", &indexing());
    let response = gate
        .on_cancel(&RequestId::Number(1))
        .expect("answers if held");
    let v = json(&response);
    assert_eq!(v["id"], 1);
    assert_eq!(v["error"]["code"], error_code::REQUEST_CANCELLED);
    assert_eq!(gate.held_count(), 0);
    // Not forwarded even when it becomes ready.
    assert!(
        gate.on_state(&state(Health::Okay, Readiness::Ready))
            .is_empty()
    );
}

#[test]
fn cancel_of_an_unheld_request_is_passed_through() {
    let mut gate = Gate::new();
    assert!(gate.on_cancel(&RequestId::Number(99)).is_none());
}

#[test]
fn drain_answers_every_held_request() {
    for (reason, code) in [
        (DrainReason::Shutdown, error_code::REQUEST_FAILED),
        (DrainReason::UpstreamExited, error_code::INTERNAL_ERROR),
    ] {
        let mut gate = Gate::new();
        decide(&mut gate, 1, "textDocument/references", &indexing());
        decide(&mut gate, 2, "textDocument/rename", &indexing());
        let responses = gate.drain(reason);
        assert_eq!(responses.len(), 2, "{reason:?}");
        for response in &responses {
            assert_eq!(json(response)["error"]["code"], code, "{reason:?}");
        }
        assert_eq!(gate.held_count(), 0);
        assert!(gate.drain(reason).is_empty());
    }
}
