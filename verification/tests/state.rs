use lsp_det::json::Json;
use lsp_det::state::{
    health_from_name, health_name, readiness_name, Health, Readiness, ServerState,
    ServerStateProvider, ALL_FILE_CHANGES,
};

fn json_of(state: &ServerState) -> String {
    String::from_utf8(state.to_json().to_bytes()).unwrap()
}

fn provider_json(provider: &ServerStateProvider) -> String {
    String::from_utf8(provider.to_json().to_bytes()).unwrap()
}

#[test]
fn serializes_to_the_shape_the_spec_defines() {
    let state = ServerState {
        health: Health::Okay,
        readiness: Readiness::Ready,
        message: Some("all good".to_string()),
    };
    assert_eq!(
        json_of(&state),
        r#"{"health":"ok","readiness":"ready","message":"all good"}"#
    );
}

#[test]
fn omits_message_when_absent() {
    let state = ServerState {
        health: Health::Okay,
        readiness: Readiness::Indexing,
        message: None,
    };
    assert_eq!(json_of(&state), r#"{"health":"ok","readiness":"indexing"}"#);
}

#[test]
fn uses_the_exact_health_strings_from_the_spec() {
    for (health, expected) in [
        (Health::Okay, "ok"),
        (Health::Warning, "warning"),
        (Health::Error, "error"),
        (Health::Unknown, "unknown"),
    ] {
        assert_eq!(
            health_name(health),
            expected
        );
    }
}

#[test]
fn uses_the_exact_readiness_strings_from_the_spec() {
    for (readiness, expected) in [
        (Readiness::Initializing, "initializing"),
        (Readiness::Indexing, "indexing"),
        (Readiness::Ready, "ready"),
        (Readiness::Unknown, "unknown"),
    ] {
        assert_eq!(
            readiness_name(readiness),
            expected
        );
    }
}

#[test]
fn dead_is_not_a_health_value() {
    // The server's death is conveyed by the end of the connection, not by a value. If
    // "dead" appears on the wire, it is not a value of this protocol.
    assert!(health_from_name("dead").is_none());
}

#[test]
fn round_trips_through_json() {
    // The conformance test suite (the fake client side) must be able to read it back.
    let state = ServerState {
        health: Health::Warning,
        readiness: Readiness::Initializing,
        message: None,
    };
    let back = ServerState::from_json(&Json::from_text(&json_of(&state)).unwrap());
    assert_eq!(back, Some(state));
}

#[test]
fn initial_state_is_not_ready() {
    // Readiness right after initialize is not ready.
    let state = ServerState::initializing();
    assert_eq!(state.readiness, Readiness::Initializing);
    // health has not been observed yet.
    assert_eq!(state.health, Health::Unknown);
    assert_eq!(state.message, None);
}

#[test]
fn a_change_on_either_axis_is_notifiable() {
    let base = ServerState::initializing();

    let readiness_moved = ServerState {
        readiness: Readiness::Ready,
        ..base.clone()
    };
    assert!(readiness_moved.notifiable_change_from(&base));

    let health_moved = ServerState {
        health: Health::Error,
        ..base.clone()
    };
    assert!(health_moved.notifiable_change_from(&base));
}

#[test]
fn a_message_only_change_is_not_notifiable() {
    // Only the two axes health and readiness are notified.
    let base = ServerState::initializing();
    let same_axes = ServerState {
        message: Some("still loading crates".to_string()),
        ..base.clone()
    };
    assert!(!same_axes.notifiable_change_from(&base));
}

#[test]
fn an_identical_state_is_not_notifiable() {
    let base = ServerState::initializing();
    assert!(!base.notifiable_change_from(&base));
}

#[test]
fn the_unobserved_state_is_unknown_on_both_axes() {
    let state = ServerState::unobserved();
    assert_eq!(state.health, Health::Unknown);
    assert_eq!(state.readiness, Readiness::Unknown);
    assert_eq!(state.message, None);
}

#[test]
fn notifications_only_serializes_as_an_empty_object() {
    // {} promises only the state notifications.
    assert_eq!(
        provider_json(&ServerStateProvider::notifications_only()),
        "{}"
    );
}

#[test]
fn a_declaration_omits_the_guarantees_it_does_not_claim() {
    // A guarantee that cannot be kept is not declared.
    assert_eq!(
        provider_json(&ServerStateProvider::workspace(&[], &[])),
        r#"{"coverage":{"scope":"workspace","incomplete":{}},"freshness":{"fileChanges":[]}}"#
    );
}

#[test]
fn a_declaration_serializes_both_guarantees_when_claimed() {
    let both = ServerStateProvider::workspace(&[("workspace/symbol", 128)], &ALL_FILE_CHANGES);
    assert_eq!(
        provider_json(&both),
        r#"{"coverage":{"scope":"workspace","incomplete":{"workspace/symbol":128}},"freshness":{"fileChanges":["Created","Changed","Deleted"]}}"#
    );
}
