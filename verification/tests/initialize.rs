use lsp_det::initialize::InitializeResultAction::{Declared, NotASuccess, Unrewritable, UpstreamDeclares};
use lsp_det::initialize::{
    client_declares_server_state, client_declares_work_done_progress, declare_server_state_provider,
    inject_client_capabilities, server_info, ServerInfo,
};
use lsp_det::state::ServerStateProvider;
use serde_json::Value;

fn v(text: &str) -> Value {
    serde_json::from_str(text).expect("test values are valid JSON")
}

const RA: &[&str] = &["experimental.serverStatusNotification"];

fn rewrite(body: &str, paths: &[&str]) -> Option<Value> {
    inject_client_capabilities(body.as_bytes(), paths)
        .map(|bytes| serde_json::from_slice(&bytes).expect("rewritten body must be JSON"))
}

/// Returns the content of `Declared` as JSON. Panics otherwise.
fn declared(body: &str, provider: &ServerStateProvider) -> Value {
    match declare_server_state_provider(body.as_bytes(), provider) {
        Declared(bytes) => serde_json::from_slice(&bytes).expect("declared body must be JSON"),
        other => panic!("should be able to add the declaration: {other:?}"),
    }
}

// --- Client -> upstream -------------------------------------------------

#[test]
fn adds_the_flag_when_the_experimental_section_is_absent() {
    let body = r#"{"jsonrpc":"2.0","id":1,"method":"initialize","params":{"capabilities":{}}}"#;
    let out = rewrite(body, RA).expect("body should be rewritten");
    assert_eq!(
        out["params"]["capabilities"]["experimental"]["serverStatusNotification"],
        Value::Bool(true)
    );
}

#[test]
fn creates_the_capabilities_object_when_it_is_missing() {
    let body = r#"{"id":1,"method":"initialize","params":{"processId":42}}"#;
    let out = rewrite(body, RA).expect("body should be rewritten");
    assert_eq!(
        out["params"]["capabilities"]["experimental"]["serverStatusNotification"],
        Value::Bool(true)
    );
    assert_eq!(out["params"]["processId"], Value::from(42));
}

#[test]
fn leaves_every_other_capability_untouched() {
    let body = r#"{"id":1,"method":"initialize","params":{"processId":7,"rootUri":"file:///w","capabilities":{"textDocument":{"hover":{"dynamicRegistration":true}},"experimental":{"somethingElse":{"nested":[1,2]}}},"initializationOptions":{"a":"b"}}}"#;
    let out = rewrite(body, RA).expect("body should be rewritten");

    assert_eq!(out["params"]["processId"], Value::from(7));
    assert_eq!(out["params"]["rootUri"], Value::from("file:///w"));
    assert_eq!(
        out["params"]["initializationOptions"]["a"],
        Value::from("b")
    );
    assert_eq!(
        out["params"]["capabilities"]["textDocument"]["hover"]["dynamicRegistration"],
        Value::Bool(true)
    );
    assert_eq!(
        out["params"]["capabilities"]["experimental"]["somethingElse"]["nested"],
        v(r#"[1, 2]"#)
    );
    assert_eq!(
        out["params"]["capabilities"]["experimental"]["serverStatusNotification"],
        Value::Bool(true)
    );
}

#[test]
fn does_not_rewrite_when_the_client_already_declared_the_flag() {
    // Serena already declares it. Returns None so the original bytes pass through as is.
    let body = r#"{"id":1,"method":"initialize","params":{"capabilities":{"experimental":{"serverStatusNotification":true}}}}"#;
    assert!(inject_client_capabilities(body.as_bytes(), RA).is_none());
}

#[test]
fn overrides_an_explicit_false() {
    // Even if the declaration is false, the proxy needs the signal.
    let body = r#"{"id":1,"method":"initialize","params":{"capabilities":{"experimental":{"serverStatusNotification":false}}}}"#;
    let out = rewrite(body, RA).expect("false should be overridden");
    assert_eq!(
        out["params"]["capabilities"]["experimental"]["serverStatusNotification"],
        Value::Bool(true)
    );
}

#[test]
fn injects_several_paths_at_once() {
    let body = r#"{"id":1,"method":"initialize","params":{"capabilities":{}}}"#;
    let out = rewrite(
        body,
        &[
            "experimental.serverStatusNotification",
            "window.workDoneProgress",
        ],
    )
    .expect("body should be rewritten");
    assert_eq!(
        out["params"]["capabilities"]["experimental"]["serverStatusNotification"],
        Value::Bool(true)
    );
    assert_eq!(
        out["params"]["capabilities"]["window"]["workDoneProgress"],
        Value::Bool(true)
    );
}

#[test]
fn refuses_to_clobber_a_non_object_on_the_path() {
    // Even a broken client declaration is not destroyed. Forwarded as the original.
    let body = r#"{"id":1,"method":"initialize","params":{"capabilities":{"experimental":"nonsense"}}}"#;
    assert!(inject_client_capabilities(body.as_bytes(), RA).is_none());
}

#[test]
fn leaves_a_params_less_initialize_alone() {
    let body = r#"{"id":1,"method":"initialize"}"#;
    assert!(inject_client_capabilities(body.as_bytes(), RA).is_none());
}

#[test]
fn leaves_malformed_json_alone() {
    assert!(inject_client_capabilities(b"{not json", RA).is_none());
}

#[test]
fn does_nothing_when_no_paths_are_requested() {
    // With no declaration to inject, the original passes through as is.
    let body = r#"{"id":1,"method":"initialize","params":{"capabilities":{}}}"#;
    assert!(inject_client_capabilities(body.as_bytes(), &[]).is_none());
}

#[test]
fn detects_the_client_declaration() {
    let declared = r#"{"id":1,"method":"initialize","params":{"capabilities":{"experimental":{"serverState":true}}}}"#;
    assert!(client_declares_server_state(declared.as_bytes()));
}

#[test]
fn treats_a_missing_or_false_declaration_as_absent() {
    for body in [
        r#"{"id":1,"method":"initialize","params":{"capabilities":{}}}"#,
        r#"{"id":1,"method":"initialize","params":{"capabilities":{"experimental":{}}}}"#,
        r#"{"id":1,"method":"initialize","params":{"capabilities":{"experimental":{"serverState":false}}}}"#,
        // Another truthy value is not counted as a declaration.
        r#"{"id":1,"method":"initialize","params":{"capabilities":{"experimental":{"serverState":{}}}}}"#,
        r#"{"id":1,"method":"initialize"}"#,
        "{not json",
    ] {
        assert!(
            !client_declares_server_state(body.as_bytes()),
            "must not be counted as a declaration: {body}"
        );
    }
}

#[test]
fn detects_the_client_work_done_progress_declaration() {
    let declared = r#"{"id":1,"method":"initialize","params":{"capabilities":{"window":{"workDoneProgress":true}}}}"#;
    assert!(client_declares_work_done_progress(declared.as_bytes()));
    for body in [
        r#"{"id":1,"method":"initialize","params":{"capabilities":{}}}"#,
        r#"{"id":1,"method":"initialize","params":{"capabilities":{"window":{"workDoneProgress":false}}}}"#,
        "{not json",
    ] {
        assert!(!client_declares_work_done_progress(body.as_bytes()));
    }
}

#[test]
fn reads_the_server_info_from_a_successful_result() {
    let body = r#"{"id":1,"result":{"capabilities":{},"serverInfo":{"name":"rust-analyzer","version":"1.98.0 (88d9e12 2026-08-18)"}}}"#;
    assert_eq!(
        server_info(body.as_bytes()),
        Some(ServerInfo {
            name: "rust-analyzer".to_string(),
            version: Some("1.98.0 (88d9e12 2026-08-18)".to_string()),
        })
    );
}

#[test]
fn server_info_is_absent_when_the_upstream_does_not_name_itself() {
    for body in [
        r#"{"id":1,"result":{"capabilities":{}}}"#,
        r#"{"id":1,"result":{"capabilities":{},"serverInfo":{"version":"1"}}}"#,
        r#"{"id":1,"error":{"code":-32603,"message":"boom"}}"#,
        "{not json",
    ] {
        assert_eq!(
            server_info(body.as_bytes()),
            None,
            "the server does not call itself anything: {body}"
        );
    }
}

// --- Upstream -> client -------------------------------------------------

#[test]
fn adds_the_provider_to_an_initialize_result() {
    let body = r#"{"jsonrpc":"2.0","id":1,"result":{"capabilities":{"hoverProvider":true}}}"#;
    let out = declared(body, &ServerStateProvider::workspace(&[], &[]));
    assert_eq!(
        out["result"]["capabilities"]["experimental"]["serverStateProvider"],
        v(r#"{"coverage": {"scope": "workspace", "incomplete": {}}, "freshness": {"fileChanges": []}}"#)
    );
    // The upstream's declarations remain as they are.
    assert_eq!(
        out["result"]["capabilities"]["hoverProvider"],
        Value::Bool(true)
    );
}

#[test]
fn keeps_the_upstream_experimental_capabilities() {
    let body =
        r#"{"id":1,"result":{"capabilities":{"experimental":{"upstreamThing":{"a":1}}}}}"#;
    let out = declared(body, &ServerStateProvider::notifications_only());
    assert_eq!(
        out["result"]["capabilities"]["experimental"]["upstreamThing"]["a"],
        Value::from(1)
    );
    assert_eq!(
        out["result"]["capabilities"]["experimental"]["serverStateProvider"],
        v(r#"{}"#)
    );
}

#[test]
fn creates_the_capabilities_object_in_a_bare_result() {
    let out = declared(
        r#"{"id":1,"result":{}}"#,
        &ServerStateProvider::notifications_only(),
    );
    assert_eq!(
        out["result"]["capabilities"]["experimental"]["serverStateProvider"],
        v(r#"{}"#)
    );
}

/// Expert returns `"experimental": null` (measured with 0.1.9). LSP treats an absent and a
/// null optional field alike, so null is replaced by an object, not refused.
#[test]
fn treats_an_explicit_null_experimental_as_absent() {
    let out = declared(
        r#"{"id":1,"result":{"capabilities":{"hoverProvider":true,"experimental":null}}}"#,
        &ServerStateProvider::notifications_only(),
    );
    assert_eq!(
        out["result"]["capabilities"]["experimental"]["serverStateProvider"],
        v(r#"{}"#)
    );
    assert_eq!(out["result"]["capabilities"]["hoverProvider"], true);
}

#[test]
fn a_bare_true_is_not_a_declaration() {
    // A declaration is always an object. `true` is not a declaration and is
    // overwritten.
    let body =
        r#"{"id":1,"result":{"capabilities":{"experimental":{"serverStateProvider":true}}}}"#;
    let out = declared(body, &ServerStateProvider::notifications_only());
    assert_eq!(
        out["result"]["capabilities"]["experimental"]["serverStateProvider"],
        v(r#"{}"#)
    );
}

#[test]
fn never_overwrites_an_upstream_declaration() {
    // A guarantee the upstream really has (freshness) must not be hidden by a declaration
    // without guarantees.
    for body in [
        r#"{"id":1,"result":{"capabilities":{"experimental":{"serverStateProvider":{"freshness":{"fileChanges":["Changed"]}}}}}}"#,
        r#"{"id":1,"result":{"capabilities":{"experimental":{"serverStateProvider":{}}}}}"#,
    ] {
        assert_eq!(
            declare_server_state_provider(
                body.as_bytes(),
                &ServerStateProvider::notifications_only()
            ),
            UpstreamDeclares,
            "should pass through as the upstream's declaration: {body}"
        );
    }
}

#[test]
fn overwrites_a_false_or_null_upstream_declaration() {
    // `serverStateProvider: false` means "not provided".
    // It is not a declaration, so it is overwritten with our own declaration.
    for body in [
        r#"{"id":1,"result":{"capabilities":{"experimental":{"serverStateProvider":false}}}}"#,
        r#"{"id":1,"result":{"capabilities":{"experimental":{"serverStateProvider":null}}}}"#,
    ] {
        let out = declared(body, &ServerStateProvider::notifications_only());
        assert_eq!(
            out["result"]["capabilities"]["experimental"]["serverStateProvider"],
            v(r#"{}"#),
            "false / null is not a declaration: {body}"
        );
    }
}

#[test]
fn an_error_response_is_not_a_success() {
    // The handshake is not complete. The client may retry initialize.
    for body in [
        r#"{"id":1,"error":{"code":-32603,"message":"boom"}}"#,
        r#"{"id":1,"result":"not an object"}"#,
        "{not json",
    ] {
        assert_eq!(
            declare_server_state_provider(
                body.as_bytes(),
                &ServerStateProvider::notifications_only()
            ),
            NotASuccess,
            "must not be counted as a success response: {body}"
        );
    }
}

#[test]
fn a_non_object_capabilities_is_unrewritable() {
    for body in [
        r#"{"id":1,"result":{"capabilities":"nonsense"}}"#,
    ] {
        assert_eq!(
            declare_server_state_provider(
                body.as_bytes(),
                &ServerStateProvider::notifications_only()
            ),
            Unrewritable,
            "should be counted as unrewritable: {body}"
        );
    }
}
