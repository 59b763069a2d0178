use lsp_det::peek::{peek, RequestId};

#[test]
fn peeks_method_and_numeric_id_of_a_request() {
    let body = br#"{"jsonrpc":"2.0","id":1,"method":"textDocument/references","params":{}}"#;
    let view = peek(body).unwrap();
    assert_eq!(view.method(), Some("textDocument/references"));
    assert_eq!(view.id, Some(RequestId::Number(1)));
    assert!(view.is_request());
    assert!(!view.is_notification());
}

#[test]
fn peeks_a_notification_as_having_no_id() {
    let body = br#"{"jsonrpc":"2.0","method":"textDocument/didChange","params":{}}"#;
    let view = peek(body).unwrap();
    assert_eq!(view.method(), Some("textDocument/didChange"));
    assert_eq!(view.id, None);
    assert!(view.is_notification());
    assert!(!view.is_request());
}

#[test]
fn peeks_a_response_as_having_no_method() {
    let body = br#"{"jsonrpc":"2.0","id":7,"result":[]}"#;
    let view = peek(body).unwrap();
    assert_eq!(view.method(), None);
    assert_eq!(view.id, Some(RequestId::Number(7)));
    assert!(!view.is_request());
    assert!(!view.is_notification());
}

#[test]
fn peeks_a_string_id() {
    let body = br#"{"jsonrpc":"2.0","id":"req-42","method":"workspace/symbol"}"#;
    let view = peek(body).unwrap();
    assert_eq!(view.id, Some(RequestId::String("req-42".to_string())));
}

#[test]
fn treats_null_id_as_absent() {
    // JSON-RPC はパースエラー応答で `id: null` を使う。
    let body = br#"{"jsonrpc":"2.0","id":null,"error":{"code":-32700,"message":"x"}}"#;
    let view = peek(body).unwrap();
    assert_eq!(view.id, None);
}

#[test]
fn tolerates_unknown_fields() {
    // ra-multiplex の deny_unknown_fields 不具合を踏まない。
    let body = br#"{"jsonrpc":"2.0","id":1,"method":"foo","$brandNew":{"a":[1,2]},"x":null}"#;
    let view = peek(body).unwrap();
    assert_eq!(view.method(), Some("foo"));
    assert_eq!(view.id, Some(RequestId::Number(1)));
}

#[test]
fn is_independent_of_field_order() {
    let method_first = peek(br#"{"method":"foo","id":1}"#).unwrap();
    let id_first = peek(br#"{"id":1,"method":"foo"}"#).unwrap();
    assert_eq!(method_first, id_first);
}

#[test]
fn decodes_escapes_in_the_method_name() {
    let body = br#"{"method":"a\/b","id":1}"#;
    let view = peek(body).unwrap();
    assert_eq!(view.method(), Some("a/b"));
}

#[test]
fn errors_on_malformed_json() {
    assert!(peek(b"not json at all").is_err());
}

#[test]
fn errors_on_a_json_value_that_is_not_an_object() {
    assert!(peek(b"[1,2,3]").is_err());
}
