use lsp_det::framing::RawMessage;
use lsp_det::gate::Gate;
use lsp_det::proxy::{DiskAnswer, DiskRequest, Out, UpstreamSide};

fn raw(body: &str) -> RawMessage {
    RawMessage { body: body.as_bytes().to_vec() }
}

/// What an empty disk answers: every root can be listed, and holds nothing.
fn empty_disk(side: &UpstreamSide, msg: &RawMessage) -> DiskAnswer {
    match side.disk_request(msg) {
        DiskRequest::Nothing => DiskAnswer::Nothing,
        DiskRequest::ListRoots(roots) => DiskAnswer::Roots(roots, Some(Vec::new())),
        DiskRequest::Rescan(_) => DiskAnswer::Scan(Some(Vec::new())),
    }
}

fn from_client(side: &mut UpstreamSide, gate: &mut Gate, body: &str) -> Vec<Out> {
    let msg = raw(body);
    let answer = empty_disk(side, &msg);
    side.on_client(msg, gate, answer)
}

fn to_upstream(outs: &[Out]) -> Vec<&RawMessage> {
    outs.iter()
        .filter_map(|o| match o {
            Out::ToUpstream(m) => Some(m),
            Out::ToClient(_) => None,
        })
        .collect()
}

fn to_client(outs: &[Out]) -> Vec<&RawMessage> {
    outs.iter()
        .filter_map(|o| match o {
            Out::ToClient(m) => Some(m),
            Out::ToUpstream(_) => None,
        })
        .collect()
}

#[test]
fn injects_the_capabilities_of_every_known_mapping_before_knowing_the_upstream() {
    let mut side = UpstreamSide::new();
    let mut gate = Gate::new();
    let outs = from_client(
        &mut side,
        &mut gate,
        r#"{"jsonrpc":"2.0","id":1,"method":"initialize","params":{"capabilities":{}}}"#,
    );
    let forwarded = to_upstream(&outs);
    assert_eq!(forwarded.len(), 1);
    let value: serde_json::Value = serde_json::from_slice(&forwarded[0].body).unwrap();
    assert_eq!(
        value["params"]["capabilities"]["experimental"]["serverStatusNotification"],
        serde_json::Value::Bool(true)
    );
    assert_eq!(
        value["params"]["capabilities"]["window"]["workDoneProgress"],
        serde_json::Value::Bool(true)
    );
}

#[test]
fn forwards_observed_upstream_messages_byte_for_byte() {
    let mut side = UpstreamSide::new();
    let mut gate = Gate::new();
    let status = r#"{"jsonrpc":"2.0","method":"experimental/serverStatus","params":{"health":"ok","quiescent":true,"message":null}}"#;
    let outs = from_client(&mut side, &mut gate, status);
    assert_eq!(to_upstream(&outs), vec![&raw(status)]);
    let back = side.on_upstream(raw(status), &mut gate);
    assert_eq!(to_client(&back), vec![&raw(status)]);
}

#[test]
fn only_rewrites_the_initialize_request() {
    let mut side = UpstreamSide::new();
    let mut gate = Gate::new();
    let notification = r#"{"jsonrpc":"2.0","method":"initialize","params":{"capabilities":{}}}"#;
    let outs = from_client(&mut side, &mut gate, notification);
    assert_eq!(to_upstream(&outs), vec![&raw(notification)]);
}

fn holding_side() -> (UpstreamSide, Gate) {
    let mut side = UpstreamSide::new();
    let mut gate = Gate::new();
    from_client(
        &mut side,
        &mut gate,
        r#"{"jsonrpc":"2.0","id":1,"method":"initialize","params":{"capabilities":{}}}"#,
    );
    side.on_upstream(
        raw(r#"{"jsonrpc":"2.0","id":1,"result":{"capabilities":{},"serverInfo":{"name":"rust-analyzer"}}}"#),
        &mut gate,
    );
    let outs = from_client(
        &mut side,
        &mut gate,
        r#"{"jsonrpc":"2.0","id":2,"method":"textDocument/references","params":{}}"#,
    );
    assert!(outs.is_empty(), "a cross-workspace request is held while initializing");
    assert_eq!(gate.held_count(), 1);
    (side, gate)
}

#[test]
fn a_shutdown_answers_the_held_requests_before_it_is_forwarded() {
    let (mut side, mut gate) = holding_side();
    let shutdown = r#"{"jsonrpc":"2.0","id":3,"method":"shutdown"}"#;
    let outs = from_client(&mut side, &mut gate, shutdown);
    assert_eq!(outs.len(), 2);
    match &outs[0] {
        Out::ToClient(m) => {
            let v: serde_json::Value = serde_json::from_slice(&m.body).unwrap();
            assert_eq!(v["id"], serde_json::Value::from(2));
            assert!(v["error"].is_object());
        }
        Out::ToUpstream(_) => panic!("the held request must be answered first"),
    }
    assert!(matches!(&outs[1], Out::ToUpstream(m) if m.body == shutdown.as_bytes()));
    assert_eq!(gate.held_count(), 0);
}

#[test]
fn a_state_request_is_answered_at_once_while_requests_are_held() {
    let (mut side, mut gate) = holding_side();
    let outs = from_client(
        &mut side,
        &mut gate,
        r#"{"jsonrpc":"2.0","id":9,"method":"experimental/serverState"}"#,
    );
    assert_eq!(outs.len(), 1);
    match &outs[0] {
        Out::ToClient(m) => {
            let v: serde_json::Value = serde_json::from_slice(&m.body).unwrap();
            assert_eq!(v["id"], serde_json::Value::from(9));
            assert_eq!(v["result"]["readiness"], serde_json::Value::from("initializing"));
        }
        Out::ToUpstream(_) => panic!("the state request is answered by the side itself"),
    }
    assert_eq!(gate.held_count(), 1, "the held request stays held");
}
