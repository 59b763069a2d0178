//! The upstream side of the proxy: what happens to each message between the client and the
//! language server.
//!
//! The upstream side observes the upstream (through the tracker and its mapping), answers the
//! client's `experimental/serverState` itself, declares `serverStateProvider` in the
//! `InitializeResult`, and notifies the client of state changes when the client declared the
//! protocol. When the upstream itself declares the protocol, the upstream side becomes an
//! identity: it forwards the upstream's own state. The downstream side ([`crate::gate`])
//! stands in for a client that does not speak the protocol.
//!
//! Reading and writing the streams, and listing files on the disk, are done by the caller:
//! it asks [`UpstreamSide::disk_request`] what to list before it hands a client message in,
//! and [`UpstreamSide::scan_request`] after an upstream message.

use vstd::prelude::*;

use crate::adapter::CLIENT_CAPABILITIES_FOR_ALL_MAPPINGS;
use crate::documents::{OpenDocuments, change_body, did_close_of, did_open_of};
use crate::framing::RawMessage;
use crate::gate::{DecisionModel, Decision, DrainReason, Gate, GateModel, Release, ReleaseModel, after_cancel, after_drain, after_request, after_state, cancel_response, cancel_target, cancel_target_model, cross_workspace, drain_responses, error_body, error_response, is_cross_workspace, release_model, request_decision, state_releases};
use crate::gate::error_code::{INTERNAL_ERROR, REQUEST_FAILED};
use crate::gate::failed_text;
use crate::initialize::{ActionModel, InitializeResultAction, action_model, capability, client_declares_server_state, client_declares_watched_files, client_declares_work_done_progress, declare_model, declare_server_state_provider, inject_client_capabilities, inject_model, path_texts, server_info, server_info_model, workspace_roots, roots_model};
use crate::json::{Json, JsonModel, get, jstr, json_parse, json_print, lemma_object_model, member, parse_json, take_member, to_json_bytes};
use crate::peek::{IdModel, MessageView, RequestId, ViewModel, id_json, is_notification_model, is_request_model, peek, peek_model};
use crate::state::{Health, Readiness, health_text, readiness_text, SERVER_STATE_CHANGED_METHOD, SERVER_STATE_METHOD, ServerState, StateModel, opt_state, state_json, state_of_json, unobserved_model, initializing_model};
use crate::tracker::{Tracker, TrackerModel, apply_scan_model, observe_client_model, observe_upstream_model, remember_initialize_model, select_mapping_model};
use crate::adapter::{guarantees_of, identity_from_initialize_result, result_identity};
use crate::state::notifications_only_model;
use crate::watched_files::{WatchedFiles, WatchedModel, changes, listing, notification_json};
use crate::text::str_eq;

verus! {

/// The request the upstream side stands in for when the client asks for the state.
pub const WORK_DONE_PROGRESS_CREATE: &'static str = "window/workDoneProgress/create";

/// The client capability injected so that an upstream that speaks the protocol knows that
/// someone on this side does.
pub const SERVER_STATE_CLIENT_CAPABILITY: &'static str = "experimental.serverState";

/// The id of the request the upstream side sends an upstream that speaks the protocol.
pub const SELF_STATE_REQUEST_ID: &'static str = "lsp-det:serverState";

/// The message an `initialize` that the upstream never answered is failed with.
pub const INITIALIZE_FAILED_MESSAGE: &'static str = "lsp-det: the upstream language server exited before answering initialize";

/// Where a message goes.
#[derive(Debug, PartialEq, Eq)]
pub enum Out {
    ToClient(RawMessage),
    ToUpstream(RawMessage),
}

/// The model of an [`Out`].
pub ghost enum OutModel {
    ToClient(Seq<u8>),
    ToUpstream(Seq<u8>),
}

/// The model of an [`Out`].
pub open spec fn out_model(o: Out) -> OutModel {
    match o {
        Out::ToClient(m) => OutModel::ToClient(m.body@),
        Out::ToUpstream(m) => OutModel::ToUpstream(m.body@),
    }
}

/// The models of a list of [`Out`]s.
pub open spec fn outs_model(os: Seq<Out>) -> Seq<OutModel> {
    Seq::new(os.len(), |i: int| out_model(os[i]))
}

/// What the caller lists on the disk before handing in a client message.
pub enum DiskRequest {
    /// Nothing.
    Nothing,
    /// The client's `initialize` asks for file watching to be stood in for: which of these
    /// workspace roots can be listed, and their first listing.
    ListRoots(Vec<String>),
    /// A cross-workspace request: a new listing of these roots.
    Rescan(Vec<String>),
}

/// What the caller found on the disk.
pub enum DiskAnswer {
    /// Nothing was asked.
    Nothing,
    /// The roots that could be listed, and their listing (`None` when it failed).
    Roots(Vec<String>, Option<Vec<(String, u128)>>),
    /// A new listing (`None` when it failed).
    Scan(Option<Vec<(String, u128)>>),
}

/// The model of a [`DiskAnswer`].
pub ghost enum AnswerModel {
    Nothing,
    Roots(Seq<Seq<char>>, Option<Seq<(Seq<char>, u128)>>),
    Scan(Option<Seq<(Seq<char>, u128)>>),
}

/// The model of a [`DiskAnswer`].
pub open spec fn answer_model(a: DiskAnswer) -> AnswerModel {
    match a {
        DiskAnswer::Nothing => AnswerModel::Nothing,
        DiskAnswer::Roots(r, s) => AnswerModel::Roots(crate::adapter::nextflow::texts(r@), match s {
            Some(l) => Some(listing(l@)),
            None => None,
        }),
        DiskAnswer::Scan(s) => AnswerModel::Scan(match s {
            Some(l) => Some(listing(l@)),
            None => None,
        }),
    }
}

/// The model of an [`UpstreamSide`].
pub ghost struct SideModel {
    pub tracker: TrackerModel,
    pub client_declared: bool,
    pub client_declared_progress: bool,
    pub initialize_id: Option<IdModel>,
    pub handshake_done: bool,
    pub identity: bool,
    pub identity_state: StateModel,
    pub identity_query_pending: bool,
    pub watched: Option<WatchedModel>,
    pub documents: Set<Seq<char>>,
}

/// The `{"jsonrpc":"2.0", ..}` envelope with two more members.
pub open spec fn envelope(k1: Seq<char>, v1: JsonModel, k2: Seq<char>, v2: JsonModel) -> JsonModel {
    JsonModel::Object(seq![("jsonrpc"@, jstr("2.0"@)), (k1, v1), (k2, v2)])
}

/// The request for the state the upstream side sends an upstream that speaks the protocol.
pub open spec fn self_request_body() -> Seq<u8> {
    json_print(envelope("id"@, jstr(SELF_STATE_REQUEST_ID@), "method"@, jstr(SERVER_STATE_METHOD@)))
}

/// The `null` result for a request the client could not have answered.
pub open spec fn null_response_body(id: IdModel) -> Seq<u8> {
    json_print(envelope("id"@, id_json(id), "result"@, JsonModel::Null))
}

/// The notification of a state change.
pub open spec fn changed_body(s: StateModel) -> Seq<u8> {
    json_print(envelope("method"@, jstr(SERVER_STATE_CHANGED_METHOD@), "params"@, state_json(s)))
}

/// The answer to the client's `experimental/serverState`.
pub open spec fn state_response_body(id: IdModel, s: StateModel) -> Seq<u8> {
    json_print(envelope("id"@, id_json(id), "result"@, state_json(s)))
}

/// The error an `initialize` the upstream never answered is failed with.
pub open spec fn initialize_failed_body(id: IdModel) -> Seq<u8> {
    error_body(id, INTERNAL_ERROR, INITIALIZE_FAILED_MESSAGE@)
}

/// The state the downstream side decides by.
pub open spec fn boundary(u: SideModel) -> StateModel {
    if u.identity {
        u.identity_state
    } else {
        u.tracker.state
    }
}

/// The notification of `s` to the client, when it declared the protocol and the upstream side
/// is not an identity.
pub open spec fn notify_model(u: SideModel, s: StateModel) -> Seq<OutModel> {
    if !u.client_declared || u.identity {
        Seq::empty()
    } else {
        seq![OutModel::ToClient(changed_body(s))]
    }
}

/// Where the releases of a state change go.
pub open spec fn releases_model(g: GateModel, s: StateModel) -> Seq<OutModel> {
    Seq::new(state_releases(g, s).len(), |i: int| match state_releases(g, s)[i] {
        ReleaseModel::Forward(b) => OutModel::ToUpstream(b),
        ReleaseModel::Reject(b) => OutModel::ToClient(b),
    })
}

/// The capabilities injected into the client's `initialize`.
pub open spec fn injected_paths() -> Seq<Seq<char>> {
    seq![CLIENT_CAPABILITIES_FOR_ALL_MAPPINGS@[0]@, CLIENT_CAPABILITIES_FOR_ALL_MAPPINGS@[1]@, SERVER_STATE_CLIENT_CAPABILITY@]
}

/// What the client's messages are, as far as the upstream side cares.
pub ghost enum KindModel {
    ServerStateRequest(IdModel),
    InitializeRequest(IdModel),
    ShutdownRequest,
    CancelRequest(IdModel),
    Request(IdModel, Seq<char>),
    Initialized,
    DidOpen,
    DidClose,
    WatchedFilesChanged,
    Notification,
    Other,
}

/// What a client message is.
pub open spec fn client_kind(body: Seq<u8>) -> KindModel {
    match peek_model(body) {
        Some(v) => if is_request_model(v) {
            let m = v.method->0;
            let id = v.id->0;
            if m == SERVER_STATE_METHOD@ {
                KindModel::ServerStateRequest(id)
            } else if m == "initialize"@ {
                KindModel::InitializeRequest(id)
            } else if m == "shutdown"@ {
                KindModel::ShutdownRequest
            } else {
                KindModel::Request(id, m)
            }
        } else if is_notification_model(v) {
            let m = v.method->0;
            if m == "initialized"@ {
                KindModel::Initialized
            } else if m == "$/cancelRequest"@ {
                match json_parse(body) {
                    Some(j) => match cancel_target_model(j) {
                        Some(id) => KindModel::CancelRequest(id),
                        None => KindModel::Other,
                    },
                    None => KindModel::Other,
                }
            } else if m == "textDocument/didOpen"@ {
                KindModel::DidOpen
            } else if m == "textDocument/didClose"@ {
                KindModel::DidClose
            } else if m == "workspace/didChangeWatchedFiles"@ {
                KindModel::WatchedFilesChanged
            } else {
                KindModel::Notification
            }
        } else {
            KindModel::Other
        },
        None => KindModel::Other,
    }
}

/// The stand-in for file watching an `initialize` sets up from what the caller found.
pub open spec fn watched_from(a: AnswerModel) -> Option<WatchedModel> {
    match a {
        AnswerModel::Roots(usable, Some(snapshot)) => if usable.len() > 0 {
            Some(WatchedModel { roots: usable, snapshot })
        } else {
            None
        },
        _ => None,
    }
}

/// A new listing taken in: the stand-in afterwards and the notification of the changes, if
/// any.
pub open spec fn rescan_model(w: WatchedModel, a: AnswerModel) -> (WatchedModel, Option<Seq<u8>>) {
    match a {
        AnswerModel::Scan(Some(current)) => (
            WatchedModel { snapshot: current, ..w },
            if changes(w.snapshot, current).len() > 0 {
                Some(json_print(notification_json(changes(w.snapshot, current))))
            } else {
                None
            },
        ),
        _ => (w, None),
    }
}

/// The outputs of a decision on a request.
pub open spec fn decision_outs(d: DecisionModel) -> Seq<OutModel> {
    match d {
        DecisionModel::Forward(b) => seq![OutModel::ToUpstream(b)],
        DecisionModel::Held => Seq::empty(),
        DecisionModel::Reject(b) => seq![OutModel::ToClient(b)],
    }
}

/// A message forwarded, then the effects of a predicted state: releases first, then the
/// notification.
pub open spec fn predicted_model(u: SideModel, g: GateModel, first: Seq<u8>, predicted: Option<StateModel>) -> (SideModel, GateModel, Seq<OutModel>) {
    match predicted {
        Some(s) => (u, after_state(g, s), seq![OutModel::ToUpstream(first)] + releases_model(g, s) + notify_model(u, s)),
        None => (u, g, seq![OutModel::ToUpstream(first)]),
    }
}

/// The client's observation through the tracker, unless the upstream side is an identity.
pub open spec fn observed(u: SideModel, body: Seq<u8>) -> (TrackerModel, Option<StateModel>) {
    if u.identity {
        (u.tracker, None)
    } else {
        observe_client_model(u.tracker, peek_model(body)->0, json_parse(body))
    }
}

/// What a client message does: the upstream side afterwards, the hold queue afterwards, and the
/// messages sent, in order.
pub open spec fn on_client_model(u: SideModel, g: GateModel, body: Seq<u8>, a: AnswerModel) -> (SideModel, GateModel, Seq<OutModel>) {
    match client_kind(body) {
        KindModel::ServerStateRequest(id) => if u.identity {
            (u, g, seq![OutModel::ToUpstream(body)])
        } else {
            (u, g, seq![OutModel::ToClient(state_response_body(id, u.tracker.state))])
        },
        KindModel::InitializeRequest(id) => {
            let j = json_parse(body);
            let declared = capability(j, "experimental"@, "serverState"@) == Some(JsonModel::Bool(true));
            let progress = capability(j, "window"@, "workDoneProgress"@) == Some(JsonModel::Bool(true));
            let watches = capability(j, "workspace"@, "didChangeWatchedFiles"@) matches Some(JsonModel::Object(_));
            let u2 = SideModel {
                initialize_id: Some(id),
                tracker: remember_initialize_model(u.tracker, j),
                watched: if watches { u.watched } else { watched_from(a) },
                client_declared: declared,
                client_declared_progress: progress,
                ..u
            };
            let sent = match inject_model(j, injected_paths()) {
                Some(b) => b,
                None => body,
            };
            (u2, GateModel { client_decides: declared, ..g }, seq![OutModel::ToUpstream(sent)])
        },
        KindModel::ShutdownRequest => {
            let answers = drain_responses(g, DrainReason::Shutdown);
            (u, after_drain(g), Seq::new(answers.len(), |i: int| OutModel::ToClient(answers[i])).push(OutModel::ToUpstream(body)))
        },
        KindModel::CancelRequest(id) => match cancel_response(g, id) {
            Some(r) => (u, after_cancel(g, id), seq![OutModel::ToClient(r)]),
            None => (u, g, seq![OutModel::ToUpstream(body)]),
        },
        KindModel::Request(id, m) => {
            let (watched, note) = match u.watched {
                Some(w) => if cross_workspace(m) {
                    let (w2, n) = rescan_model(w, a);
                    (Some(w2), n)
                } else {
                    (u.watched, None)
                },
                None => (None, None),
            };
            let first: Seq<OutModel> = match note {
                Some(n) => seq![OutModel::ToUpstream(n)],
                None => Seq::empty(),
            };
            let s = boundary(u);
            (
                SideModel { watched, ..u },
                after_request(g, id, m, body, s),
                first + decision_outs(request_decision(g, id, m, body, s)),
            )
        },
        KindModel::Initialized => if u.identity_query_pending {
            (SideModel { identity_query_pending: false, ..u }, g, seq![OutModel::ToUpstream(body), OutModel::ToUpstream(self_request_body())])
        } else {
            (u, g, seq![OutModel::ToUpstream(body)])
        },
        KindModel::DidOpen => {
            let (documents, sent) = match did_open_of(json_parse(body)) {
                Some((uri, version, text)) => (
                    u.documents.insert(uri),
                    if u.documents.contains(uri) { change_body(uri, version, text) } else { body },
                ),
                None => (u.documents, body),
            };
            let (t2, predicted) = observed(u, body);
            predicted_model(SideModel { documents, tracker: t2, ..u }, g, sent, predicted)
        },
        KindModel::DidClose => {
            let documents = match did_close_of(json_parse(body)) {
                Some(uri) => u.documents.remove(uri),
                None => u.documents,
            };
            let (t2, predicted) = observed(u, body);
            predicted_model(SideModel { documents, tracker: t2, ..u }, g, body, predicted)
        },
        KindModel::WatchedFilesChanged => {
            let (t2, predicted) = observed(u, body);
            predicted_model(SideModel { watched: None, tracker: t2, ..u }, g, body, predicted)
        },
        KindModel::Notification => {
            let (t2, predicted) = observed(u, body);
            predicted_model(SideModel { tracker: t2, ..u }, g, body, predicted)
        },
        KindModel::Other => (u, g, seq![OutModel::ToUpstream(body)]),
    }
}

/// The bytes of an envelope.
fn envelope_bytes(k1: &str, v1: Json, k2: &str, v2: Json) -> (r: Vec<u8>)
    ensures
        r@ == json_print(envelope(k1@, v1@, k2@, v2@)),
{
    let v = Json::String("2.0".to_owned());
    assert(v@ == jstr("2.0"@));
    let mut entries: Vec<(String, Json)> = Vec::new();
    entries.push(("jsonrpc".to_owned(), v));
    entries.push((k1.to_owned(), v1));
    entries.push((k2.to_owned(), v2));
    let whole = Json::Object(entries);
    assert(whole@->Object_0 =~= envelope(k1@, v1@, k2@, v2@)->Object_0);
    to_json_bytes(&whole)
}

/// The request for the state sent to an upstream that speaks the protocol.
pub fn self_state_request() -> (r: RawMessage)
    ensures
        r.body@ == self_request_body(),
{
    let id = Json::String(SELF_STATE_REQUEST_ID.to_owned());
    let m = Json::String(SERVER_STATE_METHOD.to_owned());
    assert(id@ == jstr(SELF_STATE_REQUEST_ID@));
    assert(m@ == jstr(SERVER_STATE_METHOD@));
    RawMessage { body: envelope_bytes("id", id, "method", m) }
}

/// The `null` result of a request.
pub fn null_response(id: &RequestId) -> (r: RawMessage)
    ensures
        r.body@ == null_response_body(id@),
{
    let n = Json::Null;
    assert(n@ == JsonModel::Null);
    RawMessage { body: envelope_bytes("id", id.to_json(), "result", n) }
}

/// The notification of a state change.
pub fn changed_notification(state: &ServerState) -> (r: RawMessage)
    ensures
        r.body@ == changed_body(state@),
{
    let m = Json::String(SERVER_STATE_CHANGED_METHOD.to_owned());
    assert(m@ == jstr(SERVER_STATE_CHANGED_METHOD@));
    RawMessage { body: envelope_bytes("method", m, "params", state.to_json()) }
}

/// The answer to the client's `experimental/serverState`.
pub fn state_response(id: &RequestId, state: &ServerState) -> (r: RawMessage)
    ensures
        r.body@ == state_response_body(id@, state@),
{
    RawMessage { body: envelope_bytes("id", id.to_json(), "result", state.to_json()) }
}

/// The error an `initialize` the upstream never answered is failed with.
pub fn initialize_failed(id: &RequestId) -> (r: RawMessage)
    ensures
        r.body@ == initialize_failed_body(id@),
{
    error_response(id, INTERNAL_ERROR, INITIALIZE_FAILED_MESSAGE)
}

/// The state in the `result` of the upstream's answer to the self request.
pub open spec fn state_response_of(body: Option<JsonModel>) -> Option<StateModel> {
    match body {
        Some(j) => match member(j, "result"@) {
            Some(r) => state_of_json(r),
            None => None,
        },
        None => None,
    }
}

/// The state in the `params` of the upstream's `experimental/serverStateChanged`.
pub open spec fn state_notification_of(body: Option<JsonModel>) -> Option<StateModel> {
    match body {
        Some(j) => match member(j, "params"@) {
            Some(p) => state_of_json(p),
            None => None,
        },
        None => None,
    }
}

/// Reads the state out of the upstream's answer to the self request.
pub fn parse_state_response(body: &[u8]) -> (r: Option<ServerState>)
    ensures
        opt_state(r) == state_response_of(json_parse(body@)),
{
    let j = match parse_json(body) {
        Some(j) => j,
        None => return None,
    };
    match get(&j, "result") {
        Some(r) => ServerState::from_json(r),
        None => None,
    }
}

/// Reads the state out of the upstream's `experimental/serverStateChanged`.
pub fn parse_state_notification(body: &[u8]) -> (r: Option<ServerState>)
    ensures
        opt_state(r) == state_notification_of(json_parse(body@)),
{
    let j = match parse_json(body) {
        Some(j) => j,
        None => return None,
    };
    match get(&j, "params") {
        Some(p) => ServerState::from_json(p),
        None => None,
    }
}

/// The upstream side.
pub struct UpstreamSide {
    tracker: Tracker,
    /// The client declared the protocol: it is notified of changes.
    client_declared: bool,
    /// The client declared `window.workDoneProgress`.
    client_declared_progress: bool,
    /// The id of the client's `initialize`, until it is answered.
    initialize_id: Option<RequestId>,
    /// The upstream answered `initialize`.
    handshake_done: bool,
    /// The upstream declares the protocol itself: its own state is forwarded.
    identity: bool,
    /// The upstream's own state, when it is an identity.
    identity_state: ServerState,
    /// The upstream's state is to be asked for once the client says `initialized`.
    identity_query_pending: bool,
    /// The stand-in for file watching, when the client does not watch files.
    watched_files: Option<WatchedFiles>,
    /// The documents the client has open.
    documents: OpenDocuments,
}

impl View for UpstreamSide {
    type V = SideModel;

    closed spec fn view(&self) -> SideModel {
        SideModel {
            tracker: self.tracker@,
            client_declared: self.client_declared,
            client_declared_progress: self.client_declared_progress,
            initialize_id: match self.initialize_id {
                Some(i) => Some(i@),
                None => None,
            },
            handshake_done: self.handshake_done,
            identity: self.identity,
            identity_state: self.identity_state@,
            identity_query_pending: self.identity_query_pending,
            watched: match self.watched_files {
                Some(w) => Some(w@),
                None => None,
            },
            documents: self.documents@,
        }
    }
}

impl UpstreamSide {
    /// The sets it holds hold each item once.
    pub closed spec fn well_formed(&self) -> bool {
        self.tracker.well_formed() && self.documents.well_formed()
    }
}

/// Where the releases of a state change go.
fn releases(gate: &mut Gate, state: &ServerState) -> (r: Vec<Out>)
    ensures
        final(gate)@ == after_state(old(gate)@, state@),
        outs_model(r@) == releases_model(old(gate)@, state@),
{
    let rs = gate.on_state(state);
    let ghost rm = Seq::new(rs@.len(), |i: int| release_model(rs@[i]));
    let mut out: Vec<Out> = Vec::new();
    let mut rest = rs;
    let ghost n = rest@.len();
    let ghost all = rest@;
    while rest.len() > 0
        invariant
            out@.len() + rest@.len() == n,
            all.len() == n,
            rest@ == all.skip(out@.len() as int),
            rm == Seq::new(all.len(), |i: int| release_model(all[i])),
            forall|k: int| 0 <= k < out@.len() ==> #[trigger] out_model(out@[k]) == match release_model(all[k]) {
                ReleaseModel::Forward(b) => OutModel::ToUpstream(b),
                ReleaseModel::Reject(b) => OutModel::ToClient(b),
            },
        decreases rest@.len(),
    {
        let ghost k = out@.len() as int;
        let ghost before = rest@;
        let r = rest.remove(0);
        assert(r == all[k]) by {
            assert(before[0] == all.skip(k)[0]);
        }
        assert(rest@ =~= all.skip(k + 1));
        match r {
            Release::Forward(m) => out.push(Out::ToUpstream(m)),
            Release::Reject(m) => out.push(Out::ToClient(m)),
        }
    }
    assert(outs_model(out@) =~= releases_model(old(gate)@, state@));
    out
}

/// What a client message is.
enum ClientKind {
    ServerStateRequest(RequestId),
    InitializeRequest(RequestId),
    ShutdownRequest,
    CancelRequest(RequestId),
    Request(RequestId, String),
    Initialized,
    DidOpen,
    DidClose,
    WatchedFilesChanged,
    Notification,
    Other,
}

spec fn kind_model(k: ClientKind) -> KindModel {
    match k {
        ClientKind::ServerStateRequest(id) => KindModel::ServerStateRequest(id@),
        ClientKind::InitializeRequest(id) => KindModel::InitializeRequest(id@),
        ClientKind::ShutdownRequest => KindModel::ShutdownRequest,
        ClientKind::CancelRequest(id) => KindModel::CancelRequest(id@),
        ClientKind::Request(id, m) => KindModel::Request(id@, m@),
        ClientKind::Initialized => KindModel::Initialized,
        ClientKind::DidOpen => KindModel::DidOpen,
        ClientKind::DidClose => KindModel::DidClose,
        ClientKind::WatchedFilesChanged => KindModel::WatchedFilesChanged,
        ClientKind::Notification => KindModel::Notification,
        ClientKind::Other => KindModel::Other,
    }
}

fn classify(body: &[u8]) -> (r: ClientKind)
    ensures
        kind_model(r) == client_kind(body@),
{
    let view = match peek(body) {
        Ok(v) => v,
        Err(_) => return ClientKind::Other,
    };
    if view.is_request() {
        let m = match view.method() {
            Some(m) => m,
            None => return ClientKind::Other,
        };
        let id = match &view.id {
            Some(i) => i.copied(),
            None => return ClientKind::Other,
        };
        if str_eq(m, SERVER_STATE_METHOD) {
            ClientKind::ServerStateRequest(id)
        } else if str_eq(m, "initialize") {
            ClientKind::InitializeRequest(id)
        } else if str_eq(m, "shutdown") {
            ClientKind::ShutdownRequest
        } else {
            ClientKind::Request(id, m.to_owned())
        }
    } else if view.is_notification() {
        let m = match view.method() {
            Some(m) => m,
            None => return ClientKind::Other,
        };
        if str_eq(m, "initialized") {
            ClientKind::Initialized
        } else if str_eq(m, "$/cancelRequest") {
            match cancel_target(body) {
                Some(id) => ClientKind::CancelRequest(id),
                None => ClientKind::Other,
            }
        } else if str_eq(m, "textDocument/didOpen") {
            ClientKind::DidOpen
        } else if str_eq(m, "textDocument/didClose") {
            ClientKind::DidClose
        } else if str_eq(m, "workspace/didChangeWatchedFiles") {
            ClientKind::WatchedFilesChanged
        } else {
            ClientKind::Notification
        }
    } else {
        ClientKind::Other
    }
}

/// Appends the outputs of `more`.
fn extend_outs(out: &mut Vec<Out>, more: Vec<Out>)
    ensures
        outs_model(final(out)@) == outs_model(old(out)@) + outs_model(more@),
{
    let mut rest = more;
    let ghost all = rest@;
    let ghost start = outs_model(out@);
    let ghost n = all.len();
    while rest.len() > 0
        invariant
            out@.len() == start.len() + (n - rest@.len()),
            all.len() == n,
            rest@.len() <= n,
            rest@ == all.skip(n - rest@.len()),
            outs_model(out@) == start + outs_model(all.take(n - rest@.len())),
        decreases rest@.len(),
    {
        let ghost k = n - rest@.len();
        let ghost before = rest@;
        let o = rest.remove(0);
        assert(o == all[k]) by {
            assert(before[0] == all.skip(k)[0]);
        }
        assert(rest@ =~= all.skip(k + 1));
        let ghost out_before = out@;
        out.push(o);
        assert(outs_model(out@) =~= outs_model(out_before).push(out_model(o)));
        assert(outs_model(all.take(k + 1)) =~= outs_model(all.take(k)).push(out_model(o)));
        assert(outs_model(out@) =~= start + outs_model(all.take(k + 1)));
    }
    assert(all.take(n as int) =~= all);
}

impl UpstreamSide {
    /// The upstream side before anything happened.
    pub fn new() -> (r: Self)
        ensures
            r.well_formed(),
            r@.tracker == Tracker::new_model(),
            !r@.client_declared && !r@.client_declared_progress && r@.initialize_id is None,
            !r@.handshake_done && !r@.identity && !r@.identity_query_pending,
            r@.identity_state == initializing_model(),
            r@.watched is None,
            r@.documents == Set::<Seq<char>>::empty(),
    {
        UpstreamSide {
            tracker: Tracker::new(),
            client_declared: false,
            client_declared_progress: false,
            initialize_id: None,
            handshake_done: false,
            identity: false,
            identity_state: ServerState::initializing(),
            identity_query_pending: false,
            watched_files: None,
            documents: OpenDocuments::new(),
        }
    }

    /// The state the downstream side decides by: the upstream's own when it is an identity,
    /// else the observed one.
    pub fn boundary_state(&self) -> (r: &ServerState)
        ensures
            r@ == boundary(self@),
    {
        if self.identity {
            &self.identity_state
        } else {
            self.tracker.state()
        }
    }

    /// The notification of `state`, when the client declared the protocol and the upstream side
    /// is not an identity.
    fn notify(&self, state: &ServerState) -> (r: Vec<Out>)
        ensures
            outs_model(r@) == notify_model(self@, state@),
    {
        let mut out: Vec<Out> = Vec::new();
        if self.client_declared && !self.identity {
            out.push(Out::ToClient(changed_notification(state)));
        }
        assert(outs_model(out@) =~= notify_model(self@, state@));
        out
    }

    /// A message forwarded, then the effects of a predicted state.
    fn predicted(&mut self, first: RawMessage, predicted: Option<ServerState>, gate: &mut Gate) -> (r: Vec<Out>)
        ensures
            final(self)@ == old(self)@,
            final(self).well_formed() == old(self).well_formed(),
            (final(self)@, final(gate)@, outs_model(r@)) == predicted_model(old(self)@, old(gate)@, first.body@, opt_state(predicted)),
    {
        let mut out: Vec<Out> = Vec::new();
        out.push(Out::ToUpstream(first));
        if let Some(state) = predicted {
            let rel = releases(gate, &state);
            extend_outs(&mut out, rel);
            let n = self.notify(&state);
            extend_outs(&mut out, n);
        }
        out
    }
}

/// Every message sent to the client, in order.
fn to_client_all(ms: Vec<RawMessage>) -> (r: Vec<Out>)
    ensures
        outs_model(r@) == Seq::new(ms@.len(), |i: int| OutModel::ToClient(ms@[i].body@)),
{
    let mut rest = ms;
    let ghost all = rest@;
    let ghost n = all.len();
    let mut out: Vec<Out> = Vec::new();
    while rest.len() > 0
        invariant
            out@.len() + rest@.len() == n,
            all.len() == n,
            rest@ == all.skip(out@.len() as int),
            forall|k: int| 0 <= k < out@.len() ==> #[trigger] out_model(out@[k]) == OutModel::ToClient(all[k].body@),
        decreases rest@.len(),
    {
        let ghost k = out@.len() as int;
        let ghost before = rest@;
        let m = rest.remove(0);
        assert(m == all[k]) by {
            assert(before[0] == all.skip(k)[0]);
        }
        assert(rest@ =~= all.skip(k + 1));
        out.push(Out::ToClient(m));
    }
    assert(outs_model(out@) =~= Seq::new(all.len(), |i: int| OutModel::ToClient(all[i].body@)));
    out
}

impl UpstreamSide {
    /// What the caller has to list on the disk before handing this client message in.
    pub fn disk_request(&self, msg: &RawMessage) -> (r: DiskRequest)
        ensures
            match r {
                DiskRequest::ListRoots(roots) => client_kind(msg.body@) is InitializeRequest
                    && !(capability(json_parse(msg.body@), "workspace"@, "didChangeWatchedFiles"@) matches Some(JsonModel::Object(_)))
                    && crate::adapter::nextflow::texts(roots@) == roots_model(json_parse(msg.body@)),
                DiskRequest::Rescan(roots) => (client_kind(msg.body@) matches KindModel::Request(_, m) && cross_workspace(m))
                    && (self@.watched matches Some(w) && crate::adapter::nextflow::texts(roots@) == w.roots),
                DiskRequest::Nothing => !(client_kind(msg.body@) is InitializeRequest
                    && !(capability(json_parse(msg.body@), "workspace"@, "didChangeWatchedFiles"@) matches Some(JsonModel::Object(_))))
                    && !((client_kind(msg.body@) matches KindModel::Request(_, m) && cross_workspace(m)) && self@.watched is Some),
            },
    {
        match classify(&msg.body) {
            ClientKind::InitializeRequest(_) => if client_declares_watched_files(&msg.body) {
                DiskRequest::Nothing
            } else {
                DiskRequest::ListRoots(workspace_roots(&msg.body))
            },
            ClientKind::Request(_, m) => match &self.watched_files {
                Some(w) => if is_cross_workspace(m.as_str()) {
                    DiskRequest::Rescan(crate::adapter::nextflow::copy_texts(w.roots().as_slice()))
                } else {
                    DiskRequest::Nothing
                },
                None => DiskRequest::Nothing,
            },
            _ => DiskRequest::Nothing,
        }
    }

    fn on_initialize_request(&mut self, msg: RawMessage, id: RequestId, gate: &mut Gate, answer: DiskAnswer) -> (r: Vec<Out>)
        requires
            old(self).well_formed(),
            client_kind(msg.body@) == KindModel::InitializeRequest(id@),
        ensures
            final(self).well_formed(),
            (final(self)@, final(gate)@, outs_model(r@)) == on_client_model(old(self)@, old(gate)@, msg.body@, answer_model(answer)),
    {
        let ghost a = answer_model(answer);
        self.initialize_id = Some(id);
        self.tracker.remember_initialize(&msg.body);
        if !client_declares_watched_files(&msg.body) {
            self.watched_files = match answer {
                DiskAnswer::Roots(usable, snapshot) => WatchedFiles::new(usable, snapshot),
                _ => None,
            };
        }
        self.client_declared = client_declares_server_state(&msg.body);
        self.client_declared_progress = client_declares_work_done_progress(&msg.body);
        gate.set_client_decides(self.client_declared);
        let caps = CLIENT_CAPABILITIES_FOR_ALL_MAPPINGS;
        let paths = [caps[0], caps[1], SERVER_STATE_CLIENT_CAPABILITY];
        assert(path_texts(paths@) =~= injected_paths());
        let sent = match inject_client_capabilities(&msg.body, &paths) {
            Some(body) => RawMessage { body },
            None => msg,
        };
        let out = vec![Out::ToUpstream(sent)];
        assert(outs_model(out@) =~= seq![OutModel::ToUpstream(sent.body@)]);
        out
    }

    fn on_request(&mut self, msg: RawMessage, id: RequestId, method: String, gate: &mut Gate, answer: DiskAnswer) -> (r: Vec<Out>)
        requires
            old(self).well_formed(),
            client_kind(msg.body@) == KindModel::Request(id@, method@),
        ensures
            final(self).well_formed(),
            (final(self)@, final(gate)@, outs_model(r@)) == on_client_model(old(self)@, old(gate)@, msg.body@, answer_model(answer)),
    {
        let mut out: Vec<Out> = Vec::new();
        if is_cross_workspace(method.as_str()) {
            if let Some(watched) = &mut self.watched_files {
                let current = match answer {
                    DiskAnswer::Scan(s) => s,
                    _ => None,
                };
                if let Some(notification) = watched.changes_since_last_scan(current) {
                    out.push(Out::ToUpstream(notification));
                }
            }
        }
        let ghost first = outs_model(out@);
        let state = self.boundary_state().copied();
        let ghost g0 = gate@;
        match gate.on_request(msg, id, method.as_str(), &state) {
            Decision::Forward(m) => out.push(Out::ToUpstream(m)),
            Decision::Held => {},
            Decision::Reject(m) => out.push(Out::ToClient(m)),
        }
        assert(outs_model(out@) =~= first + decision_outs(request_decision(g0, id@, method@, msg.body@, state@)));
        out
    }

    fn observe(&mut self, body: &[u8]) -> (r: Option<ServerState>)
        requires
            old(self).well_formed(),
            peek_model(body@) is Some,
        ensures
            final(self).well_formed(),
            (final(self)@.tracker, opt_state(r)) == observed(old(self)@, body@),
            final(self)@ == (SideModel { tracker: final(self)@.tracker, ..old(self)@ }),
    {
        if self.identity {
            return None;
        }
        match peek(body) {
            Ok(view) => self.tracker.observe_client(&view, body),
            Err(_) => None,
        }
    }

    /// Handles a message from the client: what it does to the upstream side and the hold queue,
    /// and the messages to send, in order. `answer` is what the caller found on the disk for
    /// [`Self::disk_request`] of this message.
    pub fn on_client(&mut self, msg: RawMessage, gate: &mut Gate, answer: DiskAnswer) -> (r: Vec<Out>)
        requires
            old(self).well_formed(),
        ensures
            final(self).well_formed(),
            (final(self)@, final(gate)@, outs_model(r@)) == on_client_model(old(self)@, old(gate)@, msg.body@, answer_model(answer)),
    {
        match classify(&msg.body) {
            ClientKind::ServerStateRequest(id) => {
                let out = if self.identity {
                    vec![Out::ToUpstream(msg)]
                } else {
                    vec![Out::ToClient(state_response(&id, self.tracker.state()))]
                };
                assert(outs_model(out@) =~= on_client_model(old(self)@, old(gate)@, msg.body@, answer_model(answer)).2);
                out
            },
            ClientKind::InitializeRequest(id) => self.on_initialize_request(msg, id, gate, answer),
            ClientKind::ShutdownRequest => {
                let answers = gate.drain(DrainReason::Shutdown);
                let ghost am = Seq::new(answers@.len(), |i: int| answers@[i].body@);
                let mut out = to_client_all(answers);
                let ghost before = outs_model(out@);
                out.push(Out::ToUpstream(msg));
                assert(outs_model(out@) =~= before.push(OutModel::ToUpstream(msg.body@)));
                assert(before =~= Seq::new(am.len(), |i: int| OutModel::ToClient(am[i])));
                out
            },
            ClientKind::CancelRequest(id) => {
                let out = match gate.on_cancel(&id) {
                    Some(response) => vec![Out::ToClient(response)],
                    None => vec![Out::ToUpstream(msg)],
                };
                assert(outs_model(out@) =~= on_client_model(old(self)@, old(gate)@, msg.body@, answer_model(answer)).2);
                out
            },
            ClientKind::Request(id, method) => self.on_request(msg, id, method, gate, answer),
            ClientKind::Initialized => {
                let mut out = vec![Out::ToUpstream(msg)];
                if self.identity_query_pending {
                    self.identity_query_pending = false;
                    out.push(Out::ToUpstream(self_state_request()));
                }
                assert(outs_model(out@) =~= on_client_model(old(self)@, old(gate)@, msg.body@, answer_model(answer)).2);
                out
            },
            ClientKind::DidOpen => {
                let rewritten = self.documents.on_did_open(&msg.body);
                let predicted = self.observe(&msg.body);
                let first = match rewritten {
                    Some(m) => m,
                    None => msg,
                };
                self.predicted(first, predicted, gate)
            },
            ClientKind::DidClose => {
                self.documents.on_did_close(&msg.body);
                let predicted = self.observe(&msg.body);
                self.predicted(msg, predicted, gate)
            },
            ClientKind::WatchedFilesChanged => {
                self.watched_files = None;
                let predicted = self.observe(&msg.body);
                self.predicted(msg, predicted, gate)
            },
            ClientKind::Notification => {
                let predicted = self.observe(&msg.body);
                self.predicted(msg, predicted, gate)
            },
            ClientKind::Other => {
                let out = vec![Out::ToUpstream(msg)];
                assert(outs_model(out@) =~= seq![OutModel::ToUpstream(msg.body@)]);
                out
            },
        }
    }
}

/// What the upstream's answer to `initialize` does: the mapping is selected by what the
/// server calls itself, and the declaration of `serverStateProvider` is added to the answer
/// (or the upstream side becomes an identity when the upstream declares one itself).
pub open spec fn on_initialize_result_model(u: SideModel, g: GateModel, body: Seq<u8>) -> (SideModel, GateModel, Seq<OutModel>) {
    let j = json_parse(body);
    let info = match server_info_model(j) {
        Some(i) => Some(i),
        None => result_identity(j),
    };
    let t1 = select_mapping_model(u.tracker, info).0;
    let provider = match t1.adapter {
        Some(a) => guarantees_of(a),
        None => notifications_only_model(),
    };
    match declare_model(j, provider) {
        ActionModel::NotASuccess => (SideModel { tracker: t1, initialize_id: None, ..u }, g, seq![OutModel::ToClient(body)]),
        ActionModel::UpstreamDeclares => (
            SideModel { tracker: t1, handshake_done: true, identity: true, identity_query_pending: true, ..u },
            g,
            seq![OutModel::ToClient(body)],
        ),
        ActionModel::Unrewritable => (SideModel { tracker: t1, handshake_done: true, ..u }, g, seq![OutModel::ToClient(body)]),
        ActionModel::Declared(b) => (SideModel { tracker: t1, handshake_done: true, ..u }, g, seq![OutModel::ToClient(b)]),
    }
}

/// What an upstream message does when the upstream side is an identity: the answer to the
/// self request and the upstream's own notifications set the state the hold queue decides by.
pub open spec fn under_identity_model(u: SideModel, g: GateModel, body: Seq<u8>, v: ViewModel) -> (SideModel, GateModel, Seq<OutModel>) {
    if v.method is None && v.id == Some(IdModel::Text(SELF_STATE_REQUEST_ID@)) {
        let s = match state_response_of(json_parse(body)) {
            Some(s) => s,
            None => unobserved_model(),
        };
        (SideModel { identity_state: s, ..u }, after_state(g, s), releases_model(g, s))
    } else if is_notification_model(v) && v.method == Some(SERVER_STATE_CHANGED_METHOD@) {
        let first: Seq<OutModel> = if u.client_declared { seq![OutModel::ToClient(body)] } else { Seq::empty() };
        match state_notification_of(json_parse(body)) {
            Some(s) => (SideModel { identity_state: s, ..u }, after_state(g, s), first + releases_model(g, s)),
            None => (u, g, first),
        }
    } else {
        (u, g, seq![OutModel::ToClient(body)])
    }
}

/// What an upstream message does: the upstream side afterwards, the hold queue afterwards, and the
/// messages sent, in order.
pub open spec fn on_upstream_model(u: SideModel, g: GateModel, body: Seq<u8>) -> (SideModel, GateModel, Seq<OutModel>) {
    if u.handshake_done && !u.identity && u.tracker.adapter is None && u.tracker.named_but_unknown && u.client_declared_progress {
        (u, g, seq![OutModel::ToClient(body)])
    } else {
        match peek_model(body) {
            None => (u, g, seq![OutModel::ToClient(body)]),
            Some(v) => if is_request_model(v) && v.method == Some(WORK_DONE_PROGRESS_CREATE@) && !u.client_declared_progress {
                (u, g, seq![OutModel::ToUpstream(null_response_body(v.id->0))])
            } else if !u.handshake_done && v.method is None && v.id is Some && v.id == u.initialize_id {
                on_initialize_result_model(u, g, body)
            } else if u.identity {
                under_identity_model(u, g, body, v)
            } else {
                let (t2, changed) = observe_upstream_model(u.tracker, v, json_parse(body));
                let u2 = SideModel { tracker: t2, ..u };
                match changed {
                    Some(s) => (u2, after_state(g, s), seq![OutModel::ToClient(body)] + notify_model(u2, s) + releases_model(g, s)),
                    None => (u2, g, seq![OutModel::ToClient(body)]),
                }
            },
        }
    }
}

/// What the end of the upstream does: a pending `initialize` is failed, and every held
/// request is answered.
pub open spec fn close_pending_model(u: SideModel, g: GateModel) -> (SideModel, GateModel, Seq<OutModel>) {
    let answers = drain_responses(g, DrainReason::UpstreamExited);
    let drained = Seq::new(answers.len(), |i: int| OutModel::ToClient(answers[i]));
    if !u.handshake_done && u.initialize_id is Some {
        (SideModel { initialize_id: None, ..u }, after_drain(g), seq![OutModel::ToClient(initialize_failed_body(u.initialize_id->0))] + drained)
    } else {
        (u, after_drain(g), drained)
    }
}

/// What the listing of the scripts the mapping waits for does.
pub open spec fn on_scripts_model(u: SideModel, g: GateModel, scripts: Seq<Seq<char>>) -> (SideModel, GateModel, Seq<OutModel>) {
    let (t2, changed) = apply_scan_model(u.tracker, scripts);
    let u2 = SideModel { tracker: t2, ..u };
    match changed {
        Some(s) => (u2, after_state(g, s), notify_model(u2, s) + releases_model(g, s)),
        None => (u2, g, Seq::empty()),
    }
}

impl UpstreamSide {
    fn on_initialize_result(&mut self, msg: RawMessage) -> (r: Vec<Out>)
        requires
            old(self).well_formed(),
        ensures
            final(self).well_formed(),
            (final(self)@, outs_model(r@)) == ({
                let (u, _, o) = on_initialize_result_model(old(self)@, GateModel { held: Seq::empty(), client_decides: false }, msg.body@);
                (u, o)
            }),
    {
        let identity = match server_info(&msg.body) {
            Some(i) => Some(i),
            None => identity_from_initialize_result(&msg.body),
        };
        let _ = self.tracker.select_mapping(identity.as_ref());
        let provider = self.tracker.provider();
        let out = match declare_server_state_provider(&msg.body, &provider) {
            InitializeResultAction::NotASuccess => {
                self.initialize_id = None;
                vec![Out::ToClient(msg)]
            },
            InitializeResultAction::UpstreamDeclares => {
                self.handshake_done = true;
                self.identity = true;
                self.identity_query_pending = true;
                vec![Out::ToClient(msg)]
            },
            InitializeResultAction::Unrewritable => {
                self.handshake_done = true;
                vec![Out::ToClient(msg)]
            },
            InitializeResultAction::Declared(body) => {
                self.handshake_done = true;
                vec![Out::ToClient(RawMessage { body })]
            },
        };
        assert(outs_model(out@) =~= ({
            let (_, _, o) = on_initialize_result_model(old(self)@, GateModel { held: Seq::empty(), client_decides: false }, msg.body@);
            o
        }));
        out
    }

    fn adopt_identity_state(&mut self, state: ServerState, gate: &mut Gate) -> (r: Vec<Out>)
        ensures
            final(self).well_formed() == old(self).well_formed(),
            final(self)@ == (SideModel { identity_state: state@, ..old(self)@ }),
            final(gate)@ == after_state(old(gate)@, state@),
            outs_model(r@) == releases_model(old(gate)@, state@),
    {
        let r = releases(gate, &state);
        self.identity_state = state;
        r
    }

    /// Handles a message from the upstream: what it does to the upstream side and the hold queue,
    /// and the messages to send, in order.
    pub fn on_upstream(&mut self, msg: RawMessage, gate: &mut Gate) -> (r: Vec<Out>)
        requires
            old(self).well_formed(),
        ensures
            final(self).well_formed(),
            (final(self)@, final(gate)@, outs_model(r@)) == on_upstream_model(old(self)@, old(gate)@, msg.body@),
    {
        if self.handshake_done && !self.identity && self.tracker.upstream_is_unmapped() && self.client_declared_progress {
            let out = vec![Out::ToClient(msg)];
            assert(outs_model(out@) =~= seq![OutModel::ToClient(msg.body@)]);
            return out;
        }
        let view = match peek(&msg.body) {
            Ok(v) => v,
            Err(_) => {
                let out = vec![Out::ToClient(msg)];
                assert(outs_model(out@) =~= seq![OutModel::ToClient(msg.body@)]);
                return out;
            },
        };
        let create = match view.method() {
            Some(m) => str_eq(m, WORK_DONE_PROGRESS_CREATE),
            None => false,
        };
        if view.is_request() && create && !self.client_declared_progress {
            let id = match &view.id {
                Some(i) => i,
                None => {
                    assert(false);
                    return Vec::new();
                },
            };
            let out = vec![Out::ToUpstream(null_response(id))];
            assert(outs_model(out@) =~= on_upstream_model(old(self)@, old(gate)@, msg.body@).2);
            return out;
        }
        let answers_initialize = !self.handshake_done && view.method.is_none() && match (&view.id, &self.initialize_id) {
            (Some(a), Some(b)) => a.same_as(b),
            _ => false,
        };
        if answers_initialize {
            return self.on_initialize_result(msg);
        }
        if self.identity {
            let self_response = view.method.is_none() && match &view.id {
                Some(RequestId::String(i)) => str_eq(i.as_str(), SELF_STATE_REQUEST_ID),
                _ => false,
            };
            let state_changed = view.is_notification_named(SERVER_STATE_CHANGED_METHOD);
            if self_response {
                let state = match parse_state_response(&msg.body) {
                    Some(s) => s,
                    None => ServerState::unobserved(),
                };
                return self.adopt_identity_state(state, gate);
            }
            if state_changed {
                let mut out: Vec<Out> = Vec::new();
                let parsed = parse_state_notification(&msg.body);
                if self.client_declared {
                    out.push(Out::ToClient(msg));
                }
                let ghost first = outs_model(out@);
                if let Some(state) = parsed {
                    let more = self.adopt_identity_state(state, gate);
                    extend_outs(&mut out, more);
                }
                assert(first =~= (if old(self)@.client_declared { seq![OutModel::ToClient(msg.body@)] } else { Seq::<OutModel>::empty() }));
                return out;
            }
            let out = vec![Out::ToClient(msg)];
            assert(outs_model(out@) =~= seq![OutModel::ToClient(msg.body@)]);
            return out;
        }
        let changed = self.tracker.observe_upstream(&view, &msg.body);
        let mut out: Vec<Out> = Vec::new();
        out.push(Out::ToClient(msg));
        if let Some(state) = changed {
            let n = self.notify(&state);
            extend_outs(&mut out, n);
            let rel = releases(gate, &state);
            extend_outs(&mut out, rel);
        }
        assert(outs_model(out@) =~= on_upstream_model(old(self)@, old(gate)@, msg.body@).2);
        out
    }

    /// The upstream is gone: a pending `initialize` is failed, and every held request is
    /// answered.
    pub fn close_pending(&mut self, gate: &mut Gate) -> (r: Vec<Out>)
        requires
            old(self).well_formed(),
        ensures
            final(self).well_formed(),
            (final(self)@, final(gate)@, outs_model(r@)) == close_pending_model(old(self)@, old(gate)@),
    {
        let mut out: Vec<Out> = Vec::new();
        if !self.handshake_done {
            if let Some(id) = &self.initialize_id {
                out.push(Out::ToClient(initialize_failed(id)));
            }
            self.initialize_id = None;
        }
        let answers = gate.drain(DrainReason::UpstreamExited);
        let more = to_client_all(answers);
        extend_outs(&mut out, more);
        assert(outs_model(out@) =~= close_pending_model(old(self)@, old(gate)@).2);
        out
    }

    /// The folders and exclude patterns whose scripts the mapping waits for, if it waits.
    pub fn scan_request(&self) -> (r: Option<(&Vec<String>, &Vec<String>)>)
        ensures
            match r {
                Some((folders, exclude)) => self@.tracker.adapter matches Some(crate::adapter::AdapterModel::Nextflow(m)) && m.scan_pending
                    && crate::adapter::nextflow::texts(folders@) == m.folders && crate::adapter::nextflow::texts(exclude@) == m.exclude,
                None => !(self@.tracker.adapter matches Some(crate::adapter::AdapterModel::Nextflow(m)) && m.scan_pending),
            },
    {
        self.tracker.scan_request()
    }

    /// Takes in the scripts the mapping waits for: the state it moves to is notified and
    /// decided on like any other.
    pub fn on_scripts(&mut self, scripts: &[String], gate: &mut Gate) -> (r: Vec<Out>)
        requires
            old(self).well_formed(),
        ensures
            final(self).well_formed(),
            (final(self)@, final(gate)@, outs_model(r@)) == on_scripts_model(old(self)@, old(gate)@, crate::adapter::nextflow::texts(scripts@)),
    {
        let changed = self.tracker.apply_scan(scripts);
        let mut out: Vec<Out> = Vec::new();
        if let Some(state) = changed {
            let n = self.notify(&state);
            extend_outs(&mut out, n);
            let rel = releases(gate, &state);
            extend_outs(&mut out, rel);
        }
        assert(outs_model(out@) =~= on_scripts_model(old(self)@, old(gate)@, crate::adapter::nextflow::texts(scripts@)).2);
        out
    }
}

/// What the upstream sends passes through as its own bytes: outside the identity mapping, a
/// message that is neither the answer to `initialize` nor a `window/workDoneProgress/create`
/// the side answers itself reaches the client first, byte for byte, whatever the mapping reads
/// from it.
pub proof fn law_upstream_messages_pass_through(u: SideModel, g: GateModel, body: Seq<u8>)
    requires
        !u.identity,
        !(peek_model(body) matches Some(v) && is_request_model(v) && v.method == Some(WORK_DONE_PROGRESS_CREATE@) && !u.client_declared_progress),
        !(peek_model(body) matches Some(v) && !u.handshake_done && v.method is None && v.id is Some && v.id == u.initialize_id),
    ensures
        on_upstream_model(u, g, body).2.len() > 0,
        on_upstream_model(u, g, body).2[0] == OutModel::ToClient(body),
{
    let (t2, changed) = match peek_model(body) {
        Some(v) => observe_upstream_model(u.tracker, v, json_parse(body)),
        None => (u.tracker, None),
    };
    if let Some(v) = peek_model(body) {
        if let Some(s) = changed {
            let u2 = SideModel { tracker: t2, ..u };
            let tail = notify_model(u2, s) + releases_model(g, s);
            assert((seq![OutModel::ToClient(body)] + tail)[0] == OutModel::ToClient(body));
        }
    }
}

/// When the upstream is gone nothing is left unanswered: each held request gets its error
/// response, in order, after the failure of a pending `initialize`; afterwards nothing is held
/// and no `initialize` is pending.
pub proof fn law_nothing_is_left_unanswered(u: SideModel, g: GateModel)
    ensures
        close_pending_model(u, g).1.held.len() == 0,
        close_pending_model(u, g).0.handshake_done || close_pending_model(u, g).0.initialize_id is None,
        ({
            let pending = !u.handshake_done && u.initialize_id is Some;
            let k: int = if pending { 1 } else { 0 };
            let outs = close_pending_model(u, g).2;
            &&& outs.len() == g.held.len() + k
            &&& pending ==> outs[0] == OutModel::ToClient(initialize_failed_body(u.initialize_id->0))
            &&& forall|i: int| 0 <= i < g.held.len() ==> #[trigger] outs[i + k] == OutModel::ToClient(drain_responses(g, DrainReason::UpstreamExited)[i])
        }),
{
}

/// A `shutdown` never waits behind held requests: each held request is first answered with
/// its error, in order, then the `shutdown` goes to the upstream, and nothing is held
/// afterwards.
pub proof fn law_shutdown_answers_the_held_first(u: SideModel, g: GateModel, body: Seq<u8>, a: AnswerModel)
    requires
        client_kind(body) == KindModel::ShutdownRequest,
    ensures
        ({
            let (u2, g2, outs) = on_client_model(u, g, body, a);
            &&& u2 == u
            &&& g2.held.len() == 0
            &&& outs.len() == g.held.len() + 1
            &&& forall|i: int| 0 <= i < g.held.len() ==> #[trigger] outs[i] == OutModel::ToClient(drain_responses(g, DrainReason::Shutdown)[i])
            &&& outs.last() == OutModel::ToUpstream(body)
        }),
{
}

/// The state request is answered at once from what the side knows, without waiting and
/// without touching the hold queue (unless the upstream speaks the protocol itself, which then
/// answers).
pub proof fn law_a_state_request_is_answered_at_once(u: SideModel, g: GateModel, body: Seq<u8>, a: AnswerModel, id: IdModel)
    requires
        client_kind(body) == KindModel::ServerStateRequest(id),
        !u.identity,
    ensures
        on_client_model(u, g, body, a) == (u, g, seq![OutModel::ToClient(state_response_body(id, u.tracker.state))]),
{
}

proof fn lemma_state_names_read_back(h: Health, r: Readiness)
    ensures
        crate::state::health_named(health_text(h)) == Some(h),
        crate::state::readiness_named(readiness_text(r)) == Some(r),
{
    reveal_strlit("ok");
    reveal_strlit("warning");
    reveal_strlit("error");
    reveal_strlit("unknown");
    reveal_strlit("initializing");
    reveal_strlit("indexing");
    reveal_strlit("ready");
    assert("ok"@.len() == 2 && "warning"@.len() == 7 && "error"@.len() == 5 && "unknown"@.len() == 7);
    assert("warning"@[0] == 'w' && "unknown"@[0] == 'u');
    assert("initializing"@.len() == 12 && "indexing"@.len() == 8 && "ready"@.len() == 5);
}

/// Under the identity mapping the upstream's own `experimental/serverStateChanged` decides:
/// the health and readiness it names become the state the side stands on, and unless that
/// state still says wait (`initializing` or `indexing` without `error`), every held request
/// leaves the queue after the notification, in order: forwarded as its own bytes, or
/// answered with an error when the health is `error`.
pub proof fn law_identity_adopts_the_announced_state(u: SideModel, g: GateModel, body: Seq<u8>, j: JsonModel, p: JsonModel, h: Health, r: Readiness)
    requires
        u.identity,
        peek_model(body) matches Some(v) && is_notification_model(v) && v.method == Some(SERVER_STATE_CHANGED_METHOD@),
        json_parse(body) == Some(j),
        member(j, "params"@) == Some(p),
        member(p, "health"@) == Some(JsonModel::String(health_text(h))),
        member(p, "readiness"@) == Some(JsonModel::String(readiness_text(r))),
        member(p, "message"@) is None,
    ensures
        ({
            let (u2, g2, outs) = on_upstream_model(u, g, body);
            let k: int = if u.client_declared { 1 } else { 0 };
            let waits = h != Health::Error && (r == Readiness::Initializing || r == Readiness::Indexing);
            &&& u2.identity_state == (StateModel { health: h, readiness: r, message: None })
            &&& boundary(u2) == (StateModel { health: h, readiness: r, message: None })
            &&& waits ==> g2 == g && outs.len() == k
            &&& !waits ==> g2.held.len() == 0 && outs.len() == k + g.held.len()
                && forall|i: int| 0 <= i < g.held.len() ==> #[trigger] outs[k + i] == (if h == Health::Error {
                    OutModel::ToClient(error_body(g.held[i].id, REQUEST_FAILED, failed_text(None)))
                } else {
                    OutModel::ToUpstream(g.held[i].body)
                })
        }),
{
    lemma_state_names_read_back(h, r);
    let s = StateModel { health: h, readiness: r, message: None };
    assert(state_of_json(p) == Some(s));
    let v = peek_model(body)->0;
    reveal_strlit("experimental/serverStateChanged");
    assert(v.method is Some);
    let (u2, g2, outs) = on_upstream_model(u, g, body);
    let first: Seq<OutModel> = if u.client_declared { seq![OutModel::ToClient(body)] } else { Seq::empty() };
    assert(outs == first + releases_model(g, s));
}

} // verus!
