//! The downstream side: performs the recommended client behavior of the server state protocol
//! on behalf of a client that does not speak it.
//!
//! It looks at the `ServerState` on the boundary and holds, forwards, or rejects
//! cross-workspace requests. There is no time limit on holding. To never create a request that
//! gets no response, every held request is answered on cancellation, on `shutdown`, and on the
//! disappearance of the upstream.
//!
//! The decision table:
//!
//! | `health` \ `readiness`       | `initializing` / `indexing` | `ready` | `unknown` |
//! | ---------------------------- | --------------------------- | ------- | --------- |
//! | `ok` / `warning` / `unknown` | hold                        | forward | forward   |
//! | `error`                      | error immediately           | same    | same      |

pub mod error_code;

use vstd::prelude::*;
use vstd::string::StringExecFns;

use crate::framing::RawMessage;
use crate::json::{Json, JsonModel, JsonNumber, json_print, jint, json_parse, member, jstr, to_json_bytes, parse_json, get};
use crate::peek::{IdModel, RequestId, id_json, id_of_json, id_from_json};
use crate::state::{Health, Readiness, ServerState, StateModel};
use crate::text::str_in;
use self::error_code::{INTERNAL_ERROR, REQUEST_CANCELLED, REQUEST_FAILED};

verus! {

/// The cross-workspace requests. What the downstream side waits for `ready` on (holds), and
/// that is the only role of this constant. What `coverage` guarantees is this list minus
/// `workspace/symbol`; that guarantee is the meaning of a declaration and is not used for the
/// decision.
pub const CROSS_WORKSPACE_METHODS: [&'static str; 11] = [
    "textDocument/references",
    "textDocument/definition",
    "textDocument/typeDefinition",
    "textDocument/declaration",
    "textDocument/implementation",
    "workspace/symbol",
    "textDocument/prepareCallHierarchy",
    "callHierarchy/incomingCalls",
    "callHierarchy/outgoingCalls",
    "textDocument/rename",
    "textDocument/prepareRename",
];

/// Whether a method is one of [`CROSS_WORKSPACE_METHODS`].
pub open spec fn cross_workspace(method: Seq<char>) -> bool {
    exists|i: int| 0 <= i < 11 && CROSS_WORKSPACE_METHODS@[i]@ == method
}

/// Whether a method is a cross-workspace request.
pub fn is_cross_workspace(method: &str) -> (r: bool)
    ensures
        r == cross_workspace(method@),
{
    let methods = CROSS_WORKSPACE_METHODS;
    str_in(method, &methods)
}

/// The `params.id` of a parsed `$/cancelRequest`; `None` when there is none or it is not an
/// id.
pub open spec fn cancel_target_model(j: JsonModel) -> Option<IdModel> {
    match member(j, "params"@) {
        Some(p) => match member(p, "id"@) {
            Some(v) => id_of_json(v),
            None => None,
        },
        None => None,
    }
}

/// The `params.id` of a `$/cancelRequest` body. `None` if it cannot be read.
pub fn cancel_target(body: &[u8]) -> (r: Option<RequestId>)
    ensures
        match r {
            Some(id) => json_parse(body@) matches Some(j) && cancel_target_model(j) == Some(id@),
            None => !(json_parse(body@) matches Some(j) && cancel_target_model(j) is Some),
        },
{
    let j = match parse_json(body) {
        Some(j) => j,
        None => return None,
    };
    let params = match get(&j, "params") {
        Some(p) => p,
        None => return None,
    };
    match get(params, "id") {
        Some(v) => id_from_json(v),
        None => None,
    }
}

/// How to handle the client's request.
#[derive(Debug, PartialEq, Eq)]
pub enum Decision {
    /// Forward to the upstream.
    Forward(RawMessage),
    /// Held until `ready`.
    Held,
    /// Return an error response to the client. Not forwarded to the upstream.
    Reject(RawMessage),
}

/// What to do with the held requests on a state change.
#[derive(Debug, PartialEq, Eq)]
pub enum Release {
    /// Forward to the upstream.
    Forward(RawMessage),
    /// Return an error response to the client.
    Reject(RawMessage),
}

/// The reason for discarding the held requests. The error code and the wording change with
/// it.
#[derive(Debug, Clone, Copy, PartialEq, Eq, Structural)]
pub enum DrainReason {
    /// The client requested `shutdown`.
    Shutdown,
    /// The upstream process is gone.
    UpstreamExited,
}

/// A row of the decision table.
#[derive(Debug, Clone, Copy, PartialEq, Eq, Structural)]
pub enum Verdict {
    Forward,
    Hold,
    Reject,
}

/// The decision table. `health` is looked at first.
pub open spec fn verdict_of(s: StateModel) -> Verdict {
    if s.health == Health::Error {
        Verdict::Reject
    } else {
        match s.readiness {
            Readiness::Ready | Readiness::Unknown => Verdict::Forward,
            Readiness::Initializing | Readiness::Indexing => Verdict::Hold,
        }
    }
}

/// The row of the decision table a state falls in.
pub fn verdict(state: &ServerState) -> (r: Verdict)
    ensures
        r == verdict_of(state@),
{
    if state.health == Health::Error {
        return Verdict::Reject;
    }
    match state.readiness {
        Readiness::Ready | Readiness::Unknown => Verdict::Forward,
        Readiness::Initializing | Readiness::Indexing => Verdict::Hold,
    }
}

/// The JSON of an error response.
pub open spec fn error_json(id: IdModel, code: i64, message: Seq<char>) -> JsonModel {
    JsonModel::Object(
        seq![
            ("jsonrpc"@, jstr("2.0"@)),
            ("id"@, id_json(id)),
            ("error"@, JsonModel::Object(seq![("code"@, jint(code)), ("message"@, jstr(message))])),
        ],
    )
}

/// The body of an error response.
pub open spec fn error_body(id: IdModel, code: i64, message: Seq<char>) -> Seq<u8> {
    json_print(error_json(id, code, message))
}

/// The message of the response to a request refused because `health` is `error`: the
/// server's own `message` is attached, so a broken server is not hidden.
pub open spec fn failed_text(detail: Option<Seq<char>>) -> Seq<char> {
    match detail {
        Some(d) => "lsp-det: the language server reports health: error ("@ + d + ")"@,
        None => "lsp-det: the language server reports health: error"@,
    }
}

/// The message of the response to a cancelled held request.
pub open spec fn cancelled_text() -> Seq<char> {
    "lsp-det: the request was cancelled while waiting for the server to become ready"@
}

/// The error code of the responses made on a drain.
pub open spec fn drain_code(reason: DrainReason) -> i64 {
    match reason {
        DrainReason::Shutdown => REQUEST_FAILED,
        DrainReason::UpstreamExited => INTERNAL_ERROR,
    }
}

/// The message of the responses made on a drain.
pub open spec fn drain_text(reason: DrainReason) -> Seq<char> {
    match reason {
        DrainReason::Shutdown => "lsp-det: shutdown was requested while waiting for the server to become ready"@,
        DrainReason::UpstreamExited => "lsp-det: the upstream language server exited while the request was waiting"@,
    }
}

/// An integer as JSON.
fn int_json(n: i64) -> (r: Json)
    ensures
        r@ == jint(n),
{
    if n >= 0 {
        Json::Number(JsonNumber::PosInt(n as u64))
    } else {
        Json::Number(JsonNumber::NegInt(n))
    }
}

/// A string as JSON.
fn str_json(s: &str) -> (r: Json)
    ensures
        r@ == jstr(s@),
{
    Json::String(s.to_owned())
}

/// An error response to the request `id`.
pub(crate) fn error_response(id: &RequestId, code: i64, message: &str) -> (r: RawMessage)
    ensures
        r.body@ == error_body(id@, code, message@),
{
    let c = int_json(code);
    let m = str_json(message);
    let mut inner: Vec<(String, Json)> = Vec::new();
    inner.push(("code".to_owned(), c));
    inner.push(("message".to_owned(), m));
    let error = Json::Object(inner);
    proof {
        reveal_strlit("code");
        reveal_strlit("message");
        let want = seq![("code"@, jint(code)), ("message"@, jstr(message@))];
        assert(error@->Object_0 =~= want);
    }
    let v = str_json("2.0");
    let i = id.to_json();
    let mut outer: Vec<(String, Json)> = Vec::new();
    outer.push(("jsonrpc".to_owned(), v));
    outer.push(("id".to_owned(), i));
    outer.push(("error".to_owned(), error));
    let whole = Json::Object(outer);
    proof {
        let want = error_json(id@, code, message@)->Object_0;
        assert(whole@->Object_0 =~= want);
    }
    RawMessage { body: to_json_bytes(&whole) }
}

/// The response when `health` is `error`.
fn request_failed(id: &RequestId, state: &ServerState) -> (r: RawMessage)
    ensures
        r.body@ == error_body(id@, REQUEST_FAILED, failed_text(state@.message)),
{
    let mut message = "lsp-det: the language server reports health: error".to_owned();
    if let Some(detail) = &state.message {
        message.append(" (");
        message.append(detail.as_str());
        message.append(")");
        proof {
            reveal_strlit("lsp-det: the language server reports health: error");
            reveal_strlit("lsp-det: the language server reports health: error (");
            reveal_strlit(" (");
            assert(message@ =~= failed_text(state@.message));
        }
    }
    error_response(id, REQUEST_FAILED, message.as_str())
}

/// What a release sends: a body to the upstream, or an error response to the client.
pub ghost enum ReleaseModel {
    Forward(Seq<u8>),
    Reject(Seq<u8>),
}

/// The model of a [`Release`].
pub open spec fn release_model(r: Release) -> ReleaseModel {
    match r {
        Release::Forward(m) => ReleaseModel::Forward(m.body@),
        Release::Reject(m) => ReleaseModel::Reject(m.body@),
    }
}

/// What a decision does with the request: forward a body, hold it, or answer with an error.
pub ghost enum DecisionModel {
    Forward(Seq<u8>),
    Held,
    Reject(Seq<u8>),
}

/// The model of a [`Decision`].
pub open spec fn decision_model(d: Decision) -> DecisionModel {
    match d {
        Decision::Forward(m) => DecisionModel::Forward(m.body@),
        Decision::Held => DecisionModel::Held,
        Decision::Reject(m) => DecisionModel::Reject(m.body@),
    }
}

/// The decision on a client's request.
pub open spec fn request_decision(g: GateModel, id: IdModel, method: Seq<char>, body: Seq<u8>, s: StateModel) -> DecisionModel {
    if passes(g, method) || verdict_of(s) == Verdict::Forward {
        DecisionModel::Forward(body)
    } else if verdict_of(s) == Verdict::Hold {
        DecisionModel::Held
    } else {
        DecisionModel::Reject(error_body(id, REQUEST_FAILED, failed_text(s.message)))
    }
}

/// What leaves the queue on a state change, in order.
pub open spec fn state_releases(g: GateModel, s: StateModel) -> Seq<ReleaseModel> {
    if verdict_of(s) == Verdict::Hold {
        Seq::empty()
    } else if verdict_of(s) == Verdict::Forward {
        Seq::new(g.held.len(), |i: int| ReleaseModel::Forward(g.held[i].body))
    } else {
        Seq::new(g.held.len(), |i: int| ReleaseModel::Reject(error_body(g.held[i].id, REQUEST_FAILED, failed_text(s.message))))
    }
}

/// The answer to `$/cancelRequest`: the cancellation response when the request is held.
pub open spec fn cancel_response(g: GateModel, id: IdModel) -> Option<Seq<u8>> {
    match held_position(g.held, id) {
        Some(_) => Some(error_body(id, REQUEST_CANCELLED, cancelled_text())),
        None => None,
    }
}

/// The responses of a drain, one per held request, in order.
pub open spec fn drain_responses(g: GateModel, reason: DrainReason) -> Seq<Seq<u8>> {
    Seq::new(g.held.len(), |i: int| error_body(g.held[i].id, drain_code(reason), drain_text(reason)))
}

/// A request waiting for `ready`.
struct Held {
    id: RequestId,
    method: String,
    msg: RawMessage,
}

/// The mathematical value of a held request.
pub ghost struct HeldModel {
    pub id: IdModel,
    pub method: Seq<char>,
    pub body: Seq<u8>,
}

/// The mathematical value of a [`Gate`]: the held requests in arrival order, and whether the
/// client decides for itself.
pub ghost struct GateModel {
    pub held: Seq<HeldModel>,
    pub client_decides: bool,
}

/// Holds cross-workspace requests while the server is not ready.
pub struct Gate {
    held: Vec<Held>,
    /// The client declared that it speaks the protocol. It decides for itself, so do not stand
    /// in.
    client_decides: bool,
}

/// The models of held requests.
spec fn held_models(held: Seq<Held>) -> Seq<HeldModel> {
    Seq::new(held.len(), |i: int| HeldModel { id: held[i].id@, method: held[i].method@, body: held[i].msg.body@ })
}

impl View for Gate {
    type V = GateModel;

    closed spec fn view(&self) -> GateModel {
        GateModel { held: held_models(self.held@), client_decides: self.client_decides }
    }
}

/// Whether a request passes the hold queue whatever the state: the client decides, or it is not
/// a cross-workspace request.
pub open spec fn passes(g: GateModel, method: Seq<char>) -> bool {
    g.client_decides || !cross_workspace(method)
}

/// The hold queue after the client's request: held only when it does not pass and the state says
/// wait.
pub open spec fn after_request(g: GateModel, id: IdModel, method: Seq<char>, body: Seq<u8>, s: StateModel) -> GateModel {
    if !passes(g, method) && verdict_of(s) == Verdict::Hold {
        GateModel { held: g.held.push(HeldModel { id, method, body }), ..g }
    } else {
        g
    }
}

/// The hold queue after a state change: everything held leaves unless the state still says wait.
pub open spec fn after_state(g: GateModel, s: StateModel) -> GateModel {
    if verdict_of(s) == Verdict::Hold {
        g
    } else {
        GateModel { held: Seq::empty(), ..g }
    }
}

/// The first held request with the id `id`.
pub open spec fn held_position(held: Seq<HeldModel>, id: IdModel) -> Option<int>
    decreases held.len(),
{
    if held.len() == 0 {
        None
    } else if held.last().id == id {
        match held_position(held.drop_last(), id) {
            Some(k) => Some(k),
            None => Some(held.len() - 1),
        }
    } else {
        held_position(held.drop_last(), id)
    }
}

/// The hold queue after `$/cancelRequest`: the first held request with that id is gone.
pub open spec fn after_cancel(g: GateModel, id: IdModel) -> GateModel {
    match held_position(g.held, id) {
        Some(k) => GateModel { held: g.held.remove(k), ..g },
        None => g,
    }
}

/// The hold queue after a drain: nothing is held.
pub open spec fn after_drain(g: GateModel) -> GateModel {
    GateModel { held: Seq::empty(), ..g }
}

/// The first index in `held[..n]` whose id is `id`.
proof fn lemma_held_position(held: Seq<HeldModel>, id: IdModel, n: int)
    requires
        0 <= n <= held.len(),
        forall|k: int| 0 <= k < n ==> held[k].id != id,
    ensures
        n < held.len() && held[n].id == id ==> held_position(held, id) == Some(n),
        n == held.len() ==> held_position(held, id) is None,
    decreases held.len(),
{
    if held.len() > 0 {
        if n < held.len() {
            if n < held.len() - 1 {
                lemma_held_position(held.drop_last(), id, n);
                if held[n].id == id {
                    let k = held_position(held.drop_last(), id);
                    assert(held.drop_last()[n] == held[n]);
                }
            } else {
                lemma_held_position(held.drop_last(), id, n);
            }
        } else {
            lemma_held_position(held.drop_last(), id, n - 1);
        }
    }
}

impl Gate {
    /// An empty gate that stands in for the client.
    pub fn new() -> (r: Self)
        ensures
            r@ == (GateModel { held: Seq::empty(), client_decides: false }),
    {
        let r = Gate { held: Vec::new(), client_decides: false };
        assert(r@.held =~= Seq::<HeldModel>::empty());
        r
    }

    /// Called when the client declared `experimental.serverState`. From then on nothing is
    /// held.
    pub fn set_client_decides(&mut self, decides: bool)
        ensures
            final(self)@ == (GateModel { client_decides: decides, ..old(self)@ }),
    {
        self.client_decides = decides;
    }

    /// Decide on the client's request. `method` is the one already peeked.
    pub fn on_request(&mut self, msg: RawMessage, id: RequestId, method: &str, state: &ServerState) -> (r: Decision)
        ensures
            final(self)@ == after_request(old(self)@, id@, method@, msg.body@, state@),
            decision_model(r) == request_decision(old(self)@, id@, method@, msg.body@, state@),
            passes(old(self)@, method@) || verdict_of(state@) == Verdict::Forward ==> (r matches Decision::Forward(m) && m.body@ == msg.body@),
            !passes(old(self)@, method@) && verdict_of(state@) == Verdict::Hold ==> r is Held,
            !passes(old(self)@, method@) && verdict_of(state@) == Verdict::Reject ==> (r matches Decision::Reject(m)
                && m.body@ == error_body(id@, REQUEST_FAILED, failed_text(state@.message))),
    {
        if self.client_decides || !is_cross_workspace(method) {
            return Decision::Forward(msg);
        }
        match verdict(state) {
            Verdict::Forward => Decision::Forward(msg),
            Verdict::Hold => {
                let ghost before = self@;
                self.held.push(Held { id, method: method.to_owned(), msg });
                assert(self@.held =~= before.held.push(HeldModel { id: id@, method: method@, body: msg.body@ }));
                Decision::Held
            },
            Verdict::Reject => Decision::Reject(request_failed(&id, state)),
        }
    }

    /// Takes every held request out, in order.
    fn take_held(&mut self) -> (r: Vec<Held>)
        ensures
            held_models(r@) == old(self)@.held,
            final(self)@ == after_drain(old(self)@),
    {
        let mut taken: Vec<Held> = Vec::new();
        std::mem::swap(&mut taken, &mut self.held);
        assert(self@.held =~= Seq::<HeldModel>::empty());
        taken
    }

    /// The state on the boundary changed. Re-evaluate the held requests: forwarded in order
    /// when the state no longer says wait, answered with an error in order when `health` is
    /// `error`.
    pub fn on_state(&mut self, state: &ServerState) -> (r: Vec<Release>)
        ensures
            final(self)@ == after_state(old(self)@, state@),
            Seq::new(r@.len(), |i: int| release_model(r@[i])) == state_releases(old(self)@, state@),
            verdict_of(state@) == Verdict::Hold ==> r@.len() == 0,
            verdict_of(state@) != Verdict::Hold ==> r@.len() == old(self)@.held.len(),
            verdict_of(state@) == Verdict::Forward ==> forall|i: int| 0 <= i < r@.len() ==>
                (#[trigger] r@[i] matches Release::Forward(m) && m.body@ == old(self)@.held[i].body),
            verdict_of(state@) == Verdict::Reject ==> forall|i: int| 0 <= i < r@.len() ==>
                (#[trigger] r@[i] matches Release::Reject(m) && m.body@ == error_body(old(self)@.held[i].id, REQUEST_FAILED, failed_text(state@.message))),
    {
        let v = verdict(state);
        if v == Verdict::Hold {
            return Vec::new();
        }
        let mut held = self.take_held();
        let ghost all = held_models(held@);
        let ghost n = held@.len();
        let mut out: Vec<Release> = Vec::new();
        while held.len() > 0
            invariant
                v == verdict_of(state@),
                v != Verdict::Hold,
                all.len() == n,
                out@.len() + held@.len() == n,
                held_models(held@) == all.skip(out@.len() as int),
                v == Verdict::Forward ==> forall|i: int| 0 <= i < out@.len() ==>
                    (#[trigger] out@[i] matches Release::Forward(m) && m.body@ == all[i].body),
                v == Verdict::Reject ==> forall|i: int| 0 <= i < out@.len() ==>
                    (#[trigger] out@[i] matches Release::Reject(m) && m.body@ == error_body(all[i].id, REQUEST_FAILED, failed_text(state@.message))),
            decreases held@.len(),
        {
            let ghost k = out@.len() as int;
            let ghost prev = held@;
            let h = held.remove(0);
            assert(held_models(prev)[0] == all.skip(k)[0]);
            assert(all.skip(k)[0] == all[k]);
            assert forall|j: int| 0 <= j < held@.len() implies #[trigger] held_models(held@)[j] == all.skip(k + 1)[j] by {
                assert(held@[j] == prev[j + 1]);
                assert(held_models(prev)[j + 1] == all.skip(k)[j + 1]);
            }
            assert(held_models(held@) =~= all.skip(k + 1));
            if v == Verdict::Forward {
                out.push(Release::Forward(h.msg));
            } else {
                out.push(Release::Reject(request_failed(&h.id, state)));
            }
        }
        out
    }

    /// `$/cancelRequest`. If held, remove it and return `RequestCancelled`. If not held,
    /// `None` (passed through to the upstream).
    pub fn on_cancel(&mut self, id: &RequestId) -> (r: Option<RawMessage>)
        ensures
            final(self)@ == after_cancel(old(self)@, id@),
            match r {
                Some(m) => cancel_response(old(self)@, id@) == Some(m.body@),
                None => cancel_response(old(self)@, id@) is None,
            },
            match held_position(old(self)@.held, id@) {
                Some(_) => r matches Some(m) && m.body@ == error_body(id@, REQUEST_CANCELLED, cancelled_text()),
                None => r is None,
            },
    {
        let ghost before = self@;
        let mut i: usize = 0;
        while i < self.held.len()
            invariant
                self@ == before,
                before == old(self)@,
                i <= self.held@.len(),
                forall|k: int| 0 <= k < i ==> before.held[k].id != id@,
            decreases self.held@.len() - i,
        {
            if self.held[i].id.same_as(id) {
                proof {
                    assert(before.held[i as int].id == id@);
                    lemma_held_position(before.held, id@, i as int);
                }
                let _ = self.held.remove(i);
                assert(self@.held =~= before.held.remove(i as int));
                proof {
                    reveal_strlit("lsp-det: the request was cancelled while waiting for the server to become ready");
                }
                return Some(error_response(id, REQUEST_CANCELLED, "lsp-det: the request was cancelled while waiting for the server to become ready"));
            }
            i = i + 1;
        }
        proof {
            lemma_held_position(before.held, id@, i as int);
        }
        None
    }

    /// Build an error response for every held request, in order, and empty the queue.
    pub fn drain(&mut self, reason: DrainReason) -> (r: Vec<RawMessage>)
        ensures
            final(self)@ == after_drain(old(self)@),
            Seq::new(r@.len(), |i: int| r@[i].body@) == drain_responses(old(self)@, reason),
            r@.len() == old(self)@.held.len(),
            forall|i: int| 0 <= i < r@.len() ==>
                (#[trigger] r@[i]).body@ == error_body(old(self)@.held[i].id, drain_code(reason), drain_text(reason)),
    {
        let message = match reason {
            DrainReason::Shutdown => "lsp-det: shutdown was requested while waiting for the server to become ready",
            DrainReason::UpstreamExited => "lsp-det: the upstream language server exited while the request was waiting",
        };
        let code = match reason {
            DrainReason::Shutdown => REQUEST_FAILED,
            DrainReason::UpstreamExited => INTERNAL_ERROR,
        };
        let held = self.take_held();
        let mut out: Vec<RawMessage> = Vec::new();
        let mut i: usize = 0;
        while i < held.len()
            invariant
                i <= held@.len(),
                out@.len() == i,
                message@ == drain_text(reason),
                code == drain_code(reason),
                forall|k: int| 0 <= k < i ==>
                    (#[trigger] out@[k]).body@ == error_body(held_models(held@)[k].id, code, message@),
            decreases held@.len() - i,
        {
            out.push(error_response(&held[i].id, code, message));
            i = i + 1;
        }
        out
    }

    /// How many requests are held.
    pub fn held_count(&self) -> (r: usize)
        ensures
            r == self@.held.len(),
    {
        self.held.len()
    }
}

/// Every held request is a cross-workspace request.
pub open spec fn holds_only_cross_workspace(g: GateModel) -> bool {
    forall|i: int| 0 <= i < g.held.len() ==> cross_workspace(#[trigger] g.held[i].method)
}

/// Only cross-workspace requests are ever held: every operation of the hold queue keeps that so.
pub proof fn law_only_cross_workspace_requests_are_held(
    g: GateModel,
    id: IdModel,
    method: Seq<char>,
    body: Seq<u8>,
    s: StateModel,
    decides: bool,
)
    requires
        holds_only_cross_workspace(g),
    ensures
        holds_only_cross_workspace(after_request(g, id, method, body, s)),
        holds_only_cross_workspace(after_state(g, s)),
        holds_only_cross_workspace(after_cancel(g, id)),
        holds_only_cross_workspace(after_drain(g)),
        holds_only_cross_workspace(GateModel { client_decides: decides, ..g }),
{
    let r = after_request(g, id, method, body, s);
    assert forall|i: int| 0 <= i < r.held.len() implies cross_workspace(#[trigger] r.held[i].method) by {
        if i < g.held.len() {
            assert(r.held[i] == g.held[i]);
        }
    }
    let c = after_cancel(g, id);
    assert forall|i: int| 0 <= i < c.held.len() implies cross_workspace(#[trigger] c.held[i].method) by {
        match held_position(g.held, id) {
            Some(k) => {
                lemma_held_position_in_range(g.held, id);
                if i < k {
                    assert(c.held[i] == g.held[i]);
                } else {
                    assert(c.held[i] == g.held[i + 1]);
                }
            },
            None => {},
        }
    }
}

/// A position found is a position of the sequence, holding that id.
proof fn lemma_held_position_in_range(held: Seq<HeldModel>, id: IdModel)
    ensures
        held_position(held, id) matches Some(k) ==> 0 <= k < held.len() && held[k].id == id,
    decreases held.len(),
{
    if held.len() > 0 {
        lemma_held_position_in_range(held.drop_last(), id);
    }
}

/// Cancelling a request that was just held, and was not held before, gives back the hold queue as
/// it was.
pub proof fn law_cancel_undoes_hold(g: GateModel, id: IdModel, method: Seq<char>, body: Seq<u8>, s: StateModel)
    requires
        !passes(g, method),
        verdict_of(s) == Verdict::Hold,
        held_position(g.held, id) is None,
    ensures
        held_position(after_request(g, id, method, body, s).held, id) is Some,
        after_cancel(after_request(g, id, method, body, s), id) == g,
{
    let h = after_request(g, id, method, body, s);
    assert(h.held.drop_last() =~= g.held);
    assert(held_position(h.held, id) == Some(g.held.len() as int));
    assert(h.held.remove(g.held.len() as int) =~= g.held);
}

/// Draining twice answers nothing the second time: after a drain nothing is held.
pub proof fn law_drain_leaves_nothing(g: GateModel)
    ensures
        after_drain(g).held.len() == 0,
        after_drain(after_drain(g)) == after_drain(g),
{
}

/// Only `health` and `readiness` decide: the message never does, `warning` is treated like
/// `ok`, and `error` refuses whatever the readiness.
pub proof fn law_decision_reads_the_axes_only(s: StateModel, message: Option<Seq<char>>)
    ensures
        verdict_of(StateModel { message, ..s }) == verdict_of(s),
        verdict_of(StateModel { health: Health::Warning, ..s }) == verdict_of(StateModel { health: Health::Okay, ..s }),
        (verdict_of(s) == Verdict::Reject) == (s.health == Health::Error),
        s.readiness == Readiness::Unknown && s.health != Health::Error ==> verdict_of(s) == Verdict::Forward,
{
}

/// There is no upper bound on holding: while the server reports `initializing` or `indexing`
/// without `error`, a state change releases nothing and the held requests stay as they are.
pub proof fn law_holding_lasts_until_ready(g: GateModel, s: StateModel)
    requires
        s.health != Health::Error,
        s.readiness == Readiness::Initializing || s.readiness == Readiness::Indexing,
    ensures
        state_releases(g, s).len() == 0,
        after_state(g, s) == g,
{
}

/// What passes the hold queue is forwarded as its own bytes and leaves the hold queue as it was,
/// whatever the state: every request of a client that decides for itself, and every request
/// that is not cross-workspace.
pub proof fn law_what_passes_is_forwarded_untouched(g: GateModel, id: IdModel, method: Seq<char>, body: Seq<u8>, s: StateModel)
    requires
        g.client_decides || !cross_workspace(method),
    ensures
        request_decision(g, id, method, body, s) == DecisionModel::Forward(body),
        after_request(g, id, method, body, s) == g,
{
}

/// Each held request is answered once: every operation that answers held requests answers
/// exactly the ones it takes out of the queue (one answer each, in the queue's order, for the
/// request's own id or bytes) and leaves the others held as they were; a request joins the
/// queue only when the decision on it is to hold it.
pub proof fn law_each_held_request_is_answered_once(g: GateModel, s: StateModel, id: IdModel, method: Seq<char>, body: Seq<u8>, reason: DrainReason)
    ensures
        (request_decision(g, id, method, body, s) == DecisionModel::Held) == (after_request(g, id, method, body, s).held.len() == g.held.len() + 1),
        after_request(g, id, method, body, s).held.take(g.held.len() as int) == g.held,
        verdict_of(s) == Verdict::Hold ==> state_releases(g, s).len() == 0 && after_state(g, s) == g,
        verdict_of(s) != Verdict::Hold ==> state_releases(g, s).len() == g.held.len() && after_state(g, s).held.len() == 0
            && forall|i: int| 0 <= i < g.held.len() ==> (#[trigger] state_releases(g, s)[i] == ReleaseModel::Forward(g.held[i].body)
                || state_releases(g, s)[i] == ReleaseModel::Reject(error_body(g.held[i].id, REQUEST_FAILED, failed_text(s.message)))),
        cancel_response(g, id) is Some ==> (held_position(g.held, id) matches Some(k) && after_cancel(g, id).held == g.held.remove(k)),
        cancel_response(g, id) is None ==> after_cancel(g, id) == g,
        drain_responses(g, reason).len() == g.held.len() && after_drain(g).held.len() == 0,
        forall|i: int| 0 <= i < g.held.len() ==> #[trigger] drain_responses(g, reason)[i] == error_body(g.held[i].id, drain_code(reason), drain_text(reason)),
{
    let r = after_request(g, id, method, body, s);
    if request_decision(g, id, method, body, s) == DecisionModel::Held {
        assert(r.held.take(g.held.len() as int) =~= g.held);
    } else {
        assert(r == g);
        assert(g.held.take(g.held.len() as int) =~= g.held);
    }
}

} // verus!
