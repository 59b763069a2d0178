//! `ServerState` of the server state protocol: two independent axes, `health` and
//! `readiness`, and a `message` for humans that no machine decision reads. The wire format is
//! given by the `to_json` functions of this module.

use vstd::prelude::*;

use crate::json::{Json, JsonModel, JsonNumber, NumberModel, entry_models, get, member, text_of, as_text, is_null, lemma_object_model};
use crate::text::{str_eq, str_lt, text_lt};

verus! {

/// The request that asks for the state.
pub const SERVER_STATE_METHOD: &'static str = "experimental/serverState";

/// The notification of a state change.
pub const SERVER_STATE_CHANGED_METHOD: &'static str = "experimental/serverStateChanged";

/// Whether the server is functioning. There is no value for the server's death: the
/// disappearance of the process is conveyed by the end of the connection.
#[derive(Debug, Clone, Copy, PartialEq, Eq, Structural)]
pub enum Health {
    Okay,
    Warning,
    Error,
    /// Not observable, or not observed yet. Emitted only by observers.
    Unknown,
}

/// Whether requests can be answered completely.
#[derive(Debug, Clone, Copy, PartialEq, Eq, Structural)]
pub enum Readiness {
    Initializing,
    Indexing,
    Ready,
    /// Not observable. Emitted only by observers.
    Unknown,
}

/// The state of a server on both axes, with an optional human-readable message.
#[derive(Debug, Clone, PartialEq, Eq)]
pub struct ServerState {
    pub health: Health,
    pub readiness: Readiness,
    pub message: Option<String>,
}

/// The mathematical value of a [`ServerState`]: the message by its characters.
pub ghost struct StateModel {
    pub health: Health,
    pub readiness: Readiness,
    pub message: Option<Seq<char>>,
}

/// The characters of an optional string.
pub open spec fn opt_view(s: Option<String>) -> Option<Seq<char>> {
    match s {
        Some(m) => Some(m@),
        None => None,
    }
}

impl View for ServerState {
    type V = StateModel;

    open spec fn view(&self) -> StateModel {
        StateModel { health: self.health, readiness: self.readiness, message: opt_view(self.message) }
    }
}

/// The kind of scope `coverage` is computed over.
#[derive(Debug, Clone, Copy, PartialEq, Eq, Structural)]
pub enum CoverageScope {
    /// The index of the whole workspace.
    Workspace,
    /// Only the documents the client has open.
    OpenDocuments,
}

/// The names of LSP's `FileChangeType`.
#[derive(Debug, Clone, Copy, PartialEq, Eq, Structural)]
pub enum FileChangeType {
    Created,
    Changed,
    Deleted,
}

/// When `ready`, the scope the cross-workspace answers are computed over, and the methods
/// that cap their results at a count (method name and cap, one entry per method).
#[derive(Debug, Clone, PartialEq, Eq)]
pub struct Coverage {
    pub scope: CoverageScope,
    pub incomplete: Vec<(String, u64)>,
}

/// The kinds of `workspace/didChangeWatchedFiles` changes incorporated when `ready`.
#[derive(Debug, Clone, PartialEq, Eq)]
pub struct Freshness {
    pub file_changes: Vec<FileChangeType>,
}

/// The value of `ServerCapabilities.experimental.serverStateProvider`. `{}` promises only the
/// state notifications; `coverage` and `freshness` add what `ready` means for responses.
#[derive(Debug, Clone, PartialEq, Eq, Default)]
pub struct ServerStateProvider {
    pub coverage: Option<Coverage>,
    pub freshness: Option<Freshness>,
}

/// The mathematical value of a [`Coverage`].
pub ghost struct CoverageModel {
    pub scope: CoverageScope,
    pub incomplete: Seq<(Seq<char>, u64)>,
}

/// The mathematical value of a [`ServerStateProvider`].
pub ghost struct ProviderModel {
    pub coverage: Option<CoverageModel>,
    pub freshness: Option<Seq<FileChangeType>>,
}

/// The entries of a cap list by their characters.
pub open spec fn caps_view(caps: Seq<(String, u64)>) -> Seq<(Seq<char>, u64)> {
    Seq::new(caps.len(), |i: int| (caps[i].0@, caps[i].1))
}

impl View for ServerStateProvider {
    type V = ProviderModel;

    open spec fn view(&self) -> ProviderModel {
        ProviderModel {
            coverage: match self.coverage {
                Some(c) => Some(CoverageModel { scope: c.scope, incomplete: caps_view(c.incomplete@) }),
                None => None,
            },
            freshness: match self.freshness {
                Some(f) => Some(f.file_changes@),
                None => None,
            },
        }
    }
}

/// All three kinds of file change, in LSP's order.
pub const ALL_FILE_CHANGES: [FileChangeType; 3] = [FileChangeType::Created, FileChangeType::Changed, FileChangeType::Deleted];

/// The model of an optional state.
pub open spec fn opt_state(s: Option<ServerState>) -> Option<StateModel> {
    match s {
        Some(s) => Some(s@),
        None => None,
    }
}

/// All three kinds of file change (the ideal).
pub open spec fn all_file_changes() -> Seq<FileChangeType> {
    seq![FileChangeType::Created, FileChangeType::Changed, FileChangeType::Deleted]
}

/// The declaration that promises only the notifications.
pub open spec fn notifications_only_model() -> ProviderModel {
    ProviderModel { coverage: None, freshness: None }
}

/// The cap list made of `incomplete`, keeping one entry per method: a later entry for the
/// same method replaces the earlier value in place.
pub open spec fn caps_of(incomplete: Seq<(Seq<char>, u64)>) -> Seq<(Seq<char>, u64)>
    decreases incomplete.len(),
{
    if incomplete.len() == 0 {
        Seq::empty()
    } else {
        put_cap(caps_of(incomplete.drop_last()), incomplete.last().0, incomplete.last().1)
    }
}

/// `caps` with `method` capped at `limit`, kept sorted by method as a `BTreeMap` keeps its
/// keys: the entry for `method` replaced in place, or a new entry inserted before the first
/// method that sorts after it.
pub open spec fn put_cap(caps: Seq<(Seq<char>, u64)>, method: Seq<char>, limit: u64) -> Seq<(Seq<char>, u64)>
    decreases caps.len(),
{
    if caps.len() == 0 {
        seq![(method, limit)]
    } else if caps[0].0 == method {
        caps.update(0, (method, limit))
    } else if text_lt(method, caps[0].0) {
        seq![(method, limit)] + caps
    } else {
        seq![caps[0]] + put_cap(caps.drop_first(), method, limit)
    }
}

proof fn lemma_put_cap(caps: Seq<(Seq<char>, u64)>, method: Seq<char>, limit: u64, j: int)
    requires
        0 <= j <= caps.len(),
        forall|k: int| 0 <= k < j ==> caps[k].0 != method && !text_lt(method, #[trigger] caps[k].0),
        j < caps.len() ==> caps[j].0 == method || text_lt(method, caps[j].0),
    ensures
        put_cap(caps, method, limit) == if j < caps.len() && caps[j].0 == method {
            caps.update(j, (method, limit))
        } else {
            caps.take(j).push((method, limit)) + caps.skip(j)
        },
    decreases j,
{
    if caps.len() == 0 {
        assert(caps.take(j).push((method, limit)) + caps.skip(j) =~= seq![(method, limit)]);
    } else if j == 0 {
        if caps[0].0 != method {
            assert(caps.take(0).push((method, limit)) + caps.skip(0) =~= seq![(method, limit)] + caps);
        }
    } else {
        lemma_put_cap(caps.drop_first(), method, limit, j - 1);
        if j < caps.len() && caps[j].0 == method {
            assert(seq![caps[0]] + caps.drop_first().update(j - 1, (method, limit)) =~= caps.update(j, (method, limit)));
        } else {
            assert(seq![caps[0]] + (caps.drop_first().take(j - 1).push((method, limit)) + caps.drop_first().skip(j - 1)) =~= caps.take(j).push((method, limit)) + caps.skip(j));
        }
    }
}

/// The declaration of a workspace-wide `coverage` with the caps `incomplete` and a
/// `freshness` incorporating `file_changes`.
pub open spec fn workspace_model(incomplete: Seq<(Seq<char>, u64)>, file_changes: Seq<FileChangeType>) -> ProviderModel {
    ProviderModel {
        coverage: Some(CoverageModel { scope: CoverageScope::Workspace, incomplete: caps_of(incomplete) }),
        freshness: Some(file_changes),
    }
}

/// The characters of the method names of a list of caps.
pub open spec fn caps_arg_view(incomplete: Seq<(&str, u64)>) -> Seq<(Seq<char>, u64)> {
    Seq::new(incomplete.len(), |i: int| (incomplete[i].0@, incomplete[i].1))
}

impl ServerStateProvider {
    /// Promises only the state notifications (no guarantees).
    pub fn notifications_only() -> (r: Self)
        ensures
            r@ == notifications_only_model(),
    {
        ServerStateProvider { coverage: None, freshness: None }
    }

    /// `coverage` over the whole workspace (with the methods that cap their results, if any)
    /// and `freshness` incorporating the listed kinds of changes.
    pub fn workspace(incomplete: &[(&str, u64)], file_changes: &[FileChangeType]) -> (r: Self)
        ensures
            r@ == workspace_model(caps_arg_view(incomplete@), file_changes@),
    {
        ServerStateProvider {
            coverage: Some(Coverage { scope: CoverageScope::Workspace, incomplete: collect_caps(incomplete) }),
            freshness: Some(Freshness { file_changes: vstd::slice::slice_to_vec(file_changes) }),
        }
    }

    /// `coverage` over the whole workspace without `freshness`.
    pub fn coverage_only(incomplete: &[(&str, u64)]) -> (r: Self)
        ensures
            r@ == (ProviderModel {
                coverage: Some(CoverageModel { scope: CoverageScope::Workspace, incomplete: caps_of(caps_arg_view(incomplete@)) }),
                freshness: None,
            }),
    {
        ServerStateProvider {
            coverage: Some(Coverage { scope: CoverageScope::Workspace, incomplete: collect_caps(incomplete) }),
            freshness: None,
        }
    }

    /// `coverage` over the open documents only, without `freshness`.
    pub fn document_only(incomplete: &[(&str, u64)]) -> (r: Self)
        ensures
            r@ == (ProviderModel {
                coverage: Some(CoverageModel { scope: CoverageScope::OpenDocuments, incomplete: caps_of(caps_arg_view(incomplete@)) }),
                freshness: None,
            }),
    {
        ServerStateProvider {
            coverage: Some(Coverage { scope: CoverageScope::OpenDocuments, incomplete: collect_caps(incomplete) }),
            freshness: None,
        }
    }
}

/// The place of `method` in a sorted cap list: the first entry that is `method` or sorts
/// after it.
fn slot_of_cap(caps: &Vec<(String, u64)>, method: &str) -> (r: usize)
    ensures
        r <= caps@.len(),
        forall|k: int| 0 <= k < r ==> caps_view(caps@)[k].0 != method@ && !text_lt(method@, #[trigger] caps_view(caps@)[k].0),
        r < caps@.len() ==> caps_view(caps@)[r as int].0 == method@ || text_lt(method@, caps_view(caps@)[r as int].0),
{
    let mut j: usize = 0;
    while j < caps.len() && !str_eq(caps[j].0.as_str(), method) && !str_lt(method, caps[j].0.as_str())
        invariant
            j <= caps@.len(),
            forall|k: int| 0 <= k < j ==> caps_view(caps@)[k].0 != method@ && !text_lt(method@, #[trigger] caps_view(caps@)[k].0),
        decreases caps@.len() - j,
    {
        assert(caps_view(caps@)[j as int].0 == caps@[j as int].0@);
        j = j + 1;
    }
    assert(j < caps@.len() ==> caps_view(caps@)[j as int].0 == caps@[j as int].0@);
    j
}

/// The caps of `incomplete`, one entry per method (a later entry wins).
fn collect_caps(incomplete: &[(&str, u64)]) -> (r: Vec<(String, u64)>)
    ensures
        caps_view(r@) == caps_of(caps_arg_view(incomplete@)),
{
    let mut out: Vec<(String, u64)> = Vec::new();
    let mut i: usize = 0;
    while i < incomplete.len()
        invariant
            i <= incomplete@.len(),
            caps_view(out@) == caps_of(caps_arg_view(incomplete@).take(i as int)),
        decreases incomplete@.len() - i,
    {
        let (method, limit) = incomplete[i];
        let ghost before = caps_view(out@);
        let ghost vec_before = out@;
        let j = slot_of_cap(&out, method);
        let ghost taken = caps_arg_view(incomplete@).take(i + 1);
        assert(taken.drop_last() =~= caps_arg_view(incomplete@).take(i as int));
        assert(taken.last() == (method@, limit));
        proof {
            lemma_put_cap(before, method@, limit, j as int);
        }
        if j < out.len() && str_eq(out[j].0.as_str(), method) {
            let name = out[j].0.clone();
            out.set(j, (name, limit));
            assert(caps_view(out@) =~= put_cap(before, method@, limit));
        } else {
            out.insert(j, (method.to_owned(), limit));
            assert forall|k: int| 0 <= k < out@.len() implies #[trigger] caps_view(out@)[k] == (before.take(j as int).push((method@, limit)) + before.skip(j as int))[k] by {
                if k < j {
                    assert(out@[k] == vec_before[k]);
                } else if k > j {
                    assert(out@[k] == vec_before[k - 1]);
                }
            }
            assert(caps_view(out@) =~= put_cap(before, method@, limit));
        }
        i = i + 1;
    }
    assert(caps_arg_view(incomplete@).take(incomplete@.len() as int) =~= caps_arg_view(incomplete@));
    out
}

impl ServerState {
    /// The state right after `initialize`: nothing can be answered yet, and health has not
    /// been observed.
    pub fn initializing() -> (r: Self)
        ensures
            r@ == initializing_model(),
    {
        ServerState { health: Health::Unknown, readiness: Readiness::Initializing, message: None }
    }

    /// The state where neither axis can be observed.
    pub fn unobserved() -> (r: Self)
        ensures
            r@ == unobserved_model(),
    {
        ServerState { health: Health::Unknown, readiness: Readiness::Unknown, message: None }
    }

    /// Whether this is a change that requires a notification: `health` or `readiness`
    /// changed. A change of `message` alone is not one.
    pub fn notifiable_change_from(&self, previous: &ServerState) -> (r: bool)
        ensures
            r == notifiable(self@, previous@),
    {
        self.health != previous.health || self.readiness != previous.readiness
    }

    /// A copy of this state.
    pub fn copied(&self) -> (r: Self)
        ensures
            r@ == self@,
    {
        ServerState {
            health: self.health,
            readiness: self.readiness,
            message: match &self.message {
                Some(m) => Some(m.clone()),
                None => None,
            },
        }
    }

    /// Whether two states are equal (the message compared by its characters).
    pub fn same_as(&self, other: &ServerState) -> (r: bool)
        ensures
            r == (self@ == other@),
    {
        self.health == other.health && self.readiness == other.readiness && match (&self.message, &other.message) {
            (Some(a), Some(b)) => str_eq(a.as_str(), b.as_str()),
            (None, None) => true,
            _ => false,
        }
    }

    /// The state as JSON: `{"health":…,"readiness":…}` with `"message"` only when present.
    pub fn to_json(&self) -> (r: Json)
        ensures
            r@ == state_json(self@),
    {
        let mut entries: Vec<(String, Json)> = Vec::new();
        let h = Json::String(health_name(self.health).to_owned());
        let d = Json::String(readiness_name(self.readiness).to_owned());
        assert(h@ == JsonModel::String(health_text(self.health)));
        assert(d@ == JsonModel::String(readiness_text(self.readiness)));
        entries.push(("health".to_owned(), h));
        entries.push(("readiness".to_owned(), d));
        if let Some(m) = &self.message {
            let t = Json::String(m.clone());
            assert(t@ == JsonModel::String(m@));
            entries.push(("message".to_owned(), t));
        }
        let r = Json::Object(entries);
        proof {
            let want = state_json(self@)->Object_0;
            assert(r@->Object_0 =~= want);
        }
        r
    }

    /// Reads a state from JSON: an object with `health` and `readiness` among the protocol's
    /// strings, and `message` a string, `null`, or absent.
    pub fn from_json(j: &Json) -> (r: Option<Self>)
        ensures
            match r {
                Some(s) => state_of_json(j@) == Some(s@),
                None => state_of_json(j@) is None,
            },
    {
        let health = match get(j, "health") {
            Some(v) => match as_text(v) {
                Some(t) => health_from_name(t.as_str()),
                None => None,
            },
            None => None,
        };
        let readiness = match get(j, "readiness") {
            Some(v) => match as_text(v) {
                Some(t) => readiness_from_name(t.as_str()),
                None => None,
            },
            None => None,
        };
        let message: Option<Option<String>> = match get(j, "message") {
            None => Some(None),
            Some(v) => if is_null(v) {
                Some(None)
            } else {
                match as_text(v) {
                    Some(t) => Some(Some(t.clone())),
                    None => None,
                }
            },
        };
        match (health, readiness, message) {
            (Some(health), Some(readiness), Some(message)) => Some(ServerState { health, readiness, message }),
            _ => None,
        }
    }
}

/// The model of [`ServerState::initializing`].
pub open spec fn initializing_model() -> StateModel {
    StateModel { health: Health::Unknown, readiness: Readiness::Initializing, message: None }
}

/// The model of [`ServerState::unobserved`].
pub open spec fn unobserved_model() -> StateModel {
    StateModel { health: Health::Unknown, readiness: Readiness::Unknown, message: None }
}

/// Whether going from `previous` to `next` is a change to notify.
pub open spec fn notifiable(next: StateModel, previous: StateModel) -> bool {
    next.health != previous.health || next.readiness != previous.readiness
}

/// The wire name of a health value.
pub open spec fn health_text(h: Health) -> Seq<char> {
    match h {
        Health::Okay => "ok"@,
        Health::Warning => "warning"@,
        Health::Error => "error"@,
        Health::Unknown => "unknown"@,
    }
}

/// The wire name of a readiness value.
pub open spec fn readiness_text(r: Readiness) -> Seq<char> {
    match r {
        Readiness::Initializing => "initializing"@,
        Readiness::Indexing => "indexing"@,
        Readiness::Ready => "ready"@,
        Readiness::Unknown => "unknown"@,
    }
}

/// The wire name of a health value.
pub fn health_name(h: Health) -> (r: &'static str)
    ensures
        r@ == health_text(h),
{
    match h {
        Health::Okay => "ok",
        Health::Warning => "warning",
        Health::Error => "error",
        Health::Unknown => "unknown",
    }
}

/// The wire name of a readiness value.
pub fn readiness_name(r: Readiness) -> (s: &'static str)
    ensures
        s@ == readiness_text(r),
{
    match r {
        Readiness::Initializing => "initializing",
        Readiness::Indexing => "indexing",
        Readiness::Ready => "ready",
        Readiness::Unknown => "unknown",
    }
}

/// The health value whose wire name is `t`.
pub open spec fn health_named(t: Seq<char>) -> Option<Health> {
    if t == health_text(Health::Okay) {
        Some(Health::Okay)
    } else if t == health_text(Health::Warning) {
        Some(Health::Warning)
    } else if t == health_text(Health::Error) {
        Some(Health::Error)
    } else if t == health_text(Health::Unknown) {
        Some(Health::Unknown)
    } else {
        None
    }
}

/// The readiness value whose wire name is `t`.
pub open spec fn readiness_named(t: Seq<char>) -> Option<Readiness> {
    if t == readiness_text(Readiness::Initializing) {
        Some(Readiness::Initializing)
    } else if t == readiness_text(Readiness::Indexing) {
        Some(Readiness::Indexing)
    } else if t == readiness_text(Readiness::Ready) {
        Some(Readiness::Ready)
    } else if t == readiness_text(Readiness::Unknown) {
        Some(Readiness::Unknown)
    } else {
        None
    }
}

/// The health value whose wire name is `t` (`"dead"` is none).
pub fn health_from_name(t: &str) -> (r: Option<Health>)
    ensures
        r == health_named(t@),
{
    if str_eq(t, "ok") {
        Some(Health::Okay)
    } else if str_eq(t, "warning") {
        Some(Health::Warning)
    } else if str_eq(t, "error") {
        Some(Health::Error)
    } else if str_eq(t, "unknown") {
        Some(Health::Unknown)
    } else {
        None
    }
}

/// The readiness value whose wire name is `t`.
pub fn readiness_from_name(t: &str) -> (r: Option<Readiness>)
    ensures
        r == readiness_named(t@),
{
    if str_eq(t, "initializing") {
        Some(Readiness::Initializing)
    } else if str_eq(t, "indexing") {
        Some(Readiness::Indexing)
    } else if str_eq(t, "ready") {
        Some(Readiness::Ready)
    } else if str_eq(t, "unknown") {
        Some(Readiness::Unknown)
    } else {
        None
    }
}

/// The JSON of a state: `{"health":…,"readiness":…}`, with `"message"` last and only when
/// there is one.
pub open spec fn state_json(s: StateModel) -> JsonModel {
    let head = seq![
        ("health"@, JsonModel::String(health_text(s.health))),
        ("readiness"@, JsonModel::String(readiness_text(s.readiness))),
    ];
    JsonModel::Object(
        match s.message {
            Some(m) => head.push(("message"@, JsonModel::String(m))),
            None => head,
        },
    )
}

/// The state a JSON value describes, if it describes one.
pub open spec fn state_of_json(j: JsonModel) -> Option<StateModel> {
    let health = match member(j, "health"@) {
        Some(v) => match text_of(v) {
            Some(t) => health_named(t),
            None => None,
        },
        None => None,
    };
    let readiness = match member(j, "readiness"@) {
        Some(v) => match text_of(v) {
            Some(t) => readiness_named(t),
            None => None,
        },
        None => None,
    };
    let message: Option<Option<Seq<char>>> = match member(j, "message"@) {
        None => Some(None),
        Some(JsonModel::Null) => Some(None),
        Some(JsonModel::String(t)) => Some(Some(t)),
        Some(_) => None,
    };
    match (health, readiness, message) {
        (Some(h), Some(r), Some(m)) => Some(StateModel { health: h, readiness: r, message: m }),
        _ => None,
    }
}

/// The wire name of a coverage scope.
pub open spec fn scope_name(s: CoverageScope) -> Seq<char> {
    match s {
        CoverageScope::Workspace => "workspace"@,
        CoverageScope::OpenDocuments => "openDocuments"@,
    }
}

/// The wire name of a kind of file change.
pub open spec fn change_name(c: FileChangeType) -> Seq<char> {
    match c {
        FileChangeType::Created => "Created"@,
        FileChangeType::Changed => "Changed"@,
        FileChangeType::Deleted => "Deleted"@,
    }
}

/// The JSON of `coverage`: the scope and the capped methods with their caps.
pub open spec fn coverage_json(c: CoverageModel) -> JsonModel {
    JsonModel::Object(
        seq![
            ("scope"@, JsonModel::String(scope_name(c.scope))),
            ("incomplete"@, JsonModel::Object(Seq::new(c.incomplete.len(), |i: int| (c.incomplete[i].0, JsonModel::Number(NumberModel::PosInt(c.incomplete[i].1)))))),
        ],
    )
}

/// The JSON of `freshness`: the kinds of changes incorporated.
pub open spec fn freshness_json(f: Seq<FileChangeType>) -> JsonModel {
    JsonModel::Object(seq![("fileChanges"@, JsonModel::Array(Seq::new(f.len(), |i: int| JsonModel::String(change_name(f[i])))))])
}

/// The JSON of a declaration: `coverage` and `freshness`, each only when present.
pub open spec fn provider_json(p: ProviderModel) -> JsonModel {
    let cov: Seq<(Seq<char>, JsonModel)> = match p.coverage {
        Some(c) => seq![("coverage"@, coverage_json(c))],
        None => Seq::empty(),
    };
    let fresh: Seq<(Seq<char>, JsonModel)> = match p.freshness {
        Some(f) => seq![("freshness"@, freshness_json(f))],
        None => Seq::empty(),
    };
    JsonModel::Object(cov + fresh)
}

/// The wire name of a coverage scope.
fn scope_text(s: CoverageScope) -> (r: &'static str)
    ensures
        r@ == scope_name(s),
{
    match s {
        CoverageScope::Workspace => "workspace",
        CoverageScope::OpenDocuments => "openDocuments",
    }
}

/// The wire name of a kind of file change.
fn change_text(c: FileChangeType) -> (r: &'static str)
    ensures
        r@ == change_name(c),
{
    match c {
        FileChangeType::Created => "Created",
        FileChangeType::Changed => "Changed",
        FileChangeType::Deleted => "Deleted",
    }
}

impl Coverage {
    /// The JSON of `coverage`.
    pub fn to_json(&self) -> (r: Json)
        ensures
            r@ == coverage_json(CoverageModel { scope: self.scope, incomplete: caps_view(self.incomplete@) }),
    {
        let mut caps: Vec<(String, Json)> = Vec::new();
        let mut i: usize = 0;
        while i < self.incomplete.len()
            invariant
                i <= self.incomplete@.len(),
                caps@.len() == i,
                forall|k: int| 0 <= k < i ==> #[trigger] entry_models(caps@)[k] == (self.incomplete@[k].0@, JsonModel::Number(NumberModel::PosInt(self.incomplete@[k].1))),
            decreases self.incomplete@.len() - i,
        {
            let n = Json::Number(JsonNumber::PosInt(self.incomplete[i].1));
            assert(n@ == JsonModel::Number(NumberModel::PosInt(self.incomplete@[i as int].1)));
            let ghost before = caps@;
            caps.push((self.incomplete[i].0.clone(), n));
            assert forall|k: int| 0 <= k < i + 1 implies #[trigger] entry_models(caps@)[k] == (self.incomplete@[k].0@, JsonModel::Number(NumberModel::PosInt(self.incomplete@[k].1))) by {
                if k < i {
                    assert(caps@[k] == before[k]);
                    assert(entry_models(before)[k] == entry_models(caps@)[k]);
                }
            }
            i = i + 1;
        }
        let scope = Json::String(scope_text(self.scope).to_owned());
        assert(scope@ == JsonModel::String(scope_name(self.scope)));
        let inner = Json::Object(caps);
        proof {
            lemma_object_model(caps);
        }
        let ghost want = coverage_json(CoverageModel { scope: self.scope, incomplete: caps_view(self.incomplete@) });
        assert(entry_models(caps@) =~= want->Object_0[1].1->Object_0);
        assert(inner@ == want->Object_0[1].1);
        let mut entries: Vec<(String, Json)> = Vec::new();
        entries.push(("scope".to_owned(), scope));
        entries.push(("incomplete".to_owned(), inner));
        let r = Json::Object(entries);
        assert(r@->Object_0 =~= want->Object_0);
        r
    }
}

impl ServerStateProvider {
    /// The declaration as JSON.
    pub fn to_json(&self) -> (r: Json)
        ensures
            r@ == provider_json(self@),
    {
        let mut entries: Vec<(String, Json)> = Vec::new();
        let ghost want = provider_json(self@)->Object_0;
        if let Some(c) = &self.coverage {
            let cj = c.to_json();
            entries.push(("coverage".to_owned(), cj));
        }
        if let Some(f) = &self.freshness {
            let mut names: Vec<Json> = Vec::new();
            let mut i: usize = 0;
            while i < f.file_changes.len()
                invariant
                    i <= f.file_changes@.len(),
                    names@.len() == i,
                    forall|k: int| 0 <= k < i ==> (#[trigger] names@[k])@ == JsonModel::String(change_name(f.file_changes@[k])),
                decreases f.file_changes@.len() - i,
            {
                let n = Json::String(change_text(f.file_changes[i]).to_owned());
                assert(n@ == JsonModel::String(change_name(f.file_changes@[i as int])));
                names.push(n);
                i = i + 1;
            }
            let list = Json::Array(names);
            assert(list@->Array_0 =~= freshness_json(f.file_changes@)->Object_0[0].1->Array_0);
            let mut fe: Vec<(String, Json)> = Vec::new();
            fe.push(("fileChanges".to_owned(), list));
            let fj = Json::Object(fe);
            assert(fj@->Object_0 =~= freshness_json(f.file_changes@)->Object_0);
            entries.push(("freshness".to_owned(), fj));
        }
        let r = Json::Object(entries);
        assert(r@->Object_0 =~= want);
        r
    }
}

} // verus!
