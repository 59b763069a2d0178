//! The Nextflow language server mapping.
//!
//! The Nextflow language server returns no `serverInfo` and announces nothing; it is
//! recognized by its `InitializeResult`, whose commands are all `nextflow.server.*`. Its
//! startup is the work-done progress "Initializing"; after it, the server publishes
//! diagnostics for every script (`*.nf`) of the workspace folders that is not excluded by the
//! `nextflow.files.exclude` setting. Readiness is `initializing` until every such script has
//! been diagnosed, and `indexing` while a document the client opened, changed or closed under
//! a folder waits for its diagnostics.
//!
//! Which scripts the folders hold is read from the disk when the startup progress ends: the
//! mapping asks for that listing ([`NextflowAdapter::needs_scan`]) and takes it in
//! ([`NextflowAdapter::learn_scripts`]); until then it stays `initializing`.

use vstd::prelude::*;
use vstd::string::StringExecFns;

use crate::adapter::{params_of, read_params};
use crate::json::{Json, JsonModel, as_text, as_u64, get, get_opt_text, json_eq, json_parse, member, opt_text_field, parse_json, take_member, text_field, text_member, u64_of};
use crate::peek::{MessageView, ViewModel, is_notification_model};
use crate::state::{Readiness, ServerState, ServerStateProvider, StateModel, initializing_model, notifications_only_model, opt_state, opt_view};
use crate::text::{ends, ends_with, starts, starts_with, str_eq, str_in};
use crate::text_map::TextSet;
use crate::uri::{checked_path, uri_to_path};

verus! {

/// The name the Nextflow language server is known by.
pub const SERVER_NAME: &'static str = "nextflow-language-server";

/// How every command of the server begins.
pub const COMMAND_PREFIX: &'static str = "nextflow.server.";

/// The progress notification.
pub const PROGRESS_METHOD: &'static str = "$/progress";

/// The diagnostics notification.
pub const DIAGNOSTICS_METHOD: &'static str = "textDocument/publishDiagnostics";

/// The settings notification of the client.
pub const CONFIGURATION_METHOD: &'static str = "workspace/didChangeConfiguration";

/// The file change notification of the client.
pub const WATCHED_FILES_METHOD: &'static str = "workspace/didChangeWatchedFiles";

/// The title of the startup progress.
pub const INITIALIZING_TITLE: &'static str = "Initializing";

/// The suffix of a Nextflow script.
pub const SCRIPT_SUFFIX: &'static str = ".nf";

/// The document notifications that make the server diagnose the document again.
pub const DOCUMENT_METHODS: [&'static str; 3] = ["textDocument/didOpen", "textDocument/didChange", "textDocument/didClose"];

/// Whether an `InitializeResult`'s `result` lists commands, all of them `nextflow.server.*`.
pub open spec fn nextflow_result(result: JsonModel) -> bool {
    &&& member(result, "capabilities"@) matches Some(c)
    &&& member(c, "executeCommandProvider"@) matches Some(e)
    &&& member(e, "commands"@) matches Some(JsonModel::Array(items))
    &&& items.len() > 0
    &&& forall|i: int| 0 <= i < items.len() ==> (#[trigger] items[i] matches JsonModel::String(s) && starts(s, COMMAND_PREFIX@))
}

/// Whether an `InitializeResult`'s `result` is the Nextflow language server's.
#[verifier::loop_isolation(false)]
pub fn is_nextflow_initialize_result(result: &Json) -> (r: bool)
    ensures
        r == nextflow_result(result@),
{
    let c = match get(result, "capabilities") {
        Some(c) => c,
        None => return false,
    };
    let e = match get(c, "executeCommandProvider") {
        Some(e) => e,
        None => return false,
    };
    let list = match get(e, "commands") {
        Some(l) => l,
        None => return false,
    };
    let items = match list {
        Json::Array(items) => items,
        _ => return false,
    };
    let ghost arr = list@->Array_0;
    assert forall|k: int| 0 <= k < items@.len() implies arr[k] == #[trigger] items@[k]@ by {}
    if items.len() == 0 {
        return false;
    }
    let mut i: usize = 0;
    while i < items.len()
        invariant
            i <= items@.len(),
            forall|k: int| 0 <= k < i ==> (#[trigger] arr[k] matches JsonModel::String(s) && starts(s, COMMAND_PREFIX@)),
        decreases items@.len() - i,
    {
        assert(arr[i as int] == items@[i as int]@);
        let ok = match as_text(&items[i]) {
            Some(s) => starts_with(s.as_str(), COMMAND_PREFIX),
            None => false,
        };
        if !ok {
            return false;
        }
        i = i + 1;
    }
    true
}

/// Whether a path is excluded by one of `patterns`: it is the pattern, or ends with `/` and
/// the pattern.
pub open spec fn excluded(path: Seq<char>, patterns: Seq<Seq<char>>) -> bool {
    exists|i: int| 0 <= i < patterns.len() && (path == #[trigger] patterns[i] || ends(path, seq!['/'] + patterns[i]))
}

/// The texts of a list of strings.
pub open spec fn texts(v: Seq<String>) -> Seq<Seq<char>> {
    Seq::new(v.len(), |i: int| v[i]@)
}

/// A copy of a list of strings.
pub fn copy_texts(v: &[String]) -> (r: Vec<String>)
    ensures
        texts(r@) == texts(v@),
{
    let mut out: Vec<String> = Vec::new();
    let mut i: usize = 0;
    while i < v.len()
        invariant
            i <= v@.len(),
            out@.len() == i,
            texts(out@) == texts(v@).take(i as int),
        decreases v@.len() - i,
    {
        let c = v[i].clone();
        let ghost before = out@;
        out.push(c);
        assert forall|k: int| 0 <= k < i + 1 implies #[trigger] texts(out@)[k] == texts(v@).take(i + 1)[k] by {
            if k < i {
                assert(out@[k] == before[k]);
                assert(texts(before)[k] == texts(v@).take(i as int)[k]);
            }
        }
        assert(texts(out@) =~= texts(v@).take(i + 1));
        i = i + 1;
    }
    assert(texts(v@).take(v@.len() as int) =~= texts(v@));
    out
}

/// Whether a path is excluded by one of `patterns`.
pub fn is_excluded(path: &str, patterns: &Vec<String>) -> (r: bool)
    ensures
        r == excluded(path@, texts(patterns@)),
{
    let mut i: usize = 0;
    while i < patterns.len()
        invariant
            i <= patterns@.len(),
            forall|k: int| 0 <= k < i ==> !(path@ == #[trigger] texts(patterns@)[k] || ends(path@, seq!['/'] + texts(patterns@)[k])),
        decreases patterns@.len() - i,
    {
        let mut slashed = "/".to_owned();
        proof {
            reveal_strlit("/");
        }
        slashed.append(patterns[i].as_str());
        assert(slashed@ =~= seq!['/'] + patterns@[i as int]@);
        assert(texts(patterns@)[i as int] == patterns@[i as int]@);
        if str_eq(path, patterns[i].as_str()) || ends_with(path, slashed.as_str()) {
            return true;
        }
        i = i + 1;
    }
    false
}

/// Whether a path names a Nextflow script.
pub fn is_script(path: &str) -> (r: bool)
    ensures
        r == ends(path@, SCRIPT_SUFFIX@),
{
    ends_with(path, SCRIPT_SUFFIX)
}

/// Whether `path` lies under `folder`, component by component (a trailing `/` of the folder
/// does not count).
pub open spec fn under(path: Seq<char>, folder: Seq<char>) -> bool {
    let f = if folder.len() > 1 && folder.last() == '/' { folder.drop_last() } else { folder };
    path == f || starts(path, if f == seq!['/'] { f } else { f.push('/') })
}

/// Whether `path` lies under `folder`.
pub fn is_under(path: &str, folder: &str) -> (r: bool)
    ensures
        r == under(path@, folder@),
{
    let cs = crate::text::chars_of(folder);
    let f: String = if cs.len() > 1 && cs[cs.len() - 1] == '/' {
        let r = crate::text::string_of(vstd::slice::slice_subrange(cs.as_slice(), 0, cs.len() - 1));
        assert(cs@.subrange(0, cs@.len() - 1) =~= folder@.drop_last());
        r
    } else {
        folder.to_owned()
    };
    let root = str_eq(f.as_str(), "/");
    proof {
        reveal_strlit("/");
        assert("/"@ =~= seq!['/']);
    }
    let mut prefix = f.clone();
    if !root {
        crate::text::push_char(&mut prefix, '/');
    }
    str_eq(path, f.as_str()) || starts_with(path, prefix.as_str())
}

/// Reads one change of `workspace/didChangeWatchedFiles`.
fn read_change(c: &Json) -> (r: Option<(String, u64)>)
    ensures
        match r {
            Some((u, k)) => watched_change_of(c@) == Some((u@, k)),
            None => watched_change_of(c@) is None,
        },
{
    let u = match text_member(c, "uri") {
        Some(u) => u,
        None => return None,
    };
    let k = match get(c, "type") {
        Some(t) => match as_u64(t) {
            Some(k) => k,
            None => return None,
        },
        None => return None,
    };
    if k > 255 {
        return None;
    }
    Some((u.clone(), k))
}

/// The model of a [`NextflowAdapter`].
pub ghost struct NextflowModel {
    pub state: StateModel,
    pub folders: Seq<Seq<char>>,
    pub exclude: Seq<Seq<char>>,
    pub initializing: Option<JsonModel>,
    pub initialized: bool,
    pub scan_pending: bool,
    pub expected: Set<Seq<char>>,
    pub pending: Set<Seq<char>>,
}

/// The Nextflow mapping.
pub struct NextflowAdapter {
    state: ServerState,
    /// The workspace folders of the client's `initialize`.
    folders: Vec<String>,
    /// The `nextflow.files.exclude` patterns.
    exclude: Vec<String>,
    /// The token of the open startup progress.
    initializing: Option<Json>,
    /// The startup progress has ended.
    initialized: bool,
    /// The scripts of the folders have to be listed before anything else is known.
    scan_pending: bool,
    /// The scripts not yet diagnosed since the startup.
    expected: TextSet,
    /// The documents the client touched that wait for their diagnostics.
    pending: TextSet,
}

impl View for NextflowAdapter {
    type V = NextflowModel;

    closed spec fn view(&self) -> NextflowModel {
        NextflowModel {
            state: self.state@,
            folders: texts(self.folders@),
            exclude: texts(self.exclude@),
            initializing: match self.initializing {
                Some(t) => Some(t@),
                None => None,
            },
            initialized: self.initialized,
            scan_pending: self.scan_pending,
            expected: self.expected@,
            pending: self.pending@,
        }
    }
}

impl NextflowAdapter {
    /// The sets hold each path once.
    pub closed spec fn well_formed(&self) -> bool {
        self.expected.well_formed() && self.pending.well_formed()
    }
}

/// The readiness the observations mean.
pub open spec fn readiness_model(a: NextflowModel) -> Readiness {
    if a.initializing is Some || !a.initialized || a.scan_pending || a.expected.len() != 0 {
        Readiness::Initializing
    } else if a.pending.len() != 0 {
        Readiness::Indexing
    } else {
        Readiness::Ready
    }
}

/// Readiness recomputed; a state that does not move reports nothing.
pub open spec fn moved_model(a: NextflowModel) -> (NextflowModel, Option<StateModel>) {
    let r = readiness_model(a);
    if r == a.state.readiness {
        (a, None)
    } else {
        let s = StateModel { readiness: r, ..a.state };
        (NextflowModel { state: s, ..a }, Some(s))
    }
}

/// A progress's params read as `{token: any, value: {kind: string, title?: string}}`.
pub open spec fn progress_of(p: JsonModel) -> Option<(JsonModel, Seq<char>, Option<Seq<char>>)> {
    match (member(p, "token"@), member(p, "value"@)) {
        (Some(t), Some(v)) => match (text_field(v, "kind"@), opt_text_field(v, "title"@)) {
            (Some(k), Some(title)) => Some((t, k, title)),
            _ => None,
        },
        _ => None,
    }
}

/// What one progress does: the startup's `begin` opens it, its `end` closes it and asks for
/// the listing of the scripts.
pub open spec fn on_progress_model(a: NextflowModel, token: JsonModel, kind: Seq<char>, title: Option<Seq<char>>) -> (NextflowModel, Option<StateModel>) {
    if kind == "begin"@ && title == Some(INITIALIZING_TITLE@) {
        moved_model(NextflowModel { initializing: Some(token), ..a })
    } else if kind == "end"@ && a.initializing == Some(token) {
        moved_model(NextflowModel { initializing: None, initialized: true, scan_pending: true, ..a })
    } else {
        (a, None)
    }
}

/// What a script's diagnostics do: it is no longer expected nor pending.
pub open spec fn on_diagnostics_model(a: NextflowModel, uri: Seq<char>) -> (NextflowModel, Option<StateModel>) {
    if a.initializing is Some {
        (a, None)
    } else {
        match checked_path(uri) {
            Some(path) => moved_model(NextflowModel { expected: a.expected.remove(path), pending: a.pending.remove(path), ..a }),
            None => (a, None),
        }
    }
}

/// What the mapping makes of an upstream message.
pub open spec fn interpret_model(a: NextflowModel, v: ViewModel, body: Option<JsonModel>) -> (NextflowModel, Option<StateModel>) {
    if !is_notification_model(v) {
        (a, None)
    } else if v.method == Some(PROGRESS_METHOD@) {
        match params_of(v, PROGRESS_METHOD@, body) {
            Some(p) => match progress_of(p) {
                Some((t, k, title)) => on_progress_model(a, t, k, title),
                None => (a, None),
            },
            None => (a, None),
        }
    } else if v.method == Some(DIAGNOSTICS_METHOD@) {
        match params_of(v, DIAGNOSTICS_METHOD@, body) {
            Some(p) => match text_field(p, "uri"@) {
                Some(uri) => on_diagnostics_model(a, uri),
                None => (a, None),
            },
            None => (a, None),
        }
    } else {
        (a, None)
    }
}

/// The exclude patterns of `settings`, when it has a list of them: its strings.
pub open spec fn exclude_of(body: JsonModel) -> Option<Seq<JsonModel>> {
    match member(body, "params"@) {
        Some(p) => match member(p, "settings"@) {
            Some(s) => match member(s, "nextflow"@) {
                Some(n) => match member(n, "files"@) {
                    Some(f) => match member(f, "exclude"@) {
                        Some(JsonModel::Array(items)) => Some(items),
                        _ => None,
                    },
                    None => None,
                },
                None => None,
            },
            None => None,
        },
        None => None,
    }
}

/// The strings among `items`, in order.
pub open spec fn strings_of(items: Seq<JsonModel>) -> Seq<Seq<char>>
    decreases items.len(),
{
    if items.len() == 0 {
        Seq::empty()
    } else {
        let rest = strings_of(items.drop_last());
        match items.last() {
            JsonModel::String(s) => rest.push(s),
            _ => rest,
        }
    }
}

/// One change of `workspace/didChangeWatchedFiles` read as `{uri: string, type: u8}`.
pub open spec fn watched_change_of(c: JsonModel) -> Option<(Seq<char>, u64)> {
    match (text_field(c, "uri"@), member(c, "type"@)) {
        (Some(u), Some(t)) => match u64_of(t) {
            Some(k) => if k <= 255 {
                Some((u, k))
            } else {
                None
            },
            None => None,
        },
        _ => None,
    }
}

/// The path a change deletes, if it is a deletion (type 3) of a readable `file:` URI.
pub open spec fn deleted_path(c: JsonModel) -> Option<Seq<char>> {
    match watched_change_of(c) {
        Some((u, k)) => if k == 3 {
            checked_path(u)
        } else {
            None
        },
        None => None,
    }
}

/// The paths deleted by a list of changes.
pub open spec fn deleted_paths(items: Seq<JsonModel>) -> Set<Seq<char>> {
    Set::new(|p: Seq<char>| exists|i: int| 0 <= i < items.len() && #[trigger] deleted_path(items[i]) == Some(p))
}

/// What the mapping makes of a client message: the exclude setting, a touched document under
/// a folder (pending), and deleted scripts (no longer waited for).
pub open spec fn observe_client_model(a: NextflowModel, v: ViewModel, body: Option<JsonModel>) -> (NextflowModel, Option<StateModel>) {
    if !is_notification_model(v) {
        (a, None)
    } else if v.method == Some(CONFIGURATION_METHOD@) {
        match body {
            Some(j) => match exclude_of(j) {
                Some(items) => (NextflowModel { exclude: strings_of(items), ..a }, None),
                None => (a, None),
            },
            None => (a, None),
        }
    } else if v.method matches Some(m) && (exists|i: int| 0 <= i < 3 && DOCUMENT_METHODS@[i]@ == m) {
        match params_of(v, v.method->0, body) {
            Some(p) => match member(p, "textDocument"@) {
                Some(d) => match text_field(d, "uri"@) {
                    Some(uri) => match checked_path(uri) {
                        Some(path) => if exists|i: int| 0 <= i < a.folders.len() && under(path, #[trigger] a.folders[i]) {
                            moved_model(NextflowModel { pending: a.pending.insert(path), ..a })
                        } else {
                            (a, None)
                        },
                        None => (a, None),
                    },
                    None => (a, None),
                },
                None => (a, None),
            },
            None => (a, None),
        }
    } else if v.method == Some(WATCHED_FILES_METHOD@) {
        match params_of(v, WATCHED_FILES_METHOD@, body) {
            Some(p) => match member(p, "changes"@) {
                Some(JsonModel::Array(items)) => if forall|i: int| 0 <= i < items.len() ==> (#[trigger] watched_change_of(items[i])) is Some {
                    let gone = deleted_paths(items);
                    moved_model(NextflowModel { expected: a.expected.difference(gone), pending: a.pending.difference(gone), ..a })
                } else {
                    (a, None)
                },
                _ => (a, None),
            },
            None => (a, None),
        }
    } else {
        (a, None)
    }
}

impl NextflowAdapter {
    /// A mapping at the start.
    pub fn new() -> (r: Self)
        ensures
            r.well_formed(),
            r@ == (NextflowModel {
                state: initializing_model(),
                folders: Seq::empty(),
                exclude: Seq::empty(),
                initializing: None,
                initialized: false,
                scan_pending: false,
                expected: Set::empty(),
                pending: Set::empty(),
            }),
    {
        let r = NextflowAdapter {
            state: ServerState::initializing(),
            folders: Vec::new(),
            exclude: Vec::new(),
            initializing: None,
            initialized: false,
            scan_pending: false,
            expected: TextSet::new(),
            pending: TextSet::new(),
        };
        assert(texts(r.folders@) =~= Seq::<Seq<char>>::empty());
        assert(texts(r.exclude@) =~= Seq::<Seq<char>>::empty());
        r
    }

    /// The state right after connecting.
    /// The state the mapping has read so far.
    pub fn state(&self) -> (r: ServerState)
        ensures
            r@ == self@.state,
    {
        self.state.copied()
    }

    pub fn initial_state(&self) -> (r: ServerState)
        ensures
            r@ == initializing_model(),
    {
        ServerState::initializing()
    }

    /// No guarantee: the version is not observable.
    pub fn guarantees(&self) -> (r: ServerStateProvider)
        ensures
            r@ == notifications_only_model(),
    {
        ServerStateProvider::notifications_only()
    }

    /// Takes the workspace folders of the client's `initialize`.
    pub fn learn_workspace_folders(&mut self, folders: &[String])
        requires
            old(self).well_formed(),
        ensures
            final(self).well_formed(),
            final(self)@ == (NextflowModel { folders: texts(folders@), ..old(self)@ }),
    {
        self.folders = copy_texts(folders);
    }

    /// Whether the listing of the scripts of the folders is awaited.
    pub fn needs_scan(&self) -> (r: bool)
        ensures
            r == self@.scan_pending,
    {
        self.scan_pending
    }

    /// The workspace folders whose scripts are to be listed.
    pub fn folders(&self) -> (r: &Vec<String>)
        ensures
            texts(r@) == self@.folders,
    {
        &self.folders
    }

    /// The exclude patterns the listing skips.
    pub fn exclude(&self) -> (r: &Vec<String>)
        ensures
            texts(r@) == self@.exclude,
    {
        &self.exclude
    }

    fn readiness(&self) -> (r: Readiness)
        requires
            self.well_formed(),
        ensures
            r == readiness_model(self@),
    {
        if self.initializing.is_some() || !self.initialized || self.scan_pending || !self.expected.is_empty() {
            Readiness::Initializing
        } else if !self.pending.is_empty() {
            Readiness::Indexing
        } else {
            Readiness::Ready
        }
    }

    fn moved(&mut self) -> (r: Option<ServerState>)
        requires
            old(self).well_formed(),
        ensures
            final(self).well_formed(),
            (final(self)@, opt_state(r)) == moved_model(old(self)@),
    {
        let readiness = self.readiness();
        if readiness == self.state.readiness {
            return None;
        }
        self.state.readiness = readiness;
        Some(self.state.copied())
    }

    /// Takes in the scripts found on the disk under the folders (not excluded): each of them
    /// is expected to be diagnosed.
    pub fn learn_scripts(&mut self, scripts: &[String]) -> (r: Option<ServerState>)
        requires
            old(self).well_formed(),
        ensures
            final(self).well_formed(),
            (final(self)@, opt_state(r)) == moved_model(NextflowModel { scan_pending: false, expected: texts(scripts@).to_set(), ..old(self)@ }),
    {
        let mut expected = TextSet::new();
        let mut i: usize = 0;
        while i < scripts.len()
            invariant
                i <= scripts@.len(),
                expected.well_formed(),
                expected@ == texts(scripts@).take(i as int).to_set(),
            decreases scripts@.len() - i,
        {
            expected.insert(scripts[i].clone());
            assert(texts(scripts@).take(i + 1) =~= texts(scripts@).take(i as int).push(scripts@[i as int]@));
            proof {
                let t = texts(scripts@).take(i as int);
                assert(t.push(scripts@[i as int]@).to_set() =~= t.to_set().insert(scripts@[i as int]@)) by {
                    assert forall|x: Seq<char>| t.push(scripts@[i as int]@).contains(x) == t.to_set().insert(scripts@[i as int]@).contains(x) by {
                        if t.push(scripts@[i as int]@).contains(x) && x != scripts@[i as int]@ {
                            let j = choose|j: int| 0 <= j < t.len() + 1 && t.push(scripts@[i as int]@)[j] == x;
                            assert(t[j] == x);
                        }
                        if t.contains(x) {
                            let j = choose|j: int| 0 <= j < t.len() && t[j] == x;
                            assert(t.push(scripts@[i as int]@)[j] == x);
                        }
                        if x == scripts@[i as int]@ {
                            assert(t.push(scripts@[i as int]@)[t.len() as int] == x);
                        }
                    }
                }
            }
            i = i + 1;
        }
        assert(texts(scripts@).take(scripts@.len() as int) =~= texts(scripts@));
        self.expected = expected;
        self.scan_pending = false;
        self.moved()
    }

    /// Observes the client's settings, document notifications and file changes.
    #[verifier::loop_isolation(false)]
    pub fn observe_client(&mut self, view: &MessageView, body: &[u8]) -> (r: Option<ServerState>)
        requires
            old(self).well_formed(),
        ensures
            final(self).well_formed(),
            (final(self)@, opt_state(r)) == observe_client_model(old(self)@, view@, json_parse(body@)),
    {
        if !view.is_notification() {
            return None;
        }
        let method = match view.method() {
            Some(m) => m,
            None => return None,
        };
        let documents = DOCUMENT_METHODS;
        if str_eq(method, CONFIGURATION_METHOD) {
            let j = match parse_json(body) {
                Some(j) => j,
                None => return None,
            };
            let list = match get(&j, "params") {
                Some(p) => match get(p, "settings") {
                    Some(s) => match get(s, "nextflow") {
                        Some(n) => match get(n, "files") {
                            Some(f) => match get(f, "exclude") {
                                Some(l) => l,
                                None => return None,
                            },
                            None => return None,
                        },
                        None => return None,
                    },
                    None => return None,
                },
                None => return None,
            };
            let items = match list {
                Json::Array(items) => items,
                _ => return None,
            };
            let ghost arr = list@->Array_0;
            assert forall|k: int| 0 <= k < items@.len() implies arr[k] == #[trigger] items@[k]@ by {}
            let mut patterns: Vec<String> = Vec::new();
            let mut i: usize = 0;
            while i < items.len()
                invariant
                    i <= items@.len(),
                    texts(patterns@) == strings_of(arr.take(i as int)),
                decreases items@.len() - i,
            {
                assert(arr.take(i + 1).drop_last() =~= arr.take(i as int));
                assert(arr.take(i + 1).last() == items@[i as int]@);
                if let Some(t) = as_text(&items[i]) {
                    let ghost before = patterns@;
                    patterns.push(t.clone());
                    assert(texts(patterns@) =~= texts(before).push(t@));
                }
                i = i + 1;
            }
            assert(arr.take(items@.len() as int) =~= arr);
            self.exclude = patterns;
            None
        } else if str_in(method, &documents) {
            let p = match read_params(view, method, body) {
                Some(p) => p,
                None => return None,
            };
            let uri = match get(&p, "textDocument") {
                Some(d) => match text_member(d, "uri") {
                    Some(u) => u,
                    None => return None,
                },
                None => return None,
            };
            let path = match uri_to_path(uri.as_str()) {
                Some(path) => path,
                None => return None,
            };
            let mut inside = false;
            let mut i: usize = 0;
            while i < self.folders.len()
                invariant
                    i <= self.folders@.len(),
                    inside == exists|k: int| 0 <= k < i && under(path@, #[trigger] texts(self.folders@)[k]),
                decreases self.folders@.len() - i,
            {
                assert(texts(self.folders@)[i as int] == self.folders@[i as int]@);
                if is_under(path.as_str(), self.folders[i].as_str()) {
                    inside = true;
                }
                i = i + 1;
            }
            if !inside {
                return None;
            }
            self.pending.insert(path);
            self.moved()
        } else if str_eq(method, WATCHED_FILES_METHOD) {
            let p = match read_params(view, WATCHED_FILES_METHOD, body) {
                Some(p) => p,
                None => return None,
            };
            let list = match get(&p, "changes") {
                Some(l) => l,
                None => return None,
            };
            let items = match list {
                Json::Array(items) => items,
                _ => return None,
            };
            let ghost arr = list@->Array_0;
            assert forall|k: int| 0 <= k < items@.len() implies arr[k] == #[trigger] items@[k]@ by {}
            let mut i: usize = 0;
            while i < items.len()
                invariant
                    i <= items@.len(),
                    forall|k: int| 0 <= k < i ==> (#[trigger] watched_change_of(arr[k])) is Some,
                decreases items@.len() - i,
            {
                assert(arr[i as int] == items@[i as int]@);
                if read_change(&items[i]).is_none() {
                    return None;
                }
                i = i + 1;
            }
            let ghost start = self@;
            let mut j: usize = 0;
            assert(deleted_paths(arr.take(0)) =~= Set::<Seq<char>>::empty());
            assert(start.expected.difference(deleted_paths(arr.take(0))) =~= start.expected);
            assert(start.pending.difference(deleted_paths(arr.take(0))) =~= start.pending);
            while j < items.len()
                invariant
                    j <= items@.len(),
                    self.well_formed(),
                    self@ == (NextflowModel {
                        expected: start.expected.difference(deleted_paths(arr.take(j as int))),
                        pending: start.pending.difference(deleted_paths(arr.take(j as int))),
                        ..start
                    }),
                decreases items@.len() - j,
            {
                assert(arr[j as int] == items@[j as int]@);
                let gone = match read_change(&items[j]) {
                    Some((u, k)) => if k == 3 {
                        uri_to_path(u.as_str())
                    } else {
                        None
                    },
                    None => None,
                };
                proof {
                    assert forall|x: Seq<char>| #[trigger] deleted_paths(arr.take(j + 1)).contains(x) == (deleted_paths(arr.take(j as int)).contains(x) || deleted_path(arr[j as int]) == Some(x)) by {
                        if deleted_paths(arr.take(j + 1)).contains(x) {
                            let w = choose|w: int| 0 <= w < j + 1 && #[trigger] deleted_path(arr.take(j + 1)[w]) == Some(x);
                            if w < j {
                                assert(arr.take(j as int)[w] == arr.take(j + 1)[w]);
                            }
                        }
                        if deleted_paths(arr.take(j as int)).contains(x) {
                            let w = choose|w: int| 0 <= w < j && #[trigger] deleted_path(arr.take(j as int)[w]) == Some(x);
                            assert(arr.take(j + 1)[w] == arr.take(j as int)[w]);
                        }
                        if deleted_path(arr[j as int]) == Some(x) {
                            assert(arr.take(j + 1)[j as int] == arr[j as int]);
                        }
                    }
                }
                match gone {
                    Some(path) => {
                        self.expected.remove(path.as_str());
                        self.pending.remove(path.as_str());
                        assert(deleted_paths(arr.take(j + 1)) =~= deleted_paths(arr.take(j as int)).insert(path@));
                        assert(self@.expected =~= start.expected.difference(deleted_paths(arr.take(j + 1))));
                        assert(self@.pending =~= start.pending.difference(deleted_paths(arr.take(j + 1))));
                    },
                    None => {
                        assert(deleted_paths(arr.take(j + 1)) =~= deleted_paths(arr.take(j as int)));
                    },
                }
                j = j + 1;
            }
            assert(arr.take(items@.len() as int) =~= arr);
            self.moved()
        } else {
            None
        }
    }

    fn on_progress(&mut self, token: Json, kind: &str, title: Option<String>) -> (r: Option<ServerState>)
        requires
            old(self).well_formed(),
        ensures
            final(self).well_formed(),
            (final(self)@, opt_state(r)) == on_progress_model(old(self)@, token@, kind@, opt_view(title)),
    {
        let starting = match &title {
            Some(t) => str_eq(t.as_str(), INITIALIZING_TITLE),
            None => false,
        };
        let ending = match &self.initializing {
            Some(t) => json_eq(t, &token),
            None => false,
        };
        if str_eq(kind, "begin") && starting {
            self.initializing = Some(token);
        } else if str_eq(kind, "end") && ending {
            self.initializing = None;
            self.initialized = true;
            self.scan_pending = true;
        } else {
            return None;
        }
        self.moved()
    }

    /// Reads the startup progress and the diagnostics.
    pub fn interpret(&mut self, view: &MessageView, body: &[u8]) -> (r: Option<ServerState>)
        requires
            old(self).well_formed(),
        ensures
            final(self).well_formed(),
            (final(self)@, opt_state(r)) == interpret_model(old(self)@, view@, json_parse(body@)),
    {
        if !view.is_notification() {
            return None;
        }
        let method = match view.method() {
            Some(m) => m,
            None => return None,
        };
        if str_eq(method, PROGRESS_METHOD) {
            let p = match read_params(view, PROGRESS_METHOD, body) {
                Some(p) => p,
                None => return None,
            };
            let ghost pm = p@;
            let (kind, title) = match get(&p, "value") {
                Some(v) => match (text_member(v, "kind"), get_opt_text(v, "title")) {
                    (Some(k), Some(t)) => (k.clone(), t),
                    _ => return None,
                },
                None => return None,
            };
            let token = match take_member(p, "token") {
                Some(t) => t,
                None => return None,
            };
            assert(progress_of(pm) == Some((token@, kind@, opt_view(title))));
            self.on_progress(token, kind.as_str(), title)
        } else if str_eq(method, DIAGNOSTICS_METHOD) {
            let p = match read_params(view, DIAGNOSTICS_METHOD, body) {
                Some(p) => p,
                None => return None,
            };
            let uri = match text_member(&p, "uri") {
                Some(u) => u,
                None => return None,
            };
            if self.initializing.is_some() {
                return None;
            }
            let path = match uri_to_path(uri.as_str()) {
                Some(path) => path,
                None => return None,
            };
            self.expected.remove(path.as_str());
            self.pending.remove(path.as_str());
            self.moved()
        } else {
            None
        }
    }
}

} // verus!
