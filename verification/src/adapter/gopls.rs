//! The gopls mapping.
//!
//! gopls loads the workspace under the work-done progress "Setting up workspace"; readiness
//! is `indexing` while one is open and `ready` when the last one ends. A load that ends with
//! "Error loading packages…" leaves health at `error` with that message; an "Error loading
//! workspace" progress is an error for as long as it stays open.

use vstd::prelude::*;

use crate::adapter::{lemma_token_position, params_of, read_params, token_models, token_position};
use crate::json::{Json, JsonModel, get, get_opt_text, json_eq, json_parse, json_parse_text, member, opt_text_field, parse_json_text, take_member, text_field, text_member};
use crate::peek::{MessageView, ViewModel};
use crate::state::{ALL_FILE_CHANGES, Health, Readiness, ServerState, ServerStateProvider, StateModel, ProviderModel, all_file_changes, initializing_model, notifications_only_model, opt_state, opt_view, workspace_model};
use crate::text::{all_digits, is_all_digits, split_first, split_once, starts, starts_with, str_eq, strip_prefix, trim, trim_str};

verus! {

/// The progress notification.
pub const PROGRESS_METHOD: &'static str = "$/progress";

/// The title of the workspace load.
pub const WORKSPACE_SETUP_TITLE: &'static str = "Setting up workspace";

/// The title of a workspace load failure.
pub const WORKSPACE_LOAD_FAILURE_TITLE: &'static str = "Error loading workspace";

/// How the end message of a failed load begins.
pub const FAILED_LOAD_PREFIX: &'static str = "Error loading packages";

/// Versions the conformance tests passed on.
pub const TESTED_VERSIONS: [&'static str; 1] = ["0.23.0"];

/// Whether `s` is `X.Y.Z` with three non-empty runs of ASCII digits.
pub open spec fn semver3(s: Seq<char>) -> bool {
    match split_first(s, "."@) {
        Some((a, rest)) => match split_first(rest, "."@) {
            Some((b, c)) => a.len() > 0 && all_digits(a) && b.len() > 0 && all_digits(b) && c.len() > 0 && all_digits(c),
            None => false,
        },
        None => false,
    }
}

/// The `X.Y.Z` a gopls version announcement names. gopls announces either the bare version
/// or a JSON object with a `Version` member (`serverInfo.version`); a leading `v` is dropped.
pub open spec fn gopls_version_model(version: Seq<char>, parsed: Option<JsonModel>) -> Option<Seq<char>> {
    let raw = match parsed {
        Some(JsonModel::Object(_)) => text_field(parsed->0, "Version"@),
        _ => Some(version),
    };
    match raw {
        Some(r) => {
            let t = trim(r);
            let s = if starts(t, "v"@) { t.skip(1) } else { t };
            if semver3(s) {
                Some(s)
            } else {
                None
            }
        },
        None => None,
    }
}

/// The `X.Y.Z` a gopls version announcement names.
pub fn gopls_version(version: &str) -> (r: Option<String>)
    ensures
        match r {
            Some(v) => gopls_version_model(version@, json_parse_text(version@)) == Some(v@),
            None => gopls_version_model(version@, json_parse_text(version@)) is None,
        },
{
    let parsed = parse_json_text(version);
    let raw: String = match &parsed {
        Some(Json::Object(_)) => match text_member(parsed.as_ref().unwrap(), "Version") {
            Some(v) => v.clone(),
            None => return None,
        },
        _ => version.to_owned(),
    };
    let t = trim_str(raw.as_str());
    let s = match strip_prefix(t.as_str(), "v") {
        Some(rest) => rest,
        None => t,
    };
    proof {
        reveal_strlit("v");
    }
    let (a, rest) = match split_once(s.as_str(), ".") {
        Some(x) => x,
        None => return None,
    };
    let (b, c) = match split_once(rest.as_str(), ".") {
        Some(x) => x,
        None => return None,
    };
    if !a.as_str().is_empty() && is_all_digits(a.as_str()) && !b.as_str().is_empty() && is_all_digits(b.as_str()) && !c.as_str().is_empty()
        && is_all_digits(c.as_str()) {
        Some(s)
    } else {
        None
    }
}

/// The model of a [`GoplsAdapter`].
pub ghost struct GoplsModel {
    pub version_is_tested: bool,
    pub state: StateModel,
    pub loading: Seq<JsonModel>,
    pub failed_in_round: Option<Seq<char>>,
    pub failure: Option<JsonModel>,
}

/// The gopls mapping.
pub struct GoplsAdapter {
    version_is_tested: bool,
    state: ServerState,
    /// The workspace loads open, by their tokens.
    loading: Vec<Json>,
    /// The failure message of a load that ended in the current round.
    failed_in_round: Option<String>,
    /// The token of an open "Error loading workspace" progress.
    failure: Option<Json>,
}

impl View for GoplsAdapter {
    type V = GoplsModel;

    closed spec fn view(&self) -> GoplsModel {
        GoplsModel {
            version_is_tested: self.version_is_tested,
            state: self.state@,
            loading: token_models(self.loading@),
            failed_in_round: opt_view(self.failed_in_round),
            failure: match self.failure {
                Some(t) => Some(t@),
                None => None,
            },
        }
    }
}

/// A progress's params read as `{token: any, value: {kind: string, title?: string, message?:
/// string}}`.
pub open spec fn progress_of(p: JsonModel) -> Option<(JsonModel, Seq<char>, Option<Seq<char>>, Option<Seq<char>>)> {
    match (member(p, "token"@), member(p, "value"@)) {
        (Some(t), Some(v)) => match (text_field(v, "kind"@), opt_text_field(v, "title"@), opt_text_field(v, "message"@)) {
            (Some(k), Some(title), Some(message)) => Some((t, k, title, message)),
            _ => None,
        },
        _ => None,
    }
}

/// What one progress does to the mapping.
pub open spec fn on_progress_model(
    a: GoplsModel,
    token: JsonModel,
    kind: Seq<char>,
    title: Option<Seq<char>>,
    message: Option<Seq<char>>,
) -> (GoplsModel, Option<StateModel>) {
    if kind == "begin"@ {
        if title == Some(WORKSPACE_SETUP_TITLE@) {
            let s = StateModel { readiness: Readiness::Indexing, ..a.state };
            let failed_in_round = if a.loading.len() == 0 { None } else { a.failed_in_round };
            (GoplsModel { state: s, loading: a.loading.push(token), failed_in_round, ..a }, Some(s))
        } else if title == Some(WORKSPACE_LOAD_FAILURE_TITLE@) {
            let s = StateModel { health: Health::Error, message, ..a.state };
            (GoplsModel { state: s, failure: Some(token), ..a }, Some(s))
        } else {
            (a, None)
        }
    } else if kind == "report"@ {
        if a.failure != Some(token) {
            (a, None)
        } else {
            let s = if message is Some { StateModel { message, ..a.state } } else { a.state };
            (GoplsModel { state: s, ..a }, Some(s))
        }
    } else if kind == "end"@ && a.failure == Some(token) {
        let s = StateModel { health: Health::Okay, message: None, ..a.state };
        (GoplsModel { state: s, failure: None, ..a }, Some(s))
    } else if kind == "end"@ {
        match token_position(a.loading, token) {
            Some(k) => {
                let loading = a.loading.remove(k);
                let failed = message matches Some(m) && starts(m, FAILED_LOAD_PREFIX@);
                let failed_in_round = if failed { message } else { a.failed_in_round };
                let s = if loading.len() == 0 {
                    let ready = StateModel { readiness: Readiness::Ready, ..a.state };
                    match failed_in_round {
                        Some(m) => StateModel { health: Health::Error, message: Some(m), ..ready },
                        None => if a.failure is None {
                            StateModel { health: Health::Okay, message: None, ..ready }
                        } else {
                            ready
                        },
                    }
                } else {
                    a.state
                };
                (GoplsModel { state: s, loading, failed_in_round, ..a }, Some(s))
            },
            None => (a, None),
        }
    } else {
        (a, None)
    }
}

/// What the mapping makes of an upstream message.
pub open spec fn interpret_model(a: GoplsModel, v: ViewModel, body: Option<JsonModel>) -> (GoplsModel, Option<StateModel>) {
    let progress = match params_of(v, PROGRESS_METHOD@, body) {
        Some(p) => progress_of(p),
        None => None,
    };
    match progress {
        Some((t, k, title, message)) => on_progress_model(a, t, k, title, message),
        None => (a, None),
    }
}

/// The guarantees of a mapping: workspace coverage with `workspace/symbol` capped at 100,
/// and freshness for every kind of change, for a tested version.
pub open spec fn guarantees_model(a: GoplsModel) -> ProviderModel {
    if a.version_is_tested {
        workspace_model(seq![("workspace/symbol"@, 100u64)], all_file_changes())
    } else {
        notifications_only_model()
    }
}

/// Whether a version announcement names a tested version.
pub open spec fn version_tested(version: Option<Seq<char>>) -> bool {
    version matches Some(v) && (gopls_version_model(v, json_parse_text(v)) matches Some(x) && x == TESTED_VERSIONS@[0]@)
}

impl GoplsAdapter {
    /// A gopls that does not announce a version. Declares no guarantee.
    pub fn new() -> (r: Self)
        ensures
            r@ == (GoplsModel { version_is_tested: false, state: initializing_model(), loading: Seq::empty(), failed_in_round: None, failure: None }),
    {
        Self::for_version(None)
    }

    /// The mapping for the announced `version`.
    pub fn for_version(version: Option<&str>) -> (r: Self)
        ensures
            r@ == (GoplsModel {
                version_is_tested: version_tested(match version { Some(v) => Some(v@), None => None }),
                state: initializing_model(),
                loading: Seq::empty(),
                failed_in_round: None,
                failure: None,
            }),
    {
        let version_is_tested = match version {
            Some(v) => match gopls_version(v) {
                Some(x) => {
                    let t = TESTED_VERSIONS;
                    str_eq(x.as_str(), t[0])
                },
                None => false,
            },
            None => false,
        };
        let r = GoplsAdapter {
            version_is_tested,
            state: ServerState::initializing(),
            loading: Vec::new(),
            failed_in_round: None,
            failure: None,
        };
        assert(r@.loading =~= Seq::<JsonModel>::empty());
        r
    }

    /// The state right after connecting.
    pub fn initial_state(&self) -> (r: ServerState)
        ensures
            r@ == initializing_model(),
    {
        ServerState::initializing()
    }

    /// The guarantee to declare.
    pub fn guarantees(&self) -> (r: ServerStateProvider)
        ensures
            r@ == guarantees_model(self@),
    {
        if self.version_is_tested {
            let caps = [("workspace/symbol", 100u64)];
            let changes = ALL_FILE_CHANGES;
            let r = ServerStateProvider::workspace(&caps, &changes);
            proof {
                reveal_strlit("workspace/symbol");
                assert(crate::state::caps_arg_view(caps@) =~= seq![("workspace/symbol"@, 100u64)]);
                assert(changes@ =~= all_file_changes());
            }
            r
        } else {
            ServerStateProvider::notifications_only()
        }
    }

    fn position(&self, token: &Json) -> (r: Option<usize>)
        ensures
            match r {
                Some(k) => token_position(self@.loading, token@) == Some(k as int) && k < self.loading@.len(),
                None => token_position(self@.loading, token@) is None,
            },
    {
        let ghost open = self@.loading;
        let mut i: usize = 0;
        while i < self.loading.len()
            invariant
                open == self@.loading,
                i <= self.loading@.len(),
                forall|k: int| 0 <= k < i ==> open[k] != token@,
            decreases self.loading@.len() - i,
        {
            if json_eq(&self.loading[i], token) {
                proof {
                    lemma_token_position(open, token@, i as int);
                }
                return Some(i);
            }
            i = i + 1;
        }
        proof {
            lemma_token_position(open, token@, i as int);
        }
        None
    }

    fn is_failure(&self, token: &Json) -> (r: bool)
        ensures
            r == (self@.failure == Some(token@)),
    {
        match &self.failure {
            Some(f) => json_eq(f, token),
            None => false,
        }
    }

    fn on_progress(&mut self, token: Json, kind: &str, title: Option<String>, message: Option<String>) -> (r: Option<ServerState>)
        ensures
            (final(self)@, opt_state(r)) == on_progress_model(old(self)@, token@, kind@, opt_view(title), opt_view(message)),
    {
        let ghost before = self@;
        if str_eq(kind, "begin") {
            let setup = match &title {
                Some(t) => str_eq(t.as_str(), WORKSPACE_SETUP_TITLE),
                None => false,
            };
            let failing = match &title {
                Some(t) => str_eq(t.as_str(), WORKSPACE_LOAD_FAILURE_TITLE),
                None => false,
            };
            if setup {
                if self.loading.len() == 0 {
                    self.failed_in_round = None;
                }
                self.loading.push(token);
                assert(self@.loading =~= before.loading.push(token@));
                self.state.readiness = Readiness::Indexing;
            } else if failing {
                self.failure = Some(token);
                self.state.health = Health::Error;
                self.state.message = message;
            } else {
                return None;
            }
        } else if str_eq(kind, "report") {
            if !self.is_failure(&token) {
                return None;
            }
            if message.is_some() {
                self.state.message = message;
            }
        } else if str_eq(kind, "end") && self.is_failure(&token) {
            self.failure = None;
            self.state.health = Health::Okay;
            self.state.message = None;
        } else if str_eq(kind, "end") {
            let k = match self.position(&token) {
                Some(k) => k,
                None => return None,
            };
            let ghost vec_before = self.loading@;
            let _ = self.loading.remove(k);
            assert forall|j: int| 0 <= j < self@.loading.len() implies #[trigger] self@.loading[j] == before.loading.remove(k as int)[j] by {
                if j < k {
                    assert(self.loading@[j] == vec_before[j]);
                } else {
                    assert(self.loading@[j] == vec_before[j + 1]);
                }
            }
            assert(self@.loading =~= before.loading.remove(k as int));
            let failed = match &message {
                Some(m) => starts_with(m.as_str(), FAILED_LOAD_PREFIX),
                None => false,
            };
            if failed {
                self.failed_in_round = message;
            }
            if self.loading.len() == 0 {
                self.state.readiness = Readiness::Ready;
                match &self.failed_in_round {
                    Some(m) => {
                        self.state.health = Health::Error;
                        self.state.message = Some(m.clone());
                    },
                    None => if self.failure.is_none() {
                        self.state.health = Health::Okay;
                        self.state.message = None;
                    },
                }
            }
        } else {
            return None;
        }
        Some(self.state.copied())
    }

    /// Reads the workspace load progress.
    pub fn interpret(&mut self, view: &MessageView, body: &[u8]) -> (r: Option<ServerState>)
        ensures
            (final(self)@, opt_state(r)) == interpret_model(old(self)@, view@, json_parse(body@)),
    {
        let p = match read_params(view, PROGRESS_METHOD, body) {
            Some(p) => p,
            None => return None,
        };
        let ghost pm = p@;
        let (kind, title, message) = match get(&p, "value") {
            Some(v) => match (text_member(v, "kind"), get_opt_text(v, "title"), get_opt_text(v, "message")) {
                (Some(k), Some(t), Some(m)) => (k.clone(), t, m),
                _ => return None,
            },
            None => return None,
        };
        let token = match take_member(p, "token") {
            Some(t) => t,
            None => return None,
        };
        assert(progress_of(pm) == Some((token@, kind@, opt_view(title), opt_view(message))));
        self.on_progress(token, kind.as_str(), title, message)
    }
}

} // verus!
