//! The typescript-language-server mapping.
//!
//! typescript-language-server returns its own `serverInfo`, but the version that decides the
//! guarantee is the TypeScript engine's, announced in its startup log ("Using Typescript
//! version (…) X from path …") and in `$/typescriptVersion`. The project load is the
//! work-done progress "Initializing JS/TS language features…": readiness is `indexing` while
//! one is open and `ready` when the last one ends. A tsserver that exits is an error.

use vstd::prelude::*;

use crate::adapter::{lemma_token_position, params_of, read_params, token_models, token_position};
use crate::initialize::{InfoModel, ServerInfo};
use crate::json::{Json, JsonModel, get, get_opt_text, json_eq, json_parse, member, opt_text_field, take_member, text_field, text_member};
use crate::peek::{MessageView, ViewModel, is_notification_model};
use crate::state::{FileChangeType, Health, Readiness, ServerState, ServerStateProvider, StateModel, ProviderModel, initializing_model, notifications_only_model, opt_state, opt_view, workspace_model};
use crate::text::{contains, has_sub, split_first, split_once, str_eq, strip_prefix, starts, trim, trim_str};

verus! {

/// The progress notification.
pub const PROGRESS_METHOD: &'static str = "$/progress";

/// The log notification.
pub const LOG_MESSAGE_METHOD: &'static str = "window/logMessage";

/// The engine version notification.
pub const TYPESCRIPT_VERSION_METHOD: &'static str = "$/typescriptVersion";

/// The title of the project load progress.
pub const PROJECT_LOAD_TITLE: &'static str = "Initializing JS/TS language features\u{2026}";

/// What the log says when tsserver exits.
pub const TSSERVER_EXITED: &'static str = "[tsserver] Exited. Code:";

/// How the startup log begins.
pub const STARTUP_PREFIX: &'static str = "Using Typescript version (";

/// What follows the version source in the startup log.
pub const STARTUP_INFIX: &'static str = ") ";

/// What follows the version in the startup log.
pub const STARTUP_SUFFIX_START: &'static str = " from path ";

/// The name typescript-language-server calls itself.
pub const SERVER_NAME: &'static str = "typescript-language-server";

/// Versions of the TypeScript engine the conformance tests passed on.
pub const TESTED_VERSIONS: [&'static str; 1] = ["5.9.3"];

/// What the startup log announces: the engine version, trimmed, without spaces.
pub open spec fn startup_identity_model(message: Seq<char>) -> Option<InfoModel> {
    if !starts(message, STARTUP_PREFIX@) {
        None
    } else {
        match split_first(message.skip(STARTUP_PREFIX@.len() as int), STARTUP_INFIX@) {
            Some((_, rest)) => match split_first(rest, STARTUP_SUFFIX_START@) {
                Some((version, _)) => {
                    let v = trim(version);
                    if v.len() == 0 || has_sub(v, " "@) {
                        None
                    } else {
                        Some(InfoModel { name: SERVER_NAME@, version: Some(v) })
                    }
                },
                None => None,
            },
            None => None,
        }
    }
}

/// Reads the engine version out of the startup log.
pub fn startup_identity(message: &str) -> (r: Option<ServerInfo>)
    ensures
        match r {
            Some(i) => startup_identity_model(message@) == Some(i@),
            None => startup_identity_model(message@) is None,
        },
{
    let rest = match strip_prefix(message, STARTUP_PREFIX) {
        Some(r) => r,
        None => return None,
    };
    let (_, rest) = match split_once(rest.as_str(), STARTUP_INFIX) {
        Some(x) => x,
        None => return None,
    };
    let (version, _) = match split_once(rest.as_str(), STARTUP_SUFFIX_START) {
        Some(x) => x,
        None => return None,
    };
    let v = trim_str(version.as_str());
    if v.as_str().is_empty() || contains(v.as_str(), " ") {
        return None;
    }
    Some(ServerInfo { name: SERVER_NAME.to_owned(), version: Some(v) })
}

/// What `$/typescriptVersion`'s params announce: the engine version, trimmed, when it is a
/// non-empty string; `None` when the params are not an object.
pub open spec fn version_notification_model(params: JsonModel) -> Option<InfoModel> {
    match params {
        JsonModel::Object(_) => {
            let version = match text_field(params, "version"@) {
                Some(v) => if trim(v).len() > 0 {
                    Some(trim(v))
                } else {
                    None
                },
                None => None,
            };
            Some(InfoModel { name: SERVER_NAME@, version })
        },
        _ => None,
    }
}

/// Reads the engine version out of `$/typescriptVersion`'s params.
pub fn identity_from_typescript_version(params: &Json) -> (r: Option<ServerInfo>)
    ensures
        match r {
            Some(i) => version_notification_model(params@) == Some(i@),
            None => version_notification_model(params@) is None,
        },
{
    match params {
        Json::Object(_) => {},
        _ => return None,
    }
    let version = match text_member(params, "version") {
        Some(v) => {
            let t = trim_str(v.as_str());
            if t.as_str().is_empty() {
                None
            } else {
                Some(t)
            }
        },
        None => None,
    };
    Some(ServerInfo { name: SERVER_NAME.to_owned(), version })
}

/// Whether a version, trimmed, is a tested engine version.
pub open spec fn version_tested(version: Option<Seq<char>>) -> bool {
    version matches Some(v) && trim(v) == TESTED_VERSIONS@[0]@
}

fn tested(version: Option<&str>) -> (r: bool)
    ensures
        r == version_tested(match version { Some(v) => Some(v@), None => None }),
{
    match version {
        Some(v) => {
            let t = trim_str(v);
            let list = TESTED_VERSIONS;
            str_eq(t.as_str(), list[0])
        },
        None => false,
    }
}

/// The model of a [`TypescriptLanguageServerAdapter`].
pub ghost struct TypescriptModel {
    pub version_is_tested: bool,
    pub state: StateModel,
    pub loading: Seq<JsonModel>,
}

/// The typescript-language-server mapping.
pub struct TypescriptLanguageServerAdapter {
    version_is_tested: bool,
    state: ServerState,
    /// The project loads open, by their tokens.
    loading: Vec<Json>,
}

impl View for TypescriptLanguageServerAdapter {
    type V = TypescriptModel;

    closed spec fn view(&self) -> TypescriptModel {
        TypescriptModel { version_is_tested: self.version_is_tested, state: self.state@, loading: token_models(self.loading@) }
    }
}

/// A progress's params read as `{token: any, value: {kind: string, title?: string}}`.
pub open spec fn progress_of(p: JsonModel) -> Option<(JsonModel, Seq<char>, Option<Seq<char>>)> {
    match (member(p, "token"@), member(p, "value"@)) {
        (Some(t), Some(v)) => match (text_field(v, "kind"@), opt_text_field(v, "title"@)) {
            (Some(k), Some(title)) => Some((t, k, title)),
            _ => None,
        },
        _ => None,
    }
}

/// What one progress does to the mapping.
pub open spec fn on_progress_model(a: TypescriptModel, token: JsonModel, kind: Seq<char>, title: Option<Seq<char>>) -> (TypescriptModel, Option<StateModel>) {
    if kind == "begin"@ && title == Some(PROJECT_LOAD_TITLE@) {
        let s = StateModel { readiness: Readiness::Indexing, ..a.state };
        (TypescriptModel { state: s, loading: a.loading.push(token), ..a }, Some(s))
    } else if kind == "end"@ {
        match token_position(a.loading, token) {
            Some(k) => {
                let loading = a.loading.remove(k);
                if loading.len() != 0 {
                    (TypescriptModel { loading, ..a }, None)
                } else {
                    let s = StateModel {
                        readiness: Readiness::Ready,
                        health: if a.state.health != Health::Error { Health::Okay } else { Health::Error },
                        ..a.state
                    };
                    (TypescriptModel { state: s, loading, ..a }, Some(s))
                }
            },
            None => (a, None),
        }
    } else {
        (a, None)
    }
}

/// What the mapping makes of an upstream message. `$/typescriptVersion` updates the basis of
/// the guarantee and reports no state.
pub open spec fn interpret_model(a: TypescriptModel, v: ViewModel, body: Option<JsonModel>) -> (TypescriptModel, Option<StateModel>) {
    if !is_notification_model(v) {
        (a, None)
    } else if v.method == Some(TYPESCRIPT_VERSION_METHOD@) {
        match params_of(v, TYPESCRIPT_VERSION_METHOD@, body) {
            Some(p) => match version_notification_model(p) {
                Some(i) => match i.version {
                    Some(version) => (TypescriptModel { version_is_tested: version_tested(Some(version)), ..a }, None),
                    None => (a, None),
                },
                None => (a, None),
            },
            None => (a, None),
        }
    } else if v.method == Some(PROGRESS_METHOD@) {
        match params_of(v, PROGRESS_METHOD@, body) {
            Some(p) => match progress_of(p) {
                Some((t, k, title)) => on_progress_model(a, t, k, title),
                None => (a, None),
            },
            None => (a, None),
        }
    } else if v.method == Some(LOG_MESSAGE_METHOD@) {
        match params_of(v, LOG_MESSAGE_METHOD@, body) {
            Some(p) => match text_field(p, "message"@) {
                Some(m) => if has_sub(m, TSSERVER_EXITED@) {
                    let s = StateModel { health: Health::Error, message: Some(m), ..a.state };
                    (TypescriptModel { state: s, ..a }, Some(s))
                } else {
                    (a, None)
                },
                None => (a, None),
            },
            None => (a, None),
        }
    } else {
        (a, None)
    }
}

/// The guarantees of a mapping: freshness of Changed events for a tested engine version.
pub open spec fn guarantees_model(a: TypescriptModel) -> ProviderModel {
    if a.version_is_tested {
        workspace_model(Seq::empty(), seq![FileChangeType::Changed])
    } else {
        notifications_only_model()
    }
}

impl TypescriptLanguageServerAdapter {
    /// A server whose engine version is not known yet. Declares no guarantee.
    pub fn new() -> (r: Self)
        ensures
            r@ == (TypescriptModel { version_is_tested: false, state: initializing_model(), loading: Seq::empty() }),
    {
        Self::for_version(None)
    }

    /// The mapping for the engine `version`.
    pub fn for_version(version: Option<&str>) -> (r: Self)
        ensures
            r@ == (TypescriptModel {
                version_is_tested: version_tested(match version { Some(v) => Some(v@), None => None }),
                state: initializing_model(),
                loading: Seq::empty(),
            }),
    {
        let r = TypescriptLanguageServerAdapter { version_is_tested: tested(version), state: ServerState::initializing(), loading: Vec::new() };
        assert(r@.loading =~= Seq::<JsonModel>::empty());
        r
    }

    /// The state right after connecting.
    pub fn initial_state(&self) -> (r: ServerState)
        ensures
            r@ == initializing_model(),
    {
        ServerState::initializing()
    }

    /// The guarantee to declare.
    pub fn guarantees(&self) -> (r: ServerStateProvider)
        ensures
            r@ == guarantees_model(self@),
    {
        if self.version_is_tested {
            let caps: [(&str, u64); 0] = [];
            let changes = [FileChangeType::Changed];
            let r = ServerStateProvider::workspace(&caps, &changes);
            proof {
                assert(crate::state::caps_arg_view(caps@) =~= Seq::empty());
                assert(changes@ =~= seq![FileChangeType::Changed]);
            }
            r
        } else {
            ServerStateProvider::notifications_only()
        }
    }

    /// The `serverInfo` version is the wrapper's, not the engine's the guarantee depends on:
    /// it changes nothing.
    pub fn learn_identity(&mut self, info: &ServerInfo)
        ensures
            final(self)@ == old(self)@,
    {
    }

    fn position(&self, token: &Json) -> (r: Option<usize>)
        ensures
            match r {
                Some(k) => token_position(self@.loading, token@) == Some(k as int) && k < self.loading@.len(),
                None => token_position(self@.loading, token@) is None,
            },
    {
        let ghost open = self@.loading;
        let mut i: usize = 0;
        while i < self.loading.len()
            invariant
                open == self@.loading,
                i <= self.loading@.len(),
                forall|k: int| 0 <= k < i ==> open[k] != token@,
            decreases self.loading@.len() - i,
        {
            if json_eq(&self.loading[i], token) {
                proof {
                    lemma_token_position(open, token@, i as int);
                }
                return Some(i);
            }
            i = i + 1;
        }
        proof {
            lemma_token_position(open, token@, i as int);
        }
        None
    }

    fn on_progress(&mut self, token: Json, kind: &str, title: Option<String>) -> (r: Option<ServerState>)
        ensures
            (final(self)@, opt_state(r)) == on_progress_model(old(self)@, token@, kind@, opt_view(title)),
    {
        let ghost before = self@;
        let loads = match &title {
            Some(t) => str_eq(t.as_str(), PROJECT_LOAD_TITLE),
            None => false,
        };
        if str_eq(kind, "begin") && loads {
            self.loading.push(token);
            assert(self@.loading =~= before.loading.push(token@));
            self.state.readiness = Readiness::Indexing;
            Some(self.state.copied())
        } else if str_eq(kind, "end") {
            let k = match self.position(&token) {
                Some(k) => k,
                None => return None,
            };
            let ghost vec_before = self.loading@;
            let _ = self.loading.remove(k);
            assert forall|j: int| 0 <= j < self@.loading.len() implies #[trigger] self@.loading[j] == before.loading.remove(k as int)[j] by {
                if j < k {
                    assert(self.loading@[j] == vec_before[j]);
                } else {
                    assert(self.loading@[j] == vec_before[j + 1]);
                }
            }
            assert(self@.loading =~= before.loading.remove(k as int));
            if self.loading.len() != 0 {
                return None;
            }
            self.state.readiness = Readiness::Ready;
            if self.state.health != Health::Error {
                self.state.health = Health::Okay;
            }
            Some(self.state.copied())
        } else {
            None
        }
    }

    /// Reads the engine version, the project load, and tsserver's exit.
    pub fn interpret(&mut self, view: &MessageView, body: &[u8]) -> (r: Option<ServerState>)
        ensures
            (final(self)@, opt_state(r)) == interpret_model(old(self)@, view@, json_parse(body@)),
    {
        if !view.is_notification() {
            return None;
        }
        let method = match view.method() {
            Some(m) => m,
            None => return None,
        };
        if str_eq(method, TYPESCRIPT_VERSION_METHOD) {
            let p = match read_params(view, TYPESCRIPT_VERSION_METHOD, body) {
                Some(p) => p,
                None => return None,
            };
            if let Some(identity) = identity_from_typescript_version(&p) {
                if let Some(version) = &identity.version {
                    self.version_is_tested = tested(Some(version.as_str()));
                }
            }
            None
        } else if str_eq(method, PROGRESS_METHOD) {
            let p = match read_params(view, PROGRESS_METHOD, body) {
                Some(p) => p,
                None => return None,
            };
            let ghost pm = p@;
            let (kind, title) = match get(&p, "value") {
                Some(v) => match (text_member(v, "kind"), get_opt_text(v, "title")) {
                    (Some(k), Some(t)) => (k.clone(), t),
                    _ => return None,
                },
                None => return None,
            };
            let token = match take_member(p, "token") {
                Some(t) => t,
                None => return None,
            };
            assert(progress_of(pm) == Some((token@, kind@, opt_view(title))));
            self.on_progress(token, kind.as_str(), title)
        } else if str_eq(method, LOG_MESSAGE_METHOD) {
            let p = match read_params(view, LOG_MESSAGE_METHOD, body) {
                Some(p) => p,
                None => return None,
            };
            let m = match text_member(&p, "message") {
                Some(m) => m,
                None => return None,
            };
            if !contains(m.as_str(), TSSERVER_EXITED) {
                return None;
            }
            self.state.health = Health::Error;
            self.state.message = Some(m.clone());
            Some(self.state.copied())
        } else {
            None
        }
    }
}

} // verus!
