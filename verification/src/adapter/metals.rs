//! The Metals (Scala) mapping.
//!
//! Metals reports its phases as work-done progress: the BSP configuration, importing the
//! build, indexing, and compiling. Readiness is `indexing` while any phase is open, and
//! `ready` once everything has ended and the last phase to end was the indexing. Health comes
//! from the `metals/status` of the `module` status bar item. A change to a Scala source or a
//! build file starts a new round, so it is predicted as `indexing`. No version has passed the
//! conformance tests, so nothing is guaranteed.

use vstd::prelude::*;

use crate::adapter::{params_of, read_params};
use crate::json::{Json, JsonModel, get, get_opt_text, json_eq, json_parse, member, opt_text_field, take_member, text_field, text_member};
use crate::peek::{MessageView, ViewModel, is_notification_model};
use crate::state::{ALL_FILE_CHANGES, Health, Readiness, ServerState, ServerStateProvider, StateModel, ProviderModel, all_file_changes, initializing_model, notifications_only_model, opt_state, opt_view, workspace_model};
use crate::text::{ends, ends_with, last_segment, last_segment_of, starts, starts_with, str_eq, str_in, trim, trim_str};

verus! {

/// The progress notification.
pub const PROGRESS_METHOD: &'static str = "$/progress";

/// The status bar notification.
pub const STATUS_METHOD: &'static str = "metals/status";

/// The file change notification of the client.
pub const WATCHED_FILES_METHOD: &'static str = "workspace/didChangeWatchedFiles";

/// The title of the indexing progress.
pub const INDEXING_TITLE: &'static str = "Indexing";

/// The title of the build import progress.
pub const IMPORTING_TITLE: &'static str = "Importing build";

/// How a compilation progress title begins.
pub const COMPILING_PREFIX: &'static str = "Compiling ";

/// How the BSP configuration progress title ends.
pub const BSP_CONFIG_SUFFIX: &'static str = " bspConfig";

/// Versions the conformance tests passed on: none yet.
pub const TESTED_VERSIONS: [&'static str; 0] = [];

/// Whether a version, trimmed, is among [`TESTED_VERSIONS`].
pub open spec fn version_tested(version: Option<Seq<char>>) -> bool {
    match version {
        Some(v) => exists|i: int| 0 <= i < TESTED_VERSIONS@.len() && TESTED_VERSIONS@[i]@ == trim(v),
        None => false,
    }
}

/// The guarantee: `coverage` over the workspace and `freshness` for every kind of file change
/// for a tested version, nothing otherwise.
pub open spec fn guarantees_model(a: MetalsModel) -> ProviderModel {
    if a.version_is_tested {
        workspace_model(Seq::empty(), all_file_changes())
    } else {
        notifications_only_model()
    }
}

/// A phase of Metals' work.
#[derive(Debug, Clone, Copy, PartialEq, Eq, Structural)]
pub enum Phase {
    BspConfig,
    Importing,
    Indexing,
    Compiling,
}

/// The phase a progress title names.
pub open spec fn phase_model(title: Seq<char>) -> Option<Phase> {
    if title == INDEXING_TITLE@ {
        Some(Phase::Indexing)
    } else if title == IMPORTING_TITLE@ {
        Some(Phase::Importing)
    } else if starts(title, COMPILING_PREFIX@) {
        Some(Phase::Compiling)
    } else if ends(title, BSP_CONFIG_SUFFIX@) {
        Some(Phase::BspConfig)
    } else {
        None
    }
}

/// The phase a progress title names.
pub fn phase_of(title: &str) -> (r: Option<Phase>)
    ensures
        r == phase_model(title@),
{
    if str_eq(title, INDEXING_TITLE) {
        Some(Phase::Indexing)
    } else if str_eq(title, IMPORTING_TITLE) {
        Some(Phase::Importing)
    } else if starts_with(title, COMPILING_PREFIX) {
        Some(Phase::Compiling)
    } else if ends_with(title, BSP_CONFIG_SUFFIX) {
        Some(Phase::BspConfig)
    } else {
        None
    }
}

/// Whether a file name is a Scala source or a build file: `*.scala`, `*.sc`, `*.sbt`,
/// `build.mill`, `build.sc`.
pub open spec fn watched_name(name: Seq<char>) -> bool {
    ends(name, ".scala"@) || ends(name, ".sc"@) || ends(name, ".sbt"@) || name == "build.mill"@ || name == "build.sc"@
}

/// Whether a URI names a Scala source or a build file, by its last component.
pub fn is_watched_file(uri: &str) -> (r: bool)
    ensures
        r == watched_name(last_segment(uri@)),
{
    let name = last_segment_of(uri);
    let n = name.as_str();
    ends_with(n, ".scala") || ends_with(n, ".sc") || ends_with(n, ".sbt") || str_eq(n, "build.mill") || str_eq(n, "build.sc")
}

/// The model of an [`MetalsAdapter`].
pub ghost struct MetalsModel {
    pub version_is_tested: bool,
    pub state: StateModel,
    pub open: Seq<(JsonModel, Phase)>,
    pub last_ended_indexing: bool,
}

/// The Metals mapping.
pub struct MetalsAdapter {
    version_is_tested: bool,
    state: ServerState,
    /// The phases begun and not ended, by their tokens.
    open: Vec<(Json, Phase)>,
    /// Whether the last phase to end was the indexing.
    last_ended_indexing: bool,
}

spec fn open_models(open: Seq<(Json, Phase)>) -> Seq<(JsonModel, Phase)> {
    Seq::new(open.len(), |i: int| (open[i].0@, open[i].1))
}

impl View for MetalsAdapter {
    type V = MetalsModel;

    closed spec fn view(&self) -> MetalsModel {
        MetalsModel { version_is_tested: self.version_is_tested, state: self.state@, open: open_models(self.open@), last_ended_indexing: self.last_ended_indexing }
    }
}

/// The first open phase with the token `token`.
pub open spec fn token_position(open: Seq<(JsonModel, Phase)>, token: JsonModel) -> Option<int>
    decreases open.len(),
{
    if open.len() == 0 {
        None
    } else if open[0].0 == token {
        Some(0)
    } else {
        match token_position(open.drop_first(), token) {
            Some(k) => Some(k + 1),
            None => None,
        }
    }
}

proof fn lemma_token_position(open: Seq<(JsonModel, Phase)>, token: JsonModel, i: int)
    requires
        0 <= i <= open.len(),
        forall|k: int| 0 <= k < i ==> open[k].0 != token,
    ensures
        i < open.len() && open[i].0 == token ==> token_position(open, token) == Some(i),
        i == open.len() ==> token_position(open, token) is None,
    decreases i,
{
    if i > 0 {
        lemma_token_position(open.drop_first(), token, i - 1);
    }
}

/// A progress's params read as `{token: any, value: {kind: string, title?: string}}`.
pub open spec fn progress_of(p: JsonModel) -> Option<(JsonModel, Seq<char>, Option<Seq<char>>)> {
    match (member(p, "token"@), member(p, "value"@)) {
        (Some(t), Some(v)) => match (text_field(v, "kind"@), opt_text_field(v, "title"@)) {
            (Some(k), Some(title)) => Some((t, k, title)),
            _ => None,
        },
        _ => None,
    }
}

/// What one progress does to the mapping.
pub open spec fn on_progress_model(a: MetalsModel, token: JsonModel, kind: Seq<char>, title: Option<Seq<char>>) -> (MetalsModel, Option<StateModel>) {
    if kind == "begin"@ {
        match title {
            Some(t) => match phase_model(t) {
                Some(phase) => {
                    let s = StateModel { readiness: Readiness::Indexing, ..a.state };
                    (MetalsModel { state: s, open: a.open.push((token, phase)), ..a }, Some(s))
                },
                None => (a, None),
            },
            None => (a, None),
        }
    } else if kind == "end"@ {
        match token_position(a.open, token) {
            Some(k) => {
                let open = a.open.remove(k);
                let last = a.open[k].1 == Phase::Indexing;
                let s = if open.len() == 0 && last {
                    StateModel { readiness: Readiness::Ready, ..a.state }
                } else {
                    a.state
                };
                (MetalsModel { state: s, open, last_ended_indexing: last, ..a }, Some(s))
            },
            None => (a, None),
        }
    } else {
        (a, None)
    }
}

/// A status's params read as `{text?, level?, tooltip?, statusType?}`, all optional strings.
pub open spec fn status_of(p: JsonModel) -> Option<(Option<Seq<char>>, Option<Seq<char>>, Option<Seq<char>>, Option<Seq<char>>)> {
    match (p, opt_text_field(p, "text"@), opt_text_field(p, "level"@), opt_text_field(p, "tooltip"@), opt_text_field(p, "statusType"@)) {
        (JsonModel::Object(_), Some(text), Some(level), Some(tooltip), Some(kind)) => Some((text, level, tooltip, kind)),
        _ => None,
    }
}

/// The health a status level means: `error`, `warn`, anything else (or none) is `ok`.
pub open spec fn level_health(level: Option<Seq<char>>) -> Health {
    match level {
        Some(l) => if l == "error"@ {
            Health::Error
        } else if l == "warn"@ {
            Health::Warning
        } else {
            Health::Okay
        },
        None => Health::Okay,
    }
}

/// The message of a status that is not `ok`: the tooltip unless it is blank, else the text,
/// trimmed.
pub open spec fn status_message(text: Option<Seq<char>>, tooltip: Option<Seq<char>>) -> Option<Seq<char>> {
    match tooltip {
        Some(t) => if trim(t).len() > 0 {
            Some(trim(t))
        } else {
            match text {
                Some(x) => Some(trim(x)),
                None => None,
            }
        },
        None => match text {
            Some(x) => Some(trim(x)),
            None => None,
        },
    }
}

/// What one `metals/status` does to the mapping: only the `module` item speaks of health.
pub open spec fn on_status_model(
    a: MetalsModel,
    text: Option<Seq<char>>,
    level: Option<Seq<char>>,
    tooltip: Option<Seq<char>>,
    kind: Option<Seq<char>>,
) -> (MetalsModel, Option<StateModel>) {
    if kind != Some("module"@) {
        (a, None)
    } else {
        let health = level_health(level);
        let message = if health == Health::Okay {
            None
        } else {
            status_message(text, tooltip)
        };
        let s = StateModel { health, message, ..a.state };
        (MetalsModel { state: s, ..a }, Some(s))
    }
}

/// What the mapping makes of an upstream message.
pub open spec fn interpret_model(a: MetalsModel, v: ViewModel, body: Option<JsonModel>) -> (MetalsModel, Option<StateModel>) {
    if !is_notification_model(v) {
        (a, None)
    } else if v.method == Some(PROGRESS_METHOD@) {
        let progress = match params_of(v, PROGRESS_METHOD@, body) {
            Some(p) => progress_of(p),
            None => None,
        };
        match progress {
            Some((t, k, title)) => on_progress_model(a, t, k, title),
            None => (a, None),
        }
    } else if v.method == Some(STATUS_METHOD@) {
        match params_of(v, STATUS_METHOD@, body) {
            Some(p) => match status_of(p) {
                Some((text, level, tooltip, kind)) => on_status_model(a, text, level, tooltip, kind),
                None => (a, None),
            },
            None => (a, None),
        }
    } else {
        (a, None)
    }
}

/// One change of `workspace/didChangeWatchedFiles` read as `{uri: string}`.
pub open spec fn change_uri(c: JsonModel) -> Option<Seq<char>> {
    text_field(c, "uri"@)
}

/// What the mapping makes of a client message: a change to a Scala source or a build file,
/// while ready, starts a new round.
pub open spec fn observe_client_model(a: MetalsModel, v: ViewModel, body: Option<JsonModel>) -> (MetalsModel, Option<StateModel>) {
    match params_of(v, WATCHED_FILES_METHOD@, body) {
        Some(p) => match member(p, "changes"@) {
            Some(JsonModel::Array(items)) => if (forall|i: int| 0 <= i < items.len() ==> (#[trigger] change_uri(items[i])) is Some)
                && (exists|i: int| 0 <= i < items.len() && watched_name(last_segment(#[trigger] change_uri(items[i])->0)))
                && a.state.readiness == Readiness::Ready {
                let s = StateModel { readiness: Readiness::Indexing, ..a.state };
                (MetalsModel { state: s, last_ended_indexing: false, ..a }, Some(s))
            } else {
                (a, None)
            },
            _ => (a, None),
        },
        None => (a, None),
    }
}

impl MetalsAdapter {
    /// A Metals that does not announce a version.
    pub fn new() -> (r: Self)
        ensures
            r@ == (MetalsModel { version_is_tested: false, state: initializing_model(), open: Seq::empty(), last_ended_indexing: false }),
    {
        Self::for_version(None)
    }

    /// The mapping for `version`: a guarantee only for a version, trimmed, among
    /// [`TESTED_VERSIONS`].
    pub fn for_version(version: Option<&str>) -> (r: Self)
        ensures
            r@ == (MetalsModel {
                version_is_tested: version_tested(match version { Some(v) => Some(v@), None => None }),
                state: initializing_model(),
                open: Seq::empty(),
                last_ended_indexing: false,
            }),
    {
        let version_is_tested = match version {
            Some(v) => {
                let trimmed = trim_str(v);
                let tested = TESTED_VERSIONS;
                str_in(trimmed.as_str(), &tested)
            },
            None => false,
        };
        let r = MetalsAdapter { version_is_tested, state: ServerState::initializing(), open: Vec::new(), last_ended_indexing: false };
        assert(r@.open =~= Seq::<(JsonModel, Phase)>::empty());
        r
    }

    /// The state right after connecting.
    pub fn initial_state(&self) -> (r: ServerState)
        ensures
            r@ == initializing_model(),
    {
        ServerState::initializing()
    }

    /// The guarantee to declare: `coverage` over the workspace and `freshness` for every kind
    /// of file change for a tested version, nothing otherwise.
    pub fn guarantees(&self) -> (r: ServerStateProvider)
        ensures
            r@ == guarantees_model(self@),
    {
        if self.version_is_tested {
            let caps: [(&str, u64); 0] = [];
            let changes = ALL_FILE_CHANGES;
            let r = ServerStateProvider::workspace(&caps, &changes);
            proof {
                assert(crate::state::caps_arg_view(caps@) =~= Seq::empty());
                assert(changes@ =~= all_file_changes());
            }
            r
        } else {
            ServerStateProvider::notifications_only()
        }
    }

    fn position(&self, token: &Json) -> (r: Option<usize>)
        ensures
            match r {
                Some(k) => token_position(self@.open, token@) == Some(k as int) && k < self.open@.len()
                    && self@.open[k as int].0 == token@,
                None => token_position(self@.open, token@) is None,
            },
    {
        let ghost open = self@.open;
        let mut i: usize = 0;
        while i < self.open.len()
            invariant
                open == self@.open,
                i <= self.open@.len(),
                forall|k: int| 0 <= k < i ==> open[k].0 != token@,
            decreases self.open@.len() - i,
        {
            if json_eq(&self.open[i].0, token) {
                proof {
                    lemma_token_position(open, token@, i as int);
                }
                return Some(i);
            }
            i = i + 1;
        }
        proof {
            lemma_token_position(open, token@, i as int);
        }
        None
    }

    /// Reads the phase progress and the `module` status.
    pub fn interpret(&mut self, view: &MessageView, body: &[u8]) -> (r: Option<ServerState>)
        ensures
            (final(self)@, opt_state(r)) == interpret_model(old(self)@, view@, json_parse(body@)),
    {
        if !view.is_notification() {
            return None;
        }
        let method = match view.method() {
            Some(m) => m,
            None => return None,
        };
        if str_eq(method, PROGRESS_METHOD) {
            let p = match read_params(view, PROGRESS_METHOD, body) {
                Some(p) => p,
                None => return None,
            };
            let ghost pm = p@;
            let (kind, title) = match get(&p, "value") {
                Some(v) => match (text_member(v, "kind"), get_opt_text(v, "title")) {
                    (Some(k), Some(t)) => (k.clone(), t),
                    _ => return None,
                },
                None => return None,
            };
            let token = match take_member(p, "token") {
                Some(t) => t,
                None => return None,
            };
            assert(progress_of(pm) == Some((token@, kind@, opt_view(title))));
            self.on_progress(token, kind.as_str(), title)
        } else if str_eq(method, STATUS_METHOD) {
            let p = match read_params(view, STATUS_METHOD, body) {
                Some(p) => p,
                None => return None,
            };
            match &p {
                Json::Object(_) => {},
                _ => return None,
            }
            let text = match get_opt_text(&p, "text") {
                Some(t) => t,
                None => return None,
            };
            let level = match get_opt_text(&p, "level") {
                Some(t) => t,
                None => return None,
            };
            let tooltip = match get_opt_text(&p, "tooltip") {
                Some(t) => t,
                None => return None,
            };
            let kind = match get_opt_text(&p, "statusType") {
                Some(t) => t,
                None => return None,
            };
            self.on_status(text, level, tooltip, kind)
        } else {
            None
        }
    }

    fn on_status(&mut self, text: Option<String>, level: Option<String>, tooltip: Option<String>, kind: Option<String>) -> (r: Option<ServerState>)
        ensures
            (final(self)@, opt_state(r)) == on_status_model(old(self)@, opt_view(text), opt_view(level), opt_view(tooltip), opt_view(kind)),
    {
        let is_module = match &kind {
            Some(k) => str_eq(k.as_str(), "module"),
            None => false,
        };
        proof {
            reveal_strlit("module");
        }
        if !is_module {
            return None;
        }
        let health = match &level {
            Some(l) => if str_eq(l.as_str(), "error") {
                Health::Error
            } else if str_eq(l.as_str(), "warn") {
                Health::Warning
            } else {
                Health::Okay
            },
            None => Health::Okay,
        };
        self.state.health = health;
        self.state.message = if health == Health::Okay {
            None
        } else {
            let chosen = match tooltip {
                Some(t) => {
                    let tt = trim_str(t.as_str());
                    if !tt.as_str().is_empty() {
                        Some(tt)
                    } else {
                        match &text {
                            Some(x) => Some(trim_str(x.as_str())),
                            None => None,
                        }
                    }
                },
                None => match &text {
                    Some(x) => Some(trim_str(x.as_str())),
                    None => None,
                },
            };
            chosen
        };
        Some(self.state.copied())
    }

    /// Predicts `indexing` from a change to a Scala source or a build file while ready.
    #[verifier::loop_isolation(false)]
    pub fn observe_client(&mut self, view: &MessageView, body: &[u8]) -> (r: Option<ServerState>)
        ensures
            (final(self)@, opt_state(r)) == observe_client_model(old(self)@, view@, json_parse(body@)),
    {
        let p = match read_params(view, WATCHED_FILES_METHOD, body) {
            Some(p) => p,
            None => return None,
        };
        let list = match get(&p, "changes") {
            Some(l) => l,
            None => return None,
        };
        let items = match list {
            Json::Array(items) => items,
            _ => return None,
        };
        let ghost arr = list@->Array_0;
        assert forall|k: int| 0 <= k < items@.len() implies arr[k] == #[trigger] items@[k]@ by {}
        let mut any = false;
        let mut i: usize = 0;
        while i < items.len()
            invariant
                i <= items@.len(),
                forall|k: int| 0 <= k < i ==> (#[trigger] change_uri(arr[k])) is Some,
                any == exists|k: int| 0 <= k < i && watched_name(last_segment(#[trigger] change_uri(arr[k])->0)),
            decreases items@.len() - i,
        {
            assert(arr[i as int] == items@[i as int]@);
            let u = match text_member(&items[i], "uri") {
                Some(u) => u,
                None => return None,
            };
            if is_watched_file(u.as_str()) {
                any = true;
            }
            assert(change_uri(arr[i as int]) == Some(u@));
            i = i + 1;
        }
        if !any || self.state.readiness != Readiness::Ready {
            return None;
        }
        self.state.readiness = Readiness::Indexing;
        self.last_ended_indexing = false;
        Some(self.state.copied())
    }

    fn on_progress(&mut self, token: Json, kind: &str, title: Option<String>) -> (r: Option<ServerState>)
        ensures
            (final(self)@, opt_state(r)) == on_progress_model(old(self)@, token@, kind@, crate::state::opt_view(title)),
    {
        let ghost before = self@;
        if str_eq(kind, "begin") {
            let t = match &title {
                Some(t) => t,
                None => return None,
            };
            let phase = match phase_of(t.as_str()) {
                Some(phase) => phase,
                None => return None,
            };
            self.open.push((token, phase));
            self.state.readiness = Readiness::Indexing;
            assert(self@.open =~= before.open.push((token@, phase)));
            Some(self.state.copied())
        } else if str_eq(kind, "end") {
            let k = match self.position(&token) {
                Some(k) => k,
                None => return None,
            };
            let ghost vec_before = self.open@;
            let (_, phase) = self.open.remove(k);
            assert(phase == before.open[k as int].1);
            assert forall|j: int| 0 <= j < self@.open.len() implies #[trigger] self@.open[j] == before.open.remove(k as int)[j] by {
                if j < k {
                    assert(self.open@[j] == vec_before[j]);
                } else {
                    assert(self.open@[j] == vec_before[j + 1]);
                }
            }
            assert(self@.open =~= before.open.remove(k as int));
            self.last_ended_indexing = phase == Phase::Indexing;
            if self.open.len() == 0 && self.last_ended_indexing {
                self.state.readiness = Readiness::Ready;
            }
            Some(self.state.copied())
        } else {
            None
        }
    }
}

} // verus!
