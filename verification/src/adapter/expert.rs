//! The Expert (Elixir) mapping.
//!
//! Expert reports its phases as work-done progress: starting and preparing the engine node,
//! building the project, and indexing (or loading the search index). Readiness is `indexing`
//! while any phase is open, and `ready` once everything has ended and the last phase to end
//! was the indexing. Expert declares no guarantee for any version.

use vstd::prelude::*;

use crate::adapter::{params_of, read_params};
use crate::json::{Json, JsonModel, get, get_opt_text, json_eq, json_parse, member, opt_text_field, take_member, text_field, text_member};
use crate::peek::{MessageView, ViewModel};
use crate::state::{Readiness, ServerState, ServerStateProvider, StateModel, initializing_model, notifications_only_model, opt_state};
use crate::text::{ends, ends_with, starts, starts_with, str_eq};

verus! {

/// The progress notification.
pub const PROGRESS_METHOD: &'static str = "$/progress";

/// How the engine node's start progress title ends.
pub const ENGINE_NODE_SUFFIX: &'static str = "Starting engine node";

/// How the engine preparation progress title ends.
pub const ENGINE_PREPARE_SUFFIX: &'static str = "Preparing engine";

/// How the build progress title begins.
pub const BUILDING_PREFIX: &'static str = "Building ";

/// The title of the indexing progress.
pub const INDEXING_TITLE: &'static str = "Indexing source code";

/// The title of loading an existing index.
pub const LOADING_INDEX_TITLE: &'static str = "Loading search index";

/// A phase of Expert's startup.
#[derive(Debug, Clone, Copy, PartialEq, Eq, Structural)]
pub enum Phase {
    Engine,
    Building,
    Indexing,
}

/// The phase a progress title names.
pub open spec fn phase_model(title: Seq<char>) -> Option<Phase> {
    if title == INDEXING_TITLE@ || title == LOADING_INDEX_TITLE@ {
        Some(Phase::Indexing)
    } else if starts(title, BUILDING_PREFIX@) {
        Some(Phase::Building)
    } else if ends(title, ENGINE_NODE_SUFFIX@) || ends(title, ENGINE_PREPARE_SUFFIX@) {
        Some(Phase::Engine)
    } else {
        None
    }
}

/// The phase a progress title names.
pub fn phase_of(title: &str) -> (r: Option<Phase>)
    ensures
        r == phase_model(title@),
{
    if str_eq(title, INDEXING_TITLE) || str_eq(title, LOADING_INDEX_TITLE) {
        Some(Phase::Indexing)
    } else if starts_with(title, BUILDING_PREFIX) {
        Some(Phase::Building)
    } else if ends_with(title, ENGINE_NODE_SUFFIX) || ends_with(title, ENGINE_PREPARE_SUFFIX) {
        Some(Phase::Engine)
    } else {
        None
    }
}

/// The model of an [`ExpertAdapter`].
pub ghost struct ExpertModel {
    pub state: StateModel,
    pub open: Seq<(JsonModel, Phase)>,
    pub last_ended_indexing: bool,
}

/// The Expert mapping.
pub struct ExpertAdapter {
    state: ServerState,
    /// The phases begun and not ended, by their tokens.
    open: Vec<(Json, Phase)>,
    /// Whether the last phase to end was the indexing.
    last_ended_indexing: bool,
}

spec fn open_models(open: Seq<(Json, Phase)>) -> Seq<(JsonModel, Phase)> {
    Seq::new(open.len(), |i: int| (open[i].0@, open[i].1))
}

impl View for ExpertAdapter {
    type V = ExpertModel;

    closed spec fn view(&self) -> ExpertModel {
        ExpertModel { state: self.state@, open: open_models(self.open@), last_ended_indexing: self.last_ended_indexing }
    }
}

/// The first open phase with the token `token`.
pub open spec fn token_position(open: Seq<(JsonModel, Phase)>, token: JsonModel) -> Option<int>
    decreases open.len(),
{
    if open.len() == 0 {
        None
    } else if open[0].0 == token {
        Some(0)
    } else {
        match token_position(open.drop_first(), token) {
            Some(k) => Some(k + 1),
            None => None,
        }
    }
}

proof fn lemma_token_position(open: Seq<(JsonModel, Phase)>, token: JsonModel, i: int)
    requires
        0 <= i <= open.len(),
        forall|k: int| 0 <= k < i ==> open[k].0 != token,
    ensures
        i < open.len() && open[i].0 == token ==> token_position(open, token) == Some(i),
        i == open.len() ==> token_position(open, token) is None,
    decreases i,
{
    if i > 0 {
        lemma_token_position(open.drop_first(), token, i - 1);
    }
}

/// A progress's params read as `{token: any, value: {kind: string, title?: string}}`.
pub open spec fn progress_of(p: JsonModel) -> Option<(JsonModel, Seq<char>, Option<Seq<char>>)> {
    match (member(p, "token"@), member(p, "value"@)) {
        (Some(t), Some(v)) => match (text_field(v, "kind"@), opt_text_field(v, "title"@)) {
            (Some(k), Some(title)) => Some((t, k, title)),
            _ => None,
        },
        _ => None,
    }
}

/// What one progress does to the mapping.
pub open spec fn on_progress_model(a: ExpertModel, token: JsonModel, kind: Seq<char>, title: Option<Seq<char>>) -> (ExpertModel, Option<StateModel>) {
    if kind == "begin"@ {
        match title {
            Some(t) => match phase_model(t) {
                Some(phase) => {
                    let s = StateModel { readiness: Readiness::Indexing, ..a.state };
                    (ExpertModel { state: s, open: a.open.push((token, phase)), ..a }, Some(s))
                },
                None => (a, None),
            },
            None => (a, None),
        }
    } else if kind == "end"@ {
        match token_position(a.open, token) {
            Some(k) => {
                let open = a.open.remove(k);
                let last = a.open[k].1 == Phase::Indexing;
                let s = if open.len() == 0 && last {
                    StateModel { readiness: Readiness::Ready, ..a.state }
                } else {
                    a.state
                };
                (ExpertModel { state: s, open, last_ended_indexing: last }, Some(s))
            },
            None => (a, None),
        }
    } else {
        (a, None)
    }
}

/// What the mapping makes of an upstream message.
pub open spec fn interpret_model(a: ExpertModel, v: ViewModel, body: Option<JsonModel>) -> (ExpertModel, Option<StateModel>) {
    let progress = match params_of(v, PROGRESS_METHOD@, body) {
        Some(p) => progress_of(p),
        None => None,
    };
    match progress {
        Some((t, k, title)) => on_progress_model(a, t, k, title),
        None => (a, None),
    }
}

impl ExpertAdapter {
    /// A mapping at the start.
    pub fn new() -> (r: Self)
        ensures
            r@ == (ExpertModel { state: initializing_model(), open: Seq::empty(), last_ended_indexing: false }),
    {
        let r = ExpertAdapter { state: ServerState::initializing(), open: Vec::new(), last_ended_indexing: false };
        assert(r@.open =~= Seq::<(JsonModel, Phase)>::empty());
        r
    }

    /// The state right after connecting.
    pub fn initial_state(&self) -> (r: ServerState)
        ensures
            r@ == initializing_model(),
    {
        ServerState::initializing()
    }

    /// No guarantee for any version.
    pub fn guarantees(&self) -> (r: ServerStateProvider)
        ensures
            r@ == notifications_only_model(),
    {
        ServerStateProvider::notifications_only()
    }

    fn position(&self, token: &Json) -> (r: Option<usize>)
        ensures
            match r {
                Some(k) => token_position(self@.open, token@) == Some(k as int) && k < self.open@.len()
                    && self@.open[k as int].0 == token@,
                None => token_position(self@.open, token@) is None,
            },
    {
        let ghost open = self@.open;
        let mut i: usize = 0;
        while i < self.open.len()
            invariant
                open == self@.open,
                i <= self.open@.len(),
                forall|k: int| 0 <= k < i ==> open[k].0 != token@,
            decreases self.open@.len() - i,
        {
            if json_eq(&self.open[i].0, token) {
                proof {
                    lemma_token_position(open, token@, i as int);
                }
                return Some(i);
            }
            i = i + 1;
        }
        proof {
            lemma_token_position(open, token@, i as int);
        }
        None
    }

    /// Reads the phase progress.
    pub fn interpret(&mut self, view: &MessageView, body: &[u8]) -> (r: Option<ServerState>)
        ensures
            (final(self)@, opt_state(r)) == interpret_model(old(self)@, view@, json_parse(body@)),
    {
        let p = match read_params(view, PROGRESS_METHOD, body) {
            Some(p) => p,
            None => return None,
        };
        let ghost pm = p@;
        let (kind, title) = match get(&p, "value") {
            Some(v) => match (text_member(v, "kind"), get_opt_text(v, "title")) {
                (Some(k), Some(t)) => (k.clone(), t),
                _ => return None,
            },
            None => return None,
        };
        let token = match take_member(p, "token") {
            Some(t) => t,
            None => return None,
        };
        assert(progress_of(pm) == Some((token@, kind@, crate::state::opt_view(title))));
        self.on_progress(token, kind.as_str(), title)
    }

    fn on_progress(&mut self, token: Json, kind: &str, title: Option<String>) -> (r: Option<ServerState>)
        ensures
            (final(self)@, opt_state(r)) == on_progress_model(old(self)@, token@, kind@, crate::state::opt_view(title)),
    {
        let ghost before = self@;
        if str_eq(kind, "begin") {
            let t = match &title {
                Some(t) => t,
                None => return None,
            };
            let phase = match phase_of(t.as_str()) {
                Some(phase) => phase,
                None => return None,
            };
            self.open.push((token, phase));
            self.state.readiness = Readiness::Indexing;
            assert(self@.open =~= before.open.push((token@, phase)));
            Some(self.state.copied())
        } else if str_eq(kind, "end") {
            let k = match self.position(&token) {
                Some(k) => k,
                None => return None,
            };
            let ghost vec_before = self.open@;
            let (_, phase) = self.open.remove(k);
            assert(phase == before.open[k as int].1);
            assert forall|j: int| 0 <= j < self@.open.len() implies #[trigger] self@.open[j] == before.open.remove(k as int)[j] by {
                if j < k {
                    assert(self.open@[j] == vec_before[j]);
                } else {
                    assert(self.open@[j] == vec_before[j + 1]);
                }
            }
            assert(self@.open =~= before.open.remove(k as int));
            self.last_ended_indexing = phase == Phase::Indexing;
            if self.open.len() == 0 && self.last_ended_indexing {
                self.state.readiness = Readiness::Ready;
            }
            Some(self.state.copied())
        } else {
            None
        }
    }
}

} // verus!
