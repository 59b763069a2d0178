//! The Dart analysis server mapping.
//!
//! The Dart analysis server reports its analysis as a work-done progress with the token
//! `ANALYZING`: `begin` when it starts analyzing, `end` when it is done. Changes on disk are
//! noticed by the server's own watcher asynchronously, with no signal before its `begin`, so
//! freshness is promised for `didChange` only.

use vstd::prelude::*;

use crate::adapter::{params_of, read_params};
use crate::json::{Json, JsonModel, get, json_parse, member, text_field, text_member};
use crate::peek::{MessageView, ViewModel};
use crate::state::{FileChangeType, Readiness, ServerState, ServerStateProvider, StateModel, ProviderModel, initializing_model, notifications_only_model, opt_state, workspace_model};
use crate::text::{str_eq, str_in};

verus! {

/// The name the Dart analysis server calls itself, lower-cased.
pub const SERVER_NAME: &'static str = "dart sdk lsp analysis server";

/// The progress notification.
pub const PROGRESS_METHOD: &'static str = "$/progress";

/// The token of the analysis progress.
pub const ANALYZING_TOKEN: &'static str = "ANALYZING";

/// Versions the conformance tests passed on.
pub const TESTED_VERSIONS: [&'static str; 1] = ["3.13.0"];

/// The model of a [`DartAdapter`].
pub ghost struct DartModel {
    pub version_is_tested: bool,
    pub state: StateModel,
}

/// The Dart analysis server mapping.
pub struct DartAdapter {
    version_is_tested: bool,
    state: ServerState,
}

impl View for DartAdapter {
    type V = DartModel;

    closed spec fn view(&self) -> DartModel {
        DartModel { version_is_tested: self.version_is_tested, state: self.state@ }
    }
}

/// The `kind` of an `ANALYZING` progress, when the params read.
pub open spec fn analyzing_kind(p: JsonModel) -> Option<Seq<char>> {
    match (text_field(p, "token"@), member(p, "value"@)) {
        (Some(t), Some(v)) => match text_field(v, "kind"@) {
            Some(k) => if t == ANALYZING_TOKEN@ {
                Some(k)
            } else {
                None
            },
            None => None,
        },
        _ => None,
    }
}

/// What the mapping makes of an upstream message: `begin` is indexing, `end` is ready.
pub open spec fn interpret_model(a: DartModel, v: ViewModel, body: Option<JsonModel>) -> (DartModel, Option<StateModel>) {
    let kind = match params_of(v, PROGRESS_METHOD@, body) {
        Some(p) => analyzing_kind(p),
        None => None,
    };
    match kind {
        Some(k) => if k == "begin"@ {
            let s = StateModel { readiness: Readiness::Indexing, ..a.state };
            (DartModel { state: s, ..a }, Some(s))
        } else if k == "end"@ {
            let s = StateModel { readiness: Readiness::Ready, ..a.state };
            (DartModel { state: s, ..a }, Some(s))
        } else {
            (a, None)
        },
        None => (a, None),
    }
}

/// The guarantees of a mapping: for a tested version, workspace coverage and freshness for
/// `didChange` only.
pub open spec fn guarantees_model(a: DartModel) -> ProviderModel {
    if a.version_is_tested {
        workspace_model(Seq::empty(), Seq::empty())
    } else {
        notifications_only_model()
    }
}

impl DartAdapter {
    /// A Dart server that does not announce a version. Declares no guarantee.
    pub fn new() -> (r: Self)
        ensures
            r@ == (DartModel { version_is_tested: false, state: initializing_model() }),
    {
        Self::for_version(None)
    }

    /// The mapping for `version`.
    pub fn for_version(version: Option<&str>) -> (r: Self)
        ensures
            r@ == (DartModel {
                version_is_tested: version matches Some(v) && TESTED_VERSIONS@[0]@ == v@,
                state: initializing_model(),
            }),
    {
        let version_is_tested = match version {
            Some(v) => {
                let t = TESTED_VERSIONS;
                str_eq(t[0], v)
            },
            None => false,
        };
        DartAdapter { version_is_tested, state: ServerState::initializing() }
    }

    /// The state right after connecting.
    pub fn initial_state(&self) -> (r: ServerState)
        ensures
            r@ == initializing_model(),
    {
        ServerState::initializing()
    }

    /// The guarantee to declare.
    pub fn guarantees(&self) -> (r: ServerStateProvider)
        ensures
            r@ == guarantees_model(self@),
    {
        if self.version_is_tested {
            let caps: [(&str, u64); 0] = [];
            let changes: [FileChangeType; 0] = [];
            let r = ServerStateProvider::workspace(&caps, &changes);
            proof {
                assert(crate::state::caps_arg_view(caps@) =~= Seq::empty());
                assert(changes@ =~= Seq::<FileChangeType>::empty());
            }
            r
        } else {
            ServerStateProvider::notifications_only()
        }
    }

    /// Reads the analysis progress.
    pub fn interpret(&mut self, view: &MessageView, body: &[u8]) -> (r: Option<ServerState>)
        ensures
            (final(self)@, opt_state(r)) == interpret_model(old(self)@, view@, json_parse(body@)),
    {
        let p = match read_params(view, PROGRESS_METHOD, body) {
            Some(p) => p,
            None => return None,
        };
        let t = match text_member(&p, "token") {
            Some(t) => t,
            None => return None,
        };
        let v = match get(&p, "value") {
            Some(v) => v,
            None => return None,
        };
        let k = match text_member(v, "kind") {
            Some(k) => k,
            None => return None,
        };
        if !str_eq(t.as_str(), ANALYZING_TOKEN) {
            return None;
        }
        if str_eq(k.as_str(), "begin") {
            self.state.readiness = Readiness::Indexing;
        } else if str_eq(k.as_str(), "end") {
            self.state.readiness = Readiness::Ready;
        } else {
            return None;
        }
        Some(self.state.copied())
    }
}

} // verus!
