//! The Gleam language server mapping.
//!
//! Gleam returns no `serverInfo`; it is recognized by the `begin` of its dependency download
//! progress. That progress (token `downloading-dependencies`) is its only signal: readiness
//! is `ready` when it ends and `indexing` when it begins again. The version is not observable,
//! so nothing is guaranteed.

use vstd::prelude::*;

use crate::adapter::{params_of, read_params};
use crate::json::{Json, JsonModel, get, get_opt_text, json_parse, member, opt_text_field, parse_json, text_field, text_member};
use crate::peek::{MessageView, ViewModel};
use crate::state::{Readiness, ServerState, ServerStateProvider, StateModel, initializing_model, notifications_only_model, opt_state};
use crate::text::str_eq;

verus! {

/// The name Gleam is known by.
pub const SERVER_NAME: &'static str = "gleam";

/// The progress notification.
pub const PROGRESS_METHOD: &'static str = "$/progress";

/// The token of the dependency download progress.
pub const DEPENDENCY_TOKEN: &'static str = "downloading-dependencies";

/// The title of the dependency download progress.
pub const DEPENDENCY_PROGRESS_TITLE: &'static str = "Downloading Gleam dependencies";

/// A progress's params read as `{token: string, value: {kind: string, title?: string}}`:
/// the token, the kind and the title.
pub open spec fn progress_of(p: JsonModel) -> Option<(Seq<char>, Seq<char>, Option<Seq<char>>)> {
    match (text_field(p, "token"@), member(p, "value"@)) {
        (Some(t), Some(v)) => match (text_field(v, "kind"@), opt_text_field(v, "title"@)) {
            (Some(k), Some(title)) => Some((t, k, title)),
            _ => None,
        },
        _ => None,
    }
}

/// Reads a progress's params.
fn read_progress(p: &Json) -> (r: Option<(String, String, Option<String>)>)
    ensures
        match r {
            Some((t, k, title)) => progress_of(p@) == Some((t@, k@, crate::state::opt_view(title))),
            None => progress_of(p@) is None,
        },
{
    let t = match text_member(p, "token") {
        Some(t) => t.clone(),
        None => return None,
    };
    let v = match get(p, "value") {
        Some(v) => v,
        None => return None,
    };
    let k = match text_member(v, "kind") {
        Some(k) => k.clone(),
        None => return None,
    };
    let title = match get_opt_text(v, "title") {
        Some(title) => title,
        None => return None,
    };
    Some((t, k, title))
}

/// Whether a body is the `begin` of the dependency download, Gleam's identity announcement.
pub open spec fn dependency_begin(body: Option<JsonModel>) -> bool {
    &&& body matches Some(j)
    &&& member(j, "params"@) matches Some(p)
    &&& progress_of(p) matches Some((_, k, title))
    &&& k == "begin"@
    &&& title == Some(DEPENDENCY_PROGRESS_TITLE@)
}

/// Whether a body is the `begin` of the dependency download.
pub fn is_dependency_progress_begin(body: &[u8]) -> (r: bool)
    ensures
        r == dependency_begin(json_parse(body@)),
{
    let j = match parse_json(body) {
        Some(j) => j,
        None => return false,
    };
    let p = match get(&j, "params") {
        Some(p) => p,
        None => return false,
    };
    match read_progress(p) {
        Some((_, k, title)) => str_eq(k.as_str(), "begin") && match &title {
            Some(t) => str_eq(t.as_str(), DEPENDENCY_PROGRESS_TITLE),
            None => false,
        },
        None => false,
    }
}

/// The Gleam mapping.
pub struct GleamAdapter {
    state: ServerState,
}

impl View for GleamAdapter {
    type V = StateModel;

    closed spec fn view(&self) -> StateModel {
        self.state@
    }
}

/// What the mapping makes of an upstream message: the dependency download's `end` is ready;
/// its `begin` after that is indexing.
pub open spec fn interpret_model(a: StateModel, v: ViewModel, body: Option<JsonModel>) -> (StateModel, Option<StateModel>) {
    let progress = match params_of(v, PROGRESS_METHOD@, body) {
        Some(p) => progress_of(p),
        None => None,
    };
    match progress {
        Some((t, k, _)) => if t != DEPENDENCY_TOKEN@ {
            (a, None)
        } else if k == "begin"@ {
            if a.readiness != Readiness::Ready {
                (a, None)
            } else {
                let s = StateModel { readiness: Readiness::Indexing, ..a };
                (s, Some(s))
            }
        } else if k == "end"@ {
            let s = StateModel { readiness: Readiness::Ready, ..a };
            (s, Some(s))
        } else {
            (a, None)
        },
        None => (a, None),
    }
}

impl GleamAdapter {
    /// A mapping at the start.
    pub fn new() -> (r: Self)
        ensures
            r@ == initializing_model(),
    {
        GleamAdapter { state: ServerState::initializing() }
    }

    /// The state right after connecting.
    pub fn initial_state(&self) -> (r: ServerState)
        ensures
            r@ == initializing_model(),
    {
        ServerState::initializing()
    }

    /// No guarantee for any version: the version is not observable.
    pub fn guarantees(&self) -> (r: ServerStateProvider)
        ensures
            r@ == notifications_only_model(),
    {
        ServerStateProvider::notifications_only()
    }

    /// Reads the dependency download progress.
    pub fn interpret(&mut self, view: &MessageView, body: &[u8]) -> (r: Option<ServerState>)
        ensures
            (final(self)@, opt_state(r)) == interpret_model(old(self)@, view@, json_parse(body@)),
    {
        let p = match read_params(view, PROGRESS_METHOD, body) {
            Some(p) => p,
            None => return None,
        };
        let (t, k, _) = match read_progress(&p) {
            Some(x) => x,
            None => return None,
        };
        if !str_eq(t.as_str(), DEPENDENCY_TOKEN) {
            return None;
        }
        if str_eq(k.as_str(), "begin") {
            if self.state.readiness != Readiness::Ready {
                return None;
            }
            self.state.readiness = Readiness::Indexing;
        } else if str_eq(k.as_str(), "end") {
            self.state.readiness = Readiness::Ready;
        } else {
            return None;
        }
        Some(self.state.copied())
    }
}

} // verus!
