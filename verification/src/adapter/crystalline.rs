//! The crystalline (Crystal) mapping.
//!
//! crystalline returns no `serverInfo`; it is recognized by its `window/logMessage` listing
//! the projects it found. It says "LSP server is ready." once, and has no signal for health
//! or for reindexing, so nothing is guaranteed.

use vstd::prelude::*;

use crate::adapter::{params_of, read_params};
use crate::json::{JsonModel, json_parse, text_field, text_member};
use crate::peek::{MessageView, ViewModel};
use crate::state::{Readiness, ServerState, ServerStateProvider, StateModel, ProviderModel, initializing_model, notifications_only_model, opt_state};
use crate::text::{starts, starts_with, str_eq};

verus! {

/// The name crystalline is known by.
pub const SERVER_NAME: &'static str = "crystalline";

/// The log notification crystalline speaks through.
pub const LOG_MESSAGE_METHOD: &'static str = "window/logMessage";

/// How the log listing the found projects begins (crystalline quotes the whole line).
pub const FOUND_PROJECTS_PREFIX: &'static str = "\"[workspace] Found projects:";

/// The log line that says the server is ready.
pub const READY_MESSAGE: &'static str = "LSP server is ready.";

/// Whether a log line is crystalline's identity announcement.
pub fn identity_from_log(message: &str) -> (r: bool)
    ensures
        r == starts(message@, FOUND_PROJECTS_PREFIX@),
{
    starts_with(message, FOUND_PROJECTS_PREFIX)
}

/// The crystalline mapping.
pub struct CrystallineAdapter {
    state: ServerState,
}

impl View for CrystallineAdapter {
    type V = StateModel;

    closed spec fn view(&self) -> StateModel {
        self.state@
    }
}

/// What the mapping makes of an upstream message: the ready log moves readiness to `ready`,
/// once.
pub open spec fn interpret_model(a: StateModel, v: ViewModel, body: Option<JsonModel>) -> (StateModel, Option<StateModel>) {
    match params_of(v, LOG_MESSAGE_METHOD@, body) {
        Some(p) => match text_field(p, "message"@) {
            Some(m) => if m == READY_MESSAGE@ && a.readiness != Readiness::Ready {
                let s = StateModel { readiness: Readiness::Ready, ..a };
                (s, Some(s))
            } else {
                (a, None)
            },
            None => (a, None),
        },
        None => (a, None),
    }
}

impl CrystallineAdapter {
    /// A mapping at the start.
    pub fn new() -> (r: Self)
        ensures
            r@ == initializing_model(),
    {
        CrystallineAdapter { state: ServerState::initializing() }
    }

    /// The state right after connecting.
    /// The state the mapping has read so far.
    pub fn state(&self) -> (r: ServerState)
        ensures
            r@ == self@,
    {
        self.state.copied()
    }

    pub fn initial_state(&self) -> (r: ServerState)
        ensures
            r@ == initializing_model(),
    {
        ServerState::initializing()
    }

    /// No guarantee for any version: the version is not observable.
    pub fn guarantees(&self) -> (r: ServerStateProvider)
        ensures
            r@ == notifications_only_model(),
    {
        ServerStateProvider::notifications_only()
    }

    /// Reads the ready log.
    pub fn interpret(&mut self, view: &MessageView, body: &[u8]) -> (r: Option<ServerState>)
        ensures
            (final(self)@, opt_state(r)) == interpret_model(old(self)@, view@, json_parse(body@)),
    {
        let p = match read_params(view, LOG_MESSAGE_METHOD, body) {
            Some(p) => p,
            None => return None,
        };
        let m = match text_member(&p, "message") {
            Some(m) => m,
            None => return None,
        };
        if !str_eq(m.as_str(), READY_MESSAGE) || self.state.readiness == Readiness::Ready {
            return None;
        }
        self.state.readiness = Readiness::Ready;
        Some(self.state.copied())
    }
}

} // verus!
