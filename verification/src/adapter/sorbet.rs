//! The Sorbet mapping.
//!
//! Sorbet returns no `serverInfo`; what names it is `sorbet/showOperation`
//! (`{operationName, description, status: "start" | "end"}`). Operations that are not tied to
//! a request are counted: a `start` adds one and, once the state has been `ready` (a later
//! round), moves to `indexing`; an `end` takes one away, and the state is `ready` once the
//! count is back at zero. An `end` with nothing open is ignored. Operations that are the
//! processing of a request (`References`, `SymbolSearch`, `Rename`, `MoveMethod`) are not
//! readiness. Health is never signalled, and since Sorbet's version never appears in the
//! protocol, no guarantee is declared.

use vstd::prelude::*;

use crate::adapter::{params_of, read_params};
use crate::json::{JsonModel, json_parse, text_field, text_member};
use crate::peek::{MessageView, ViewModel};
use crate::state::{Readiness, ServerState, ServerStateProvider, StateModel, initializing_model, notifications_only_model, opt_state};
use crate::text::{str_eq, str_in};

verus! {

/// The name this mapping is known by.
pub const SERVER_NAME: &'static str = "sorbet";

/// The notification that reports an operation.
pub const SHOW_OPERATION_METHOD: &'static str = "sorbet/showOperation";

/// The operations that are the processing of a request, not readiness.
pub const REQUEST_TIED_OPERATIONS: [&'static str; 4] = ["References", "SymbolSearch", "Rename", "MoveMethod"];

/// The model of a [`SorbetAdapter`]: the state and the count of open operations.
pub ghost struct SorbetModel {
    pub state: StateModel,
    pub open_operations: nat,
}

/// The Sorbet mapping.
pub struct SorbetAdapter {
    state: ServerState,
    /// The count of open operations that are not tied to a request.
    open_operations: u32,
}

impl View for SorbetAdapter {
    type V = SorbetModel;

    closed spec fn view(&self) -> SorbetModel {
        SorbetModel { state: self.state@, open_operations: self.open_operations as nat }
    }
}

/// Whether an operation is the processing of a request.
pub open spec fn request_tied(name: Seq<char>) -> bool {
    exists|i: int| 0 <= i < 4 && REQUEST_TIED_OPERATIONS@[i]@ == name
}

/// What one operation report does. The count saturates at `u32::MAX`.
pub open spec fn on_operation_model(a: SorbetModel, name: Seq<char>, status: Seq<char>) -> (SorbetModel, Option<StateModel>) {
    if request_tied(name) {
        (a, None)
    } else if status == "start"@ {
        let count = if a.open_operations < u32::MAX { a.open_operations + 1 } else { a.open_operations };
        let s = if a.state.readiness == Readiness::Ready {
            StateModel { readiness: Readiness::Indexing, ..a.state }
        } else {
            a.state
        };
        (SorbetModel { state: s, open_operations: count }, Some(s))
    } else if status == "end"@ {
        if a.open_operations == 0 {
            (a, None)
        } else {
            let count = (a.open_operations - 1) as nat;
            let s = if count == 0 { StateModel { readiness: Readiness::Ready, ..a.state } } else { a.state };
            (SorbetModel { state: s, open_operations: count }, Some(s))
        }
    } else {
        (a, None)
    }
}

/// An operation report's params read as `{operationName: string, status: string}`.
pub open spec fn operation_of(p: JsonModel) -> Option<(Seq<char>, Seq<char>)> {
    match (text_field(p, "operationName"@), text_field(p, "status"@)) {
        (Some(n), Some(s)) => Some((n, s)),
        _ => None,
    }
}

/// What the mapping makes of an upstream message: only `sorbet/showOperation`
/// notifications are read.
pub open spec fn interpret_model(a: SorbetModel, v: ViewModel, body: Option<JsonModel>) -> (SorbetModel, Option<StateModel>) {
    match params_of(v, SHOW_OPERATION_METHOD@, body) {
        Some(p) => match operation_of(p) {
            Some((n, s)) => on_operation_model(a, n, s),
            None => (a, None),
        },
        None => (a, None),
    }
}

impl SorbetAdapter {
    /// A mapping at the start: `initializing`, nothing open.
    pub fn new() -> (r: Self)
        ensures
            r@ == (SorbetModel { state: initializing_model(), open_operations: 0 }),
    {
        SorbetAdapter { state: ServerState::initializing(), open_operations: 0 }
    }

    /// The state right after connecting.
    /// The state the mapping has read so far.
    pub fn state(&self) -> (r: ServerState)
        ensures
            r@ == self@.state,
    {
        self.state.copied()
    }

    pub fn initial_state(&self) -> (r: ServerState)
        ensures
            r@ == initializing_model(),
    {
        ServerState::initializing()
    }

    /// Never a guarantee: the version never appears in the protocol.
    pub fn guarantees(&self) -> (r: ServerStateProvider)
        ensures
            r@ == notifications_only_model(),
    {
        ServerStateProvider::notifications_only()
    }

    fn on_operation(&mut self, name: &str, status: &str) -> (r: Option<ServerState>)
        ensures
            (final(self)@, opt_state(r)) == on_operation_model(old(self)@, name@, status@),
    {
        let tied = REQUEST_TIED_OPERATIONS;
        if str_in(name, &tied) {
            return None;
        }
        if str_eq(status, "start") {
            if self.open_operations < u32::MAX {
                self.open_operations = self.open_operations + 1;
            }
            if self.state.readiness == Readiness::Ready {
                self.state.readiness = Readiness::Indexing;
            }
        } else if str_eq(status, "end") {
            if self.open_operations == 0 {
                return None;
            }
            self.open_operations = self.open_operations - 1;
            if self.open_operations == 0 {
                self.state.readiness = Readiness::Ready;
            }
        } else {
            return None;
        }
        Some(self.state.copied())
    }

    /// Reads the operation reports.
    pub fn interpret(&mut self, view: &MessageView, body: &[u8]) -> (r: Option<ServerState>)
        ensures
            (final(self)@, opt_state(r)) == interpret_model(old(self)@, view@, json_parse(body@)),
    {
        let p = match read_params(view, SHOW_OPERATION_METHOD, body) {
            Some(p) => p,
            None => return None,
        };
        let name = match text_member(&p, "operationName") {
            Some(n) => n,
            None => return None,
        };
        let status = match text_member(&p, "status") {
            Some(s) => s,
            None => return None,
        };
        self.on_operation(name.as_str(), status.as_str())
    }
}

} // verus!
