//! The nixd mapping.
//!
//! nixd is identified by `serverInfo.name` "nixd". Its evaluations of nixpkgs and of the
//! NixOS options are work-done progresses whose title starts with "evaluating "; several may
//! run at once. The `begin` of one is `indexing`; the `end` of the last one still open is
//! `ready`. Health is never signalled. No guarantee is declared for any version.

use vstd::prelude::*;

use crate::adapter::{lemma_token_position, params_of, read_params, token_models, token_position};
use crate::adapter::haxe_language_server::progress_of;
use crate::json::{Json, JsonModel, get, get_opt_text, json_eq, json_parse, take_member, text_member};
use crate::peek::{MessageView, ViewModel};
use crate::state::{Readiness, ServerState, ServerStateProvider, StateModel, initializing_model, notifications_only_model, opt_state, opt_view};
use crate::text::{starts, starts_with, str_eq};

verus! {

/// The name nixd calls itself, lower-cased.
pub const SERVER_NAME: &'static str = "nixd";

/// The progress notification.
pub const PROGRESS_METHOD: &'static str = "$/progress";

/// How the title of an evaluation progress begins.
pub const EVALUATING_PREFIX: &'static str = "evaluating ";

/// The model of a [`NixdAdapter`]: the state, and the tokens of the evaluations begun and not
/// ended.
pub ghost struct NixdModel {
    pub state: StateModel,
    pub open: Seq<JsonModel>,
}

/// The nixd mapping.
pub struct NixdAdapter {
    state: ServerState,
    /// The evaluations begun and not ended, by their tokens.
    open: Vec<Json>,
}

impl View for NixdAdapter {
    type V = NixdModel;

    closed spec fn view(&self) -> NixdModel {
        NixdModel { state: self.state@, open: token_models(self.open@) }
    }
}

/// What one progress does: the `begin` of an evaluation opens its token and is `indexing`;
/// the `end` of an open token closes it, and is `ready` once none is left open.
pub open spec fn on_progress_model(a: NixdModel, token: JsonModel, kind: Seq<char>, title: Option<Seq<char>>) -> (NixdModel, Option<StateModel>) {
    if kind == "begin"@ {
        match title {
            Some(t) => if starts(t, EVALUATING_PREFIX@) {
                let s = StateModel { readiness: Readiness::Indexing, ..a.state };
                (NixdModel { state: s, open: a.open.push(token) }, Some(s))
            } else {
                (a, None)
            },
            None => (a, None),
        }
    } else if kind == "end"@ {
        match token_position(a.open, token) {
            Some(k) => {
                let open = a.open.remove(k);
                if open.len() != 0 {
                    (NixdModel { open, ..a }, None)
                } else {
                    let s = StateModel { readiness: Readiness::Ready, ..a.state };
                    (NixdModel { state: s, open }, Some(s))
                }
            },
            None => (a, None),
        }
    } else {
        (a, None)
    }
}

/// What the mapping makes of an upstream message: only `$/progress` notifications are read.
pub open spec fn interpret_model(a: NixdModel, v: ViewModel, body: Option<JsonModel>) -> (NixdModel, Option<StateModel>) {
    match params_of(v, PROGRESS_METHOD@, body) {
        Some(p) => match progress_of(p) {
            Some((t, k, title)) => on_progress_model(a, t, k, title),
            None => (a, None),
        },
        None => (a, None),
    }
}

impl NixdAdapter {
    /// A mapping at the start: `initializing`, nothing open.
    pub fn new() -> (r: Self)
        ensures
            r@ == (NixdModel { state: initializing_model(), open: Seq::empty() }),
    {
        let r = NixdAdapter { state: ServerState::initializing(), open: Vec::new() };
        assert(r@.open =~= Seq::<JsonModel>::empty());
        r
    }

    /// The state right after connecting.
    /// The state the mapping has read so far.
    pub fn state(&self) -> (r: ServerState)
        ensures
            r@ == self@.state,
    {
        self.state.copied()
    }

    pub fn initial_state(&self) -> (r: ServerState)
        ensures
            r@ == initializing_model(),
    {
        ServerState::initializing()
    }

    /// Never a guarantee, whatever the version.
    pub fn guarantees(&self) -> (r: ServerStateProvider)
        ensures
            r@ == notifications_only_model(),
    {
        ServerStateProvider::notifications_only()
    }

    fn position(&self, token: &Json) -> (r: Option<usize>)
        ensures
            match r {
                Some(k) => token_position(self@.open, token@) == Some(k as int) && k < self.open@.len(),
                None => token_position(self@.open, token@) is None,
            },
    {
        let ghost open = self@.open;
        let mut i: usize = 0;
        while i < self.open.len()
            invariant
                open == self@.open,
                i <= self.open@.len(),
                forall|k: int| 0 <= k < i ==> open[k] != token@,
            decreases self.open@.len() - i,
        {
            if json_eq(&self.open[i], token) {
                proof {
                    lemma_token_position(open, token@, i as int);
                }
                return Some(i);
            }
            i = i + 1;
        }
        proof {
            lemma_token_position(open, token@, i as int);
        }
        None
    }

    fn on_progress(&mut self, token: Json, kind: &str, title: Option<String>) -> (r: Option<ServerState>)
        ensures
            (final(self)@, opt_state(r)) == on_progress_model(old(self)@, token@, kind@, opt_view(title)),
    {
        let ghost before = self@;
        if str_eq(kind, "begin") {
            let t = match &title {
                Some(t) => t,
                None => return None,
            };
            if !starts_with(t.as_str(), EVALUATING_PREFIX) {
                return None;
            }
            self.open.push(token);
            assert(self@.open =~= before.open.push(token@));
            self.state.readiness = Readiness::Indexing;
            Some(self.state.copied())
        } else if str_eq(kind, "end") {
            let k = match self.position(&token) {
                Some(k) => k,
                None => return None,
            };
            let ghost vec_before = self.open@;
            let _ = self.open.remove(k);
            assert forall|j: int| 0 <= j < self@.open.len() implies #[trigger] self@.open[j] == before.open.remove(k as int)[j] by {
                if j < k {
                    assert(self.open@[j] == vec_before[j]);
                } else {
                    assert(self.open@[j] == vec_before[j + 1]);
                }
            }
            assert(self@.open =~= before.open.remove(k as int));
            if self.open.len() != 0 {
                return None;
            }
            self.state.readiness = Readiness::Ready;
            Some(self.state.copied())
        } else {
            None
        }
    }

    /// Reads the evaluation progresses.
    pub fn interpret(&mut self, view: &MessageView, body: &[u8]) -> (r: Option<ServerState>)
        ensures
            (final(self)@, opt_state(r)) == interpret_model(old(self)@, view@, json_parse(body@)),
    {
        let p = match read_params(view, PROGRESS_METHOD, body) {
            Some(p) => p,
            None => return None,
        };
        let ghost pm = p@;
        let (kind, title) = match get(&p, "value") {
            Some(v) => match (text_member(v, "kind"), get_opt_text(v, "title")) {
                (Some(k), Some(t)) => (k.clone(), t),
                _ => return None,
            },
            None => return None,
        };
        let token = match take_member(p, "token") {
            Some(t) => t,
            None => return None,
        };
        assert(progress_of(pm) == Some((token@, kind@, opt_view(title))));
        self.on_progress(token, kind.as_str(), title)
    }
}

} // verus!
