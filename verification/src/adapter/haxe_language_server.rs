//! The haxe-language-server mapping.
//!
//! The Haxe language server returns no `serverInfo`; it is recognized by its `Haxe Path: …`
//! log line. Its startup is a set of work-done progresses (building the cache, parsing the
//! classpaths, building the refactoring cache); readiness is `ready` once every one of them
//! has ended. Health is `ok` once it logs "Haxe connected!", and `error` when it reports a
//! failed version check, an invalid compiler argument, or that Haxe keeps crashing. The
//! version never appears on the protocol, so nothing is guaranteed.

use vstd::prelude::*;

use crate::adapter::{lemma_token_position, params_of, read_params, token_models, token_position};
use crate::json::{Json, JsonModel, as_u64, get, get_opt_text, json_eq, json_parse, member, opt_text_field, take_member, text_field, text_member, u64_of};
use crate::peek::{MessageView, ViewModel, is_notification_model};
use crate::state::{Health, Readiness, ServerState, ServerStateProvider, StateModel, initializing_model, notifications_only_model, opt_state, opt_view};
use crate::text::{starts, starts_with, str_eq, str_in};

verus! {

/// The name the Haxe language server is known by.
pub const SERVER_NAME: &'static str = "haxe-language-server";

/// The progress notification.
pub const PROGRESS_METHOD: &'static str = "$/progress";

/// The log notification.
pub const LOG_MESSAGE_METHOD: &'static str = "window/logMessage";

/// The message notification.
pub const SHOW_MESSAGE_METHOD: &'static str = "window/showMessage";

/// The notification that Haxe keeps crashing.
pub const KEEPS_CRASHING_METHOD: &'static str = "haxe/haxeKeepsCrashing";

/// How the identity log line begins.
pub const PATH_LOG_PREFIX: &'static str = "Haxe Path: ";

/// The log line that says Haxe is connected.
pub const CONNECTED_LOG: &'static str = "Haxe connected!";

/// How a failed version check is reported.
pub const VERSION_CHECK_FAILED_PREFIX: &'static str = "Haxe version check failed";

/// How an invalid compiler argument is reported.
pub const INVALID_ARGUMENT_PREFIX: &'static str = "Invalid compiler argument";

/// The message attached when Haxe keeps crashing.
pub const KEEPS_CRASHING_MESSAGE: &'static str = "Haxe keeps crashing";

/// The titles of the startup progresses.
pub const STARTUP_TITLES: [&'static str; 3] = [
    "Haxe: Building Cache...",
    "Haxe: Parsing Classpaths...",
    "Haxe: Building Refactoring Cache\u{2026}...",
];

/// Whether a log line is the Haxe language server's identity announcement.
pub fn identity_from_log(message: &str) -> (r: bool)
    ensures
        r == starts(message@, PATH_LOG_PREFIX@),
{
    starts_with(message, PATH_LOG_PREFIX)
}

/// Whether a title is one of the startup progresses.
pub open spec fn startup_title(t: Seq<char>) -> bool {
    exists|i: int| 0 <= i < 3 && STARTUP_TITLES@[i]@ == t
}

/// The model of a [`HaxeLanguageServerAdapter`].
pub ghost struct HaxeModel {
    pub state: StateModel,
    pub open: Seq<JsonModel>,
}

/// The haxe-language-server mapping.
pub struct HaxeLanguageServerAdapter {
    state: ServerState,
    /// The startup progresses begun and not ended, by their tokens.
    open: Vec<Json>,
}

impl View for HaxeLanguageServerAdapter {
    type V = HaxeModel;

    closed spec fn view(&self) -> HaxeModel {
        HaxeModel { state: self.state@, open: token_models(self.open@) }
    }
}

/// Health and message set; a state that does not change reports nothing.
pub open spec fn set_health_model(a: HaxeModel, health: Health, message: Option<Seq<char>>) -> (HaxeModel, Option<StateModel>) {
    let next = StateModel { health, message, ..a.state };
    if next == a.state {
        (a, None)
    } else {
        (HaxeModel { state: next, ..a }, Some(next))
    }
}

/// What one startup progress does to the mapping.
pub open spec fn on_progress_model(a: HaxeModel, token: JsonModel, kind: Seq<char>, title: Option<Seq<char>>) -> (HaxeModel, Option<StateModel>) {
    if kind == "begin"@ {
        match title {
            Some(t) => if !startup_title(t) {
                (a, None)
            } else {
                let open = a.open.push(token);
                if a.state.readiness != Readiness::Ready {
                    (HaxeModel { open, ..a }, None)
                } else {
                    let s = StateModel { readiness: Readiness::Indexing, ..a.state };
                    (HaxeModel { state: s, open }, Some(s))
                }
            },
            None => (a, None),
        }
    } else if kind == "end"@ {
        match token_position(a.open, token) {
            Some(k) => {
                let open = a.open.remove(k);
                if open.len() != 0 || a.state.readiness == Readiness::Ready {
                    (HaxeModel { open, ..a }, None)
                } else {
                    let s = StateModel { readiness: Readiness::Ready, ..a.state };
                    (HaxeModel { state: s, open }, Some(s))
                }
            },
            None => (a, None),
        }
    } else {
        (a, None)
    }
}

/// A progress's params read as `{token: any, value: {kind: string, title?: string}}`.
pub open spec fn progress_of(p: JsonModel) -> Option<(JsonModel, Seq<char>, Option<Seq<char>>)> {
    match (member(p, "token"@), member(p, "value"@)) {
        (Some(t), Some(v)) => match (text_field(v, "kind"@), opt_text_field(v, "title"@)) {
            (Some(k), Some(title)) => Some((t, k, title)),
            _ => None,
        },
        _ => None,
    }
}

/// A `window/showMessage`'s params read as `{type: u8, message: string}`.
pub open spec fn show_message_of(p: JsonModel) -> Option<(u64, Seq<char>)> {
    match (member(p, "type"@), text_field(p, "message"@)) {
        (Some(t), Some(m)) => match u64_of(t) {
            Some(k) => if k <= 255 {
                Some((k, m))
            } else {
                None
            },
            None => None,
        },
        _ => None,
    }
}

/// What the mapping makes of an upstream message.
pub open spec fn interpret_model(a: HaxeModel, v: ViewModel, body: Option<JsonModel>) -> (HaxeModel, Option<StateModel>) {
    if !is_notification_model(v) {
        (a, None)
    } else if v.method == Some(PROGRESS_METHOD@) {
        match params_of(v, PROGRESS_METHOD@, body) {
            Some(p) => match progress_of(p) {
                Some((t, k, title)) => on_progress_model(a, t, k, title),
                None => (a, None),
            },
            None => (a, None),
        }
    } else if v.method == Some(LOG_MESSAGE_METHOD@) {
        match params_of(v, LOG_MESSAGE_METHOD@, body) {
            Some(p) => match text_field(p, "message"@) {
                Some(m) => if m == CONNECTED_LOG@ {
                    set_health_model(a, Health::Okay, None)
                } else {
                    (a, None)
                },
                None => (a, None),
            },
            None => (a, None),
        }
    } else if v.method == Some(SHOW_MESSAGE_METHOD@) {
        match params_of(v, SHOW_MESSAGE_METHOD@, body) {
            Some(p) => match show_message_of(p) {
                Some((k, m)) => if k == 1 && (starts(m, VERSION_CHECK_FAILED_PREFIX@) || starts(m, INVALID_ARGUMENT_PREFIX@)) {
                    set_health_model(a, Health::Error, Some(m))
                } else {
                    (a, None)
                },
                None => (a, None),
            },
            None => (a, None),
        }
    } else if v.method == Some(KEEPS_CRASHING_METHOD@) {
        set_health_model(a, Health::Error, Some(KEEPS_CRASHING_MESSAGE@))
    } else {
        (a, None)
    }
}

impl HaxeLanguageServerAdapter {
    /// A mapping at the start.
    pub fn new() -> (r: Self)
        ensures
            r@ == (HaxeModel { state: initializing_model(), open: Seq::empty() }),
    {
        let r = HaxeLanguageServerAdapter { state: ServerState::initializing(), open: Vec::new() };
        assert(r@.open =~= Seq::<JsonModel>::empty());
        r
    }

    /// The state right after connecting.
    /// The state the mapping has read so far.
    pub fn state(&self) -> (r: ServerState)
        ensures
            r@ == self@.state,
    {
        self.state.copied()
    }

    pub fn initial_state(&self) -> (r: ServerState)
        ensures
            r@ == initializing_model(),
    {
        ServerState::initializing()
    }

    /// No guarantee for any version.
    pub fn guarantees(&self) -> (r: ServerStateProvider)
        ensures
            r@ == notifications_only_model(),
    {
        ServerStateProvider::notifications_only()
    }

    fn set_health(&mut self, health: Health, message: Option<String>) -> (r: Option<ServerState>)
        ensures
            (final(self)@, opt_state(r)) == set_health_model(old(self)@, health, opt_view(message)),
    {
        let next = ServerState { health, readiness: self.state.readiness, message };
        if next.same_as(&self.state) {
            return None;
        }
        self.state = next;
        Some(self.state.copied())
    }

    fn position(&self, token: &Json) -> (r: Option<usize>)
        ensures
            match r {
                Some(k) => token_position(self@.open, token@) == Some(k as int) && k < self.open@.len(),
                None => token_position(self@.open, token@) is None,
            },
    {
        let ghost open = self@.open;
        let mut i: usize = 0;
        while i < self.open.len()
            invariant
                open == self@.open,
                i <= self.open@.len(),
                forall|k: int| 0 <= k < i ==> open[k] != token@,
            decreases self.open@.len() - i,
        {
            if json_eq(&self.open[i], token) {
                proof {
                    lemma_token_position(open, token@, i as int);
                }
                return Some(i);
            }
            i = i + 1;
        }
        proof {
            lemma_token_position(open, token@, i as int);
        }
        None
    }

    fn on_progress(&mut self, token: Json, kind: &str, title: Option<String>) -> (r: Option<ServerState>)
        ensures
            (final(self)@, opt_state(r)) == on_progress_model(old(self)@, token@, kind@, opt_view(title)),
    {
        let ghost before = self@;
        if str_eq(kind, "begin") {
            let t = match &title {
                Some(t) => t,
                None => return None,
            };
            let titles = STARTUP_TITLES;
            if !str_in(t.as_str(), &titles) {
                return None;
            }
            self.open.push(token);
            assert(self@.open =~= before.open.push(token@));
            if self.state.readiness != Readiness::Ready {
                return None;
            }
            self.state.readiness = Readiness::Indexing;
            Some(self.state.copied())
        } else if str_eq(kind, "end") {
            let k = match self.position(&token) {
                Some(k) => k,
                None => return None,
            };
            let ghost vec_before = self.open@;
            let _ = self.open.remove(k);
            assert forall|j: int| 0 <= j < self@.open.len() implies #[trigger] self@.open[j] == before.open.remove(k as int)[j] by {
                if j < k {
                    assert(self.open@[j] == vec_before[j]);
                } else {
                    assert(self.open@[j] == vec_before[j + 1]);
                }
            }
            assert(self@.open =~= before.open.remove(k as int));
            if self.open.len() != 0 || self.state.readiness == Readiness::Ready {
                return None;
            }
            self.state.readiness = Readiness::Ready;
            Some(self.state.copied())
        } else {
            None
        }
    }

    /// Reads the startup progress, the connection log, and the failure messages.
    pub fn interpret(&mut self, view: &MessageView, body: &[u8]) -> (r: Option<ServerState>)
        ensures
            (final(self)@, opt_state(r)) == interpret_model(old(self)@, view@, json_parse(body@)),
    {
        if !view.is_notification() {
            return None;
        }
        let method = match view.method() {
            Some(m) => m,
            None => return None,
        };
        if str_eq(method, PROGRESS_METHOD) {
            let p = match read_params(view, PROGRESS_METHOD, body) {
                Some(p) => p,
                None => return None,
            };
            let ghost pm = p@;
            let (kind, title) = match get(&p, "value") {
                Some(v) => match (text_member(v, "kind"), get_opt_text(v, "title")) {
                    (Some(k), Some(t)) => (k.clone(), t),
                    _ => return None,
                },
                None => return None,
            };
            let token = match take_member(p, "token") {
                Some(t) => t,
                None => return None,
            };
            assert(progress_of(pm) == Some((token@, kind@, opt_view(title))));
            self.on_progress(token, kind.as_str(), title)
        } else if str_eq(method, LOG_MESSAGE_METHOD) {
            let p = match read_params(view, LOG_MESSAGE_METHOD, body) {
                Some(p) => p,
                None => return None,
            };
            match text_member(&p, "message") {
                Some(m) => if str_eq(m.as_str(), CONNECTED_LOG) {
                    self.set_health(Health::Okay, None)
                } else {
                    None
                },
                None => None,
            }
        } else if str_eq(method, SHOW_MESSAGE_METHOD) {
            let p = match read_params(view, SHOW_MESSAGE_METHOD, body) {
                Some(p) => p,
                None => return None,
            };
            let k = match get(&p, "type") {
                Some(t) => match as_u64(t) {
                    Some(k) => k,
                    None => return None,
                },
                None => return None,
            };
            let m = match text_member(&p, "message") {
                Some(m) => m,
                None => return None,
            };
            if k > 255 {
                return None;
            }
            if k == 1 && (starts_with(m.as_str(), VERSION_CHECK_FAILED_PREFIX) || starts_with(m.as_str(), INVALID_ARGUMENT_PREFIX)) {
                self.set_health(Health::Error, Some(m.clone()))
            } else {
                None
            }
        } else if str_eq(method, KEEPS_CRASHING_METHOD) {
            self.set_health(Health::Error, Some(KEEPS_CRASHING_MESSAGE.to_owned()))
        } else {
            None
        }
    }
}

} // verus!
