//! The haskell-language-server mapping.
//!
//! haskell-language-server returns no `serverInfo` and announces nothing; it is recognized by
//! the pid-prefixed `ghcide-…` commands of its `InitializeResult`. Readiness is not observable
//! at all. Health is read from the diagnostics: a `cradle` error on a file means the project
//! could not be loaded for it, and health is `error` (with the first line of the message of
//! the smallest such file) until every such file is diagnosed without it.

use vstd::prelude::*;

use crate::adapter::{params_of, read_params};
use crate::json::{Json, JsonModel, as_text, as_u64, get, json_parse, member, text_field, text_member, u64_of};
use crate::peek::{MessageView, ViewModel};
use crate::state::{Health, Readiness, ServerState, ServerStateProvider, StateModel, notifications_only_model, opt_state, unobserved_model};
use crate::text_map::{TextMap, drop_entry, put_entry};
use crate::text::{all_digits, first_line_of, first_line_trimmed, is_all_digits, split_first, split_once, starts, starts_with, str_eq, str_lt, text_lt};

verus! {

/// The name haskell-language-server is known by.
pub const SERVER_NAME: &'static str = "haskell-language-server";

/// The diagnostics notification.
pub const DIAGNOSTICS_METHOD: &'static str = "textDocument/publishDiagnostics";

/// The source of a diagnostic about loading the project (the cradle).
pub const CRADLE_SOURCE: &'static str = "cradle";

/// How the plugin part of a ghcide command begins.
pub const GHCIDE_PLUGIN_PREFIX: &'static str = "ghcide-";

/// Whether a command is a `<pid>:ghcide-…` command.
pub open spec fn ghcide_command(command: Seq<char>) -> bool {
    match split_first(command, ":"@) {
        Some((pid, rest)) => pid.len() > 0 && all_digits(pid) && starts(rest, GHCIDE_PLUGIN_PREFIX@),
        None => false,
    }
}

/// Whether a command is a `<pid>:ghcide-…` command.
pub fn is_ghcide_command(command: &str) -> (r: bool)
    ensures
        r == ghcide_command(command@),
{
    match split_once(command, ":") {
        Some((pid, rest)) => !pid.as_str().is_empty() && is_all_digits(pid.as_str()) && starts_with(rest.as_str(), GHCIDE_PLUGIN_PREFIX),
        None => false,
    }
}

/// Whether an `InitializeResult`'s `result` lists a ghcide command.
pub open spec fn hls_result(result: JsonModel) -> bool {
    &&& member(result, "capabilities"@) matches Some(c)
    &&& member(c, "executeCommandProvider"@) matches Some(e)
    &&& member(e, "commands"@) matches Some(JsonModel::Array(items))
    &&& exists|i: int| 0 <= i < items.len() && (#[trigger] items[i] matches JsonModel::String(s) && ghcide_command(s))
}

/// Whether an `InitializeResult`'s `result` is haskell-language-server's.
#[verifier::loop_isolation(false)]
pub fn is_hls_initialize_result(result: &Json) -> (r: bool)
    ensures
        r == hls_result(result@),
{
    let c = match get(result, "capabilities") {
        Some(c) => c,
        None => return false,
    };
    let e = match get(c, "executeCommandProvider") {
        Some(e) => e,
        None => return false,
    };
    let list = match get(e, "commands") {
        Some(l) => l,
        None => return false,
    };
    let items = match list {
        Json::Array(items) => items,
        _ => return false,
    };
    let ghost arr = list@->Array_0;
    assert forall|k: int| 0 <= k < items@.len() implies arr[k] == #[trigger] items@[k]@ by {}
    let mut i: usize = 0;
    while i < items.len()
        invariant
            i <= items@.len(),
            forall|k: int| 0 <= k < i ==> !(#[trigger] arr[k] matches JsonModel::String(s) && ghcide_command(s)),
        decreases items@.len() - i,
    {
        if let Some(s) = as_text(&items[i]) {
            if is_ghcide_command(s.as_str()) {
                assert(arr[i as int] == items@[i as int]@);
                return true;
            }
        }
        assert(arr[i as int] == items@[i as int]@);
        i = i + 1;
    }
    false
}

/// A diagnostic read as `{source?: string, severity?: u8, message?: string}`.
pub open spec fn diagnostic_of(d: JsonModel) -> Option<(Option<Seq<char>>, Option<u64>, Seq<char>)> {
    let source: Option<Option<Seq<char>>> = match member(d, "source"@) {
        None => Some(None),
        Some(JsonModel::Null) => Some(None),
        Some(JsonModel::String(s)) => Some(Some(s)),
        Some(_) => None,
    };
    let severity: Option<Option<u64>> = match member(d, "severity"@) {
        None => Some(None),
        Some(JsonModel::Null) => Some(None),
        Some(t) => match u64_of(t) {
            Some(k) => if k <= 255 {
                Some(Some(k))
            } else {
                None
            },
            None => None,
        },
    };
    let message: Option<Seq<char>> = match member(d, "message"@) {
        None => Some(Seq::empty()),
        Some(JsonModel::String(s)) => Some(s),
        Some(_) => None,
    };
    match (d, source, severity, message) {
        (JsonModel::Object(_), Some(s), Some(k), Some(m)) => Some((s, k, m)),
        _ => None,
    }
}

/// Whether a diagnostic reports a failure to load the project.
pub open spec fn cradle_failure(d: (Option<Seq<char>>, Option<u64>, Seq<char>)) -> bool {
    d.0 == Some(CRADLE_SOURCE@) && d.1 == Some(1u64)
}

/// The params of `textDocument/publishDiagnostics` read as `{uri: string, diagnostics?:
/// [diagnostic]}`: the uri and the message of the first cradle failure, if any. `None` when
/// they do not read.
pub open spec fn diagnostics_of(p: JsonModel) -> Option<(Seq<char>, Option<Seq<char>>)> {
    match text_field(p, "uri"@) {
        Some(uri) => match member(p, "diagnostics"@) {
            None => Some((uri, None)),
            Some(JsonModel::Array(items)) => if forall|i: int| 0 <= i < items.len() ==> (#[trigger] diagnostic_of(items[i])) is Some {
                Some((uri, first_failure(items)))
            } else {
                None
            },
            Some(_) => None,
        },
        None => None,
    }
}

/// The message of the first cradle failure among diagnostics that all read.
pub open spec fn first_failure(items: Seq<JsonModel>) -> Option<Seq<char>>
    decreases items.len(),
{
    if items.len() == 0 {
        None
    } else {
        let d = diagnostic_of(items[0])->0;
        if cradle_failure(d) {
            Some(d.2)
        } else {
            first_failure(items.drop_first())
        }
    }
}

/// The model of a [`HaskellLanguageServerAdapter`].
pub ghost struct HaskellModel {
    pub state: StateModel,
    /// The files with a cradle failure, sorted by uri, each with the first line of its
    /// message.
    pub failures: Seq<(Seq<char>, Seq<char>)>,
}

/// The haskell-language-server mapping.
pub struct HaskellLanguageServerAdapter {
    state: ServerState,
    cradle_failures: TextMap,
}

impl View for HaskellLanguageServerAdapter {
    type V = HaskellModel;

    closed spec fn view(&self) -> HaskellModel {
        HaskellModel { state: self.state@, failures: self.cradle_failures@ }
    }
}

/// What a diagnostics notification does to the mapping.
pub open spec fn on_diagnostics_model(a: HaskellModel, uri: Seq<char>, failure: Option<Seq<char>>) -> (HaskellModel, Option<StateModel>) {
    let failures = match failure {
        Some(m) => put_entry(a.failures, uri, first_line_trimmed(m)),
        None => drop_entry(a.failures, uri),
    };
    let next = if failures.len() > 0 {
        StateModel { health: Health::Error, readiness: a.state.readiness, message: Some(failures[0].1) }
    } else {
        unobserved_model()
    };
    if next == a.state {
        (HaskellModel { failures, ..a }, None)
    } else {
        (HaskellModel { state: next, failures }, Some(next))
    }
}

/// What the mapping makes of an upstream message.
pub open spec fn interpret_model(a: HaskellModel, v: ViewModel, body: Option<JsonModel>) -> (HaskellModel, Option<StateModel>) {
    match params_of(v, DIAGNOSTICS_METHOD@, body) {
        Some(p) => match diagnostics_of(p) {
            Some((uri, failure)) => on_diagnostics_model(a, uri, failure),
            None => (a, None),
        },
        None => (a, None),
    }
}

impl HaskellLanguageServerAdapter {
    /// A mapping at the start: nothing observed.
    pub fn new() -> (r: Self)
        ensures
            r@ == (HaskellModel { state: unobserved_model(), failures: Seq::empty() }),
    {
        let r = HaskellLanguageServerAdapter { state: ServerState::unobserved(), cradle_failures: TextMap::new() };
        assert(r@.failures =~= Seq::<(Seq<char>, Seq<char>)>::empty());
        r
    }

    /// The state right after connecting: neither axis is observable yet.
    /// The state the mapping has read so far.
    pub fn state(&self) -> (r: ServerState)
        ensures
            r@ == self@.state,
    {
        self.state.copied()
    }

    pub fn initial_state(&self) -> (r: ServerState)
        ensures
            r@ == unobserved_model(),
    {
        ServerState::unobserved()
    }

    /// No guarantee: readiness is not observable at all, the version neither.
    pub fn guarantees(&self) -> (r: ServerStateProvider)
        ensures
            r@ == notifications_only_model(),
    {
        ServerStateProvider::notifications_only()
    }

    fn on_diagnostics(&mut self, uri: String, failure: Option<String>) -> (r: Option<ServerState>)
        ensures
            (final(self)@, opt_state(r)) == on_diagnostics_model(old(self)@, uri@, crate::state::opt_view(failure)),
    {
        match failure {
            Some(m) => {
                let line = first_line_of(m.as_str());
                self.cradle_failures.insert(uri, line);
            },
            None => {
                self.cradle_failures.remove(uri.as_str());
            },
        }
        let next = match self.cradle_failures.first_value() {
            Some(m) => ServerState { health: Health::Error, readiness: self.state.readiness, message: Some(m.clone()) },
            None => ServerState::unobserved(),
        };
        if next.same_as(&self.state) {
            return None;
        }
        self.state = next;
        Some(self.state.copied())
    }

    /// Reads the cradle failures out of the diagnostics.
    #[verifier::loop_isolation(false)]
    pub fn interpret(&mut self, view: &MessageView, body: &[u8]) -> (r: Option<ServerState>)
        ensures
            (final(self)@, opt_state(r)) == interpret_model(old(self)@, view@, json_parse(body@)),
    {
        let p = match read_params(view, DIAGNOSTICS_METHOD, body) {
            Some(p) => p,
            None => return None,
        };
        let uri = match text_member(&p, "uri") {
            Some(u) => u.clone(),
            None => return None,
        };
        let list = match get(&p, "diagnostics") {
            None => return self.on_diagnostics(uri, None),
            Some(l) => l,
        };
        let items = match list {
            Json::Array(items) => items,
            _ => return None,
        };
        let ghost arr = list@->Array_0;
        assert forall|k: int| 0 <= k < items@.len() implies arr[k] == #[trigger] items@[k]@ by {}
        let mut failure: Option<String> = None;
        let mut i: usize = 0;
        assert(arr.skip(0) =~= arr);
        while i < items.len()
            invariant
                i <= items@.len(),
                forall|k: int| 0 <= k < i ==> (#[trigger] diagnostic_of(arr[k])) is Some,
                first_failure(arr) == match failure {
                    Some(m) => Some(m@),
                    None => first_failure(arr.skip(i as int)),
                },
            decreases items@.len() - i,
        {
            assert(arr.skip(i as int).drop_first() =~= arr.skip(i + 1));
            assert(arr.skip(i as int)[0] == arr[i as int]);
            let d = match read_diagnostic(&items[i]) {
                Some(d) => d,
                None => {
                    assert(diagnostic_of(arr[i as int]) is None);
                    return None;
                },
            };
            if failure.is_none() {
                let (source, severity, message) = d;
                let cradle = match &source {
                    Some(s) => str_eq(s.as_str(), CRADLE_SOURCE),
                    None => false,
                };
                if cradle && severity == Some(1u64) {
                    failure = Some(message);
                }
            }
            i = i + 1;
        }
        assert(first_failure(arr.skip(i as int)) is None);
        self.on_diagnostics(uri, failure)
    }
}

/// Reads one diagnostic.
fn read_diagnostic(d: &Json) -> (r: Option<(Option<String>, Option<u64>, String)>)
    ensures
        match r {
            Some((s, k, m)) => diagnostic_of(d@) == Some((crate::state::opt_view(s), k, m@)),
            None => diagnostic_of(d@) is None,
        },
{
    match d {
        Json::Object(_) => {},
        _ => return None,
    }
    let source: Option<String> = match get(d, "source") {
        None => None,
        Some(Json::Null) => None,
        Some(Json::String(s)) => Some(s.clone()),
        Some(_) => return None,
    };
    let severity: Option<u64> = match get(d, "severity") {
        None => None,
        Some(Json::Null) => None,
        Some(t) => match as_u64(t) {
            Some(k) => if k <= 255 {
                Some(k)
            } else {
                return None;
            },
            None => return None,
        },
    };
    let message: String = match get(d, "message") {
        None => String::new(),
        Some(Json::String(s)) => s.clone(),
        Some(_) => return None,
    };
    Some((source, severity, message))
}

} // verus!
