//! The rust-analyzer mapping.
//!
//! rust-analyzer sends `{health, quiescent, message}` in an `experimental/serverStatus`
//! notification. `quiescent` is in substance "workspace load complete and cache priming not
//! running". It reverts to `false` only when the workspace configuration changes
//! (`Cargo.toml`, switching branches, etc.), and not on ordinary source edits, so no smoothing
//! or debouncing is needed.
//!
//! Failure arrives via `health`. A workspace load failure is `{health: error, quiescent:
//! true}`; it is mapped onto `health`, not `readiness`.

use vstd::prelude::*;

use crate::json::{Json, JsonModel, NumberModel, get, as_u64, get_bool, get_opt_text, member, bool_field, opt_text_field, text_field, text_member, parse_json, json_parse, u64_of};
use crate::peek::{MessageView, ViewModel, is_notification_model};
use crate::state::{ALL_FILE_CHANGES, Health, Readiness, ServerState, ServerStateProvider, StateModel, ProviderModel, all_file_changes, opt_state, notifications_only_model, workspace_model, opt_view};
use crate::text::{contains, ends, ends_with, first_token, first_token_of, has_sub, last_segment, last_segment_of, str_eq, str_in};

verus! {

/// The method name of the readiness notification rust-analyzer sends.
pub const SERVER_STATUS_METHOD: &'static str = "experimental/serverStatus";

/// Versions the conformance tests were run against and passed on. Matched by exact equality
/// against the leading token (before any whitespace) of `serverInfo.version`: the rustup
/// distribution calls itself `1.98.0 (88d9e12 2026-08-18)`, the nixpkgs build `2026-08-03`.
/// No guarantee is declared for a version not in the list.
pub const TESTED_VERSIONS: [&'static str; 2] = ["1.98.0", "2026-08-03"];

/// The message rust-analyzer attaches to `warning` when it finds no project at all. This is
/// the only thing available to distinguish it, so it is matched as a string.
pub const MISSING_WORKSPACE_MESSAGE: &'static str = "Failed to discover workspace.";

/// The default cap rust-analyzer has for `workspace/symbol`.
const DEFAULT_WORKSPACE_SYMBOL_LIMIT: u64 = 128;

/// Whether a version's leading token is one of [`TESTED_VERSIONS`].
pub open spec fn version_tested(version: Option<Seq<char>>) -> bool {
    version matches Some(v) && exists|i: int| 0 <= i < 2 && TESTED_VERSIONS@[i]@ == first_token(v)
}

/// Whether a file name is one rust-analyzer watches: `*.rs`, `Cargo.toml`, `Cargo.lock`,
/// `rust-analyzer.toml`.
pub open spec fn watched_name(name: Seq<char>) -> bool {
    ends(name, ".rs"@) || name == "Cargo.toml"@ || name == "Cargo.lock"@ || name == "rust-analyzer.toml"@
}

/// Whether a URI names a file rust-analyzer registers for watching, judged by its last
/// component (a Windows file URI can arrive `\`-separated). A Created or Deleted event for
/// one of these is always followed by `quiescent: false → true`.
pub fn is_watched_file(uri: &str) -> (r: bool)
    ensures
        r == watched_name(last_segment(uri@)),
{
    let name = last_segment_of(uri);
    let n = name.as_str();
    proof {
        reveal_strlit(".rs");
    }
    ends_with(n, ".rs") || str_eq(n, "Cargo.toml") || str_eq(n, "Cargo.lock") || str_eq(n, "rust-analyzer.toml")
}

/// The model of a [`RustAnalyzerAdapter`].
pub ghost struct RustAnalyzerModel {
    pub version_is_tested: bool,
    pub workspace_symbol_limit: u64,
    pub last_health: Health,
}

/// The rust-analyzer mapping.
pub struct RustAnalyzerAdapter {
    /// Whether the announced version is in [`TESTED_VERSIONS`]: the condition for declaring a
    /// guarantee.
    version_is_tested: bool,
    /// The cap on `workspace/symbol`. Changed by the client's
    /// `initializationOptions.workspace.symbol.search.limit`.
    workspace_symbol_limit: u64,
    /// The last health read. Used when a prediction moves only readiness.
    last_health: Health,
}

impl View for RustAnalyzerAdapter {
    type V = RustAnalyzerModel;

    closed spec fn view(&self) -> RustAnalyzerModel {
        RustAnalyzerModel {
            version_is_tested: self.version_is_tested,
            workspace_symbol_limit: self.workspace_symbol_limit,
            last_health: self.last_health,
        }
    }
}

/// The upstream's health word. `unknown` is for observers only; a server must not send it.
pub open spec fn upstream_health(t: Seq<char>) -> Option<Health> {
    if t == "ok"@ {
        Some(Health::Okay)
    } else if t == "warning"@ {
        Some(Health::Warning)
    } else if t == "error"@ {
        Some(Health::Error)
    } else {
        None
    }
}

/// The `params` of `experimental/serverStatus`: a health word, `quiescent`, and an optional
/// message. Anything else does not read.
pub open spec fn status_of(j: JsonModel) -> Option<(Health, bool, Option<Seq<char>>)> {
    match member(j, "params"@) {
        Some(p) => match (text_field(p, "health"@), bool_field(p, "quiescent"@), opt_text_field(p, "message"@)) {
            (Some(h), Some(q), Some(m)) => match upstream_health(h) {
                Some(health) => Some((health, q, m)),
                None => None,
            },
            _ => None,
        },
        None => None,
    }
}

/// The health a status means: a missing project makes cross-workspace queries
/// non-functional, so that `warning` becomes `error`.
pub open spec fn mapped_health(h: Health, message: Option<Seq<char>>) -> Health {
    match message {
        Some(m) => if h == Health::Warning && has_sub(m, MISSING_WORKSPACE_MESSAGE@) {
            Health::Error
        } else {
            h
        },
        None => h,
    }
}

/// What the mapping makes of an upstream message: the state it reads, if any, and the
/// mapping afterwards.
pub open spec fn interpret_model(a: RustAnalyzerModel, v: ViewModel, body: Option<JsonModel>) -> (RustAnalyzerModel, Option<StateModel>) {
    let status = if is_notification_model(v) && v.method == Some(SERVER_STATUS_METHOD@) {
        match body {
            Some(j) => status_of(j),
            None => None,
        }
    } else {
        None
    };
    match status {
        Some((h, q, m)) => {
            let health = mapped_health(h, m);
            (
                RustAnalyzerModel { last_health: health, ..a },
                Some(StateModel { health, readiness: if q { Readiness::Ready } else { Readiness::Indexing }, message: m }),
            )
        },
        None => (a, None),
    }
}

/// Whether one entry of `changes` is a Created (1) or Deleted (3) event for a watched file.
pub open spec fn reindexing_change(c: JsonModel) -> bool {
    &&& text_field(c, "uri"@) matches Some(u)
    &&& member(c, "type"@) matches Some(t)
    &&& u64_of(t) matches Some(k)
    &&& (k == 1 || k == 3)
    &&& watched_name(last_segment(u))
}

/// Whether a `workspace/didChangeWatchedFiles` body announces a change that makes
/// rust-analyzer reindex.
pub open spec fn announces_reindex(body: Option<JsonModel>) -> bool {
    &&& body matches Some(j)
    &&& member(j, "params"@) matches Some(p)
    &&& member(p, "changes"@) matches Some(JsonModel::Array(items))
    &&& exists|i: int| 0 <= i < items.len() && reindexing_change(#[trigger] items[i])
}

/// The workspace symbol cap an `initializationOptions` value sets, if it sets one.
pub open spec fn symbol_limit_of(options: JsonModel) -> Option<u64> {
    match member(options, "workspace"@) {
        Some(w) => match member(w, "symbol"@) {
            Some(s) => match member(s, "search"@) {
                Some(se) => match member(se, "limit"@) {
                    Some(l) => u64_of(l),
                    None => None,
                },
                None => None,
            },
            None => None,
        },
        None => None,
    }
}

/// The guarantees of a mapping.
pub open spec fn guarantees_model(a: RustAnalyzerModel) -> ProviderModel {
    if a.version_is_tested {
        workspace_model(seq![("workspace/symbol"@, a.workspace_symbol_limit)], all_file_changes())
    } else {
        notifications_only_model()
    }
}

/// Reads the status params of a parsed body.
fn read_status(j: &Json) -> (r: Option<(Health, bool, Option<String>)>)
    ensures
        match r {
            Some((h, q, m)) => status_of(j@) == Some((h, q, opt_view(m))),
            None => status_of(j@) is None,
        },
{
    let p = match get(j, "params") {
        Some(p) => p,
        None => return None,
    };
    let h = match text_member(p, "health") {
        Some(h) => h,
        None => return None,
    };
    let q = match get_bool(p, "quiescent") {
        Some(q) => q,
        None => return None,
    };
    let m = match get_opt_text(p, "message") {
        Some(m) => m,
        None => return None,
    };
    let hs = h.as_str();
    let health = if str_eq(hs, "ok") {
        Health::Okay
    } else if str_eq(hs, "warning") {
        Health::Warning
    } else if str_eq(hs, "error") {
        Health::Error
    } else {
        return None;
    };
    Some((health, q, m))
}

/// Whether one entry of `changes` makes rust-analyzer reindex.
fn is_reindexing_change(c: &Json) -> (r: bool)
    ensures
        r == reindexing_change(c@),
{
    let u = match text_member(c, "uri") {
        Some(u) => u,
        None => return false,
    };
    let k = match get(c, "type") {
        Some(t) => match as_u64(t) {
            Some(k) => k,
            None => return false,
        },
        None => return false,
    };
    (k == 1 || k == 3) && is_watched_file(u.as_str())
}

impl RustAnalyzerAdapter {
    /// For a rust-analyzer that does not announce a version (or whose version cannot be read).
    /// Declares no guarantee.
    pub fn new() -> (r: Self)
        ensures
            r@ == (RustAnalyzerModel { version_is_tested: false, workspace_symbol_limit: 128, last_health: Health::Unknown }),
    {
        Self::for_version(None)
    }

    /// Looks at `serverInfo.version` and declares a guarantee if it is a tested version.
    pub fn for_version(version: Option<&str>) -> (r: Self)
        ensures
            r@ == (RustAnalyzerModel {
                version_is_tested: version_tested(match version { Some(v) => Some(v@), None => None }),
                workspace_symbol_limit: 128,
                last_health: Health::Unknown,
            }),
    {
        let version_is_tested = match version {
            Some(v) => {
                let token = first_token_of(v);
                let tested = TESTED_VERSIONS;
                str_in(token.as_str(), &tested)
            },
            None => false,
        };
        RustAnalyzerAdapter { version_is_tested, workspace_symbol_limit: DEFAULT_WORKSPACE_SYMBOL_LIMIT, last_health: Health::Unknown }
    }

    /// Whether the announced version is within the range the conformance tests passed on.
    pub fn version_is_tested(&self) -> (r: bool)
        ensures
            r == self@.version_is_tested,
    {
        self.version_is_tested
    }

    /// The state right after connecting: rust-analyzer reports nothing until its first
    /// `serverStatus`, after the `initialize` response.
    pub fn initial_state(&self) -> (r: ServerState)
        ensures
            r@ == crate::state::initializing_model(),
    {
        ServerState::initializing()
    }

    /// The guarantee to declare in `InitializeResult`: both guarantees, but only for a tested
    /// version. Outside that range, only state notifications are promised.
    pub fn guarantees(&self) -> (r: ServerStateProvider)
        ensures
            r@ == guarantees_model(self@),
    {
        if self.version_is_tested {
            let caps = [("workspace/symbol", self.workspace_symbol_limit)];
            let changes = ALL_FILE_CHANGES;
            let r = ServerStateProvider::workspace(&caps, &changes);
            proof {
                reveal_strlit("workspace/symbol");
                assert(crate::state::caps_arg_view(caps@) =~= seq![("workspace/symbol"@, self.workspace_symbol_limit)]);
                assert(changes@ =~= all_file_changes());
            }
            r
        } else {
            ServerStateProvider::notifications_only()
        }
    }

    /// Takes the `workspace/symbol` cap from the client's `initializationOptions`.
    pub fn learn_initialization_options(&mut self, options: &Json)
        ensures
            final(self)@ == match symbol_limit_of(options@) {
                Some(l) => RustAnalyzerModel { workspace_symbol_limit: l, ..old(self)@ },
                None => old(self)@,
            },
    {
        let w = match get(options, "workspace") {
            Some(w) => w,
            None => return,
        };
        let s = match get(w, "symbol") {
            Some(s) => s,
            None => return,
        };
        let se = match get(s, "search") {
            Some(se) => se,
            None => return,
        };
        if let Some(l) = get(se, "limit") {
            if let Some(limit) = as_u64(l) {
                self.workspace_symbol_limit = limit;
            }
        }
    }

    /// Predicts `indexing` from a Created / Deleted notification for a watched file. A Changed
    /// event is not followed by a signal, so it is not predicted from.
    #[verifier::loop_isolation(false)]
    pub fn observe_client(&mut self, view: &MessageView, body: &[u8]) -> (r: Option<ServerState>)
        ensures
            final(self)@ == old(self)@,
            opt_state(r) == (if is_notification_model(view@) && view@.method == Some("workspace/didChangeWatchedFiles"@) && announces_reindex(json_parse(body@)) {
                Some(StateModel { health: old(self)@.last_health, readiness: Readiness::Indexing, message: None })
            } else {
                None
            }),
    {
        if !view.is_notification_named("workspace/didChangeWatchedFiles") {
            return None;
        }
        let j = match parse_json(body) {
            Some(j) => j,
            None => return None,
        };
        let p = match get(&j, "params") {
            Some(p) => p,
            None => return None,
        };
        let c = match get(p, "changes") {
            Some(c) => c,
            None => return None,
        };
        let items = match c {
            Json::Array(items) => items,
            _ => return None,
        };
        let ghost arr = c@->Array_0;
        assert forall|k: int| 0 <= k < items@.len() implies arr[k] == #[trigger] items@[k]@ by {}
        let mut i: usize = 0;
        while i < items.len()
            invariant
                i <= items@.len(),
                forall|k: int| 0 <= k < i ==> !reindexing_change(#[trigger] items@[k]@),
            decreases items@.len() - i,
        {
            if is_reindexing_change(&items[i]) {
                assert(arr[i as int] == items@[i as int]@);
                return Some(ServerState { health: self.last_health, readiness: Readiness::Indexing, message: None });
            }
            i = i + 1;
        }
        proof {
            assert forall|k: int| 0 <= k < arr.len() implies !reindexing_change(#[trigger] arr[k]) by {
                assert(arr[k] == items@[k]@);
            }
        }
        None
    }

    /// Reads the state the upstream is reporting. `None` (the state does not move) for anything
    /// other than `experimental/serverStatus`, and for a status of unknown shape: keeping the
    /// previous state is safer than letting one broken message wrongly advance readiness.
    pub fn interpret(&mut self, view: &MessageView, body: &[u8]) -> (r: Option<ServerState>)
        ensures
            (final(self)@, opt_state(r)) == interpret_model(old(self)@, view@, json_parse(body@)),
    {
        if !view.is_notification_named(SERVER_STATUS_METHOD) {
            return None;
        }
        let j = match parse_json(body) {
            Some(j) => j,
            None => return None,
        };
        let (h, q, message) = match read_status(&j) {
            Some(s) => s,
            None => return None,
        };
        let missing = match &message {
            Some(m) => contains(m.as_str(), MISSING_WORKSPACE_MESSAGE),
            None => false,
        };
        let health = if h == Health::Warning && missing {
            Health::Error
        } else {
            h
        };
        self.last_health = health;
        Some(ServerState { health, readiness: if q { Readiness::Ready } else { Readiness::Indexing }, message })
    }
}

/// Only a created or deleted source makes rust-analyzer reindex: a `didChangeWatchedFiles`
/// whose every change has type 2 (Changed) predicts no state, since rust-analyzer sends no
/// later `quiescent` for it; one that creates or deletes a watched file (type 1 or 3) does.
pub proof fn law_only_created_or_deleted_files_reindex(j: JsonModel, p: JsonModel, items: Seq<JsonModel>)
    requires
        member(j, "params"@) == Some(p),
        member(p, "changes"@) == Some(JsonModel::Array(items)),
    ensures
        (forall|i: int| 0 <= i < items.len() ==> #[trigger] member(items[i], "type"@) == Some(JsonModel::Number(NumberModel::PosInt(2))))
            ==> !announces_reindex(Some(j)),
        announces_reindex(Some(j)) ==> exists|i: int| 0 <= i < items.len()
            && (#[trigger] member(items[i], "type"@) == Some(JsonModel::Number(NumberModel::PosInt(1)))
                || member(items[i], "type"@) == Some(JsonModel::Number(NumberModel::PosInt(3)))),
        (exists|i: int| 0 <= i < items.len() && (text_field(#[trigger] items[i], "uri"@) matches Some(u) && watched_name(last_segment(u)))
            && (member(items[i], "type"@) == Some(JsonModel::Number(NumberModel::PosInt(1)))
                || member(items[i], "type"@) == Some(JsonModel::Number(NumberModel::PosInt(3)))))
            ==> announces_reindex(Some(j)),
{
    if announces_reindex(Some(j)) {
        let i = choose|i: int| 0 <= i < items.len() && reindexing_change(#[trigger] items[i]);
        assert(member(items[i], "type"@) == Some(JsonModel::Number(NumberModel::PosInt(1)))
            || member(items[i], "type"@) == Some(JsonModel::Number(NumberModel::PosInt(3))));
    }
    if exists|i: int| 0 <= i < items.len() && (text_field(#[trigger] items[i], "uri"@) matches Some(u) && watched_name(last_segment(u)))
            && (member(items[i], "type"@) == Some(JsonModel::Number(NumberModel::PosInt(1)))
                || member(items[i], "type"@) == Some(JsonModel::Number(NumberModel::PosInt(3)))) {
        let i = choose|i: int| 0 <= i < items.len() && (text_field(#[trigger] items[i], "uri"@) matches Some(u) && watched_name(last_segment(u)))
            && (member(items[i], "type"@) == Some(JsonModel::Number(NumberModel::PosInt(1)))
                || member(items[i], "type"@) == Some(JsonModel::Number(NumberModel::PosInt(3))));
        assert(reindexing_change(items[i]));
        assert(0 <= i < items.len());
        let body: Option<JsonModel> = Some(j);
        assert(body matches Some(jj) && member(jj, "params"@) == Some(p));
        assert(member(p, "changes"@)->Some_0->Array_0 == items);
        assert(exists|k: int| 0 <= k < items.len() && reindexing_change(#[trigger] items[k]));
        assert(announces_reindex(body));
    }
}

/// The workspace symbol cap the client configures is the one declared: after
/// `initializationOptions` with `workspace.symbol.search.limit` = `n`, the mapping caps
/// `workspace/symbol` at `n`, and a tested version declares that cap.
pub proof fn law_the_configured_symbol_cap_is_declared(a: RustAnalyzerModel, options: JsonModel, w: JsonModel, sy: JsonModel, se: JsonModel, n: u64)
    requires
        member(options, "workspace"@) == Some(w),
        member(w, "symbol"@) == Some(sy),
        member(sy, "search"@) == Some(se),
        member(se, "limit"@) == Some(JsonModel::Number(NumberModel::PosInt(n))),
    ensures
        symbol_limit_of(options) == Some(n),
        ({
            let b = RustAnalyzerModel { workspace_symbol_limit: n, ..a };
            b.version_is_tested ==> guarantees_model(b) == workspace_model(seq![("workspace/symbol"@, n)], all_file_changes())
        }),
{
}

} // verus!
