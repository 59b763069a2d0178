//! Mappings (adapters). They map a language server's own vocabulary onto the server state
//! protocol. A mapping's only role is interpreting upstream messages; holding the state and
//! suppressing duplicates belong to the tracker.

pub mod rust_analyzer;
pub mod pyright;
pub mod crystalline;
pub mod dart;
pub mod gleam;
pub mod expert;
pub mod haxe_language_server;
pub mod haskell_language_server;
pub mod jdtls;
pub mod metals;
pub mod gopls;
pub mod typescript_language_server;
pub mod nextflow;
pub mod nixd;
pub mod sorbet;
pub mod typescript_layout;
pub mod nil;
pub mod clangd;

use vstd::prelude::*;

use crate::json::{Json, JsonModel, member, parse_json, json_parse, take_member};
use crate::peek::{MessageView, ViewModel, is_notification_model};

verus! {

/// The `params` of a body that is a notification named `method`.
pub open spec fn params_of(v: ViewModel, method: Seq<char>, body: Option<JsonModel>) -> Option<JsonModel> {
    if is_notification_model(v) && v.method == Some(method) {
        match body {
            Some(j) => member(j, "params"@),
            None => None,
        }
    } else {
        None
    }
}

/// The `params` of a notification named `method`, parsed out of its body.
pub fn read_params(view: &MessageView, method: &str, body: &[u8]) -> (r: Option<Json>)
    ensures
        match r {
            Some(p) => params_of(view@, method@, json_parse(body@)) == Some(p@),
            None => params_of(view@, method@, json_parse(body@)) is None,
        },
{
    if !view.is_notification_named(method) {
        return None;
    }
    match parse_json(body) {
        Some(j) => take_member(j, "params"),
        None => None,
    }
}

/// The models of a list of progress tokens.
pub open spec fn token_models(ts: Seq<Json>) -> Seq<JsonModel> {
    Seq::new(ts.len(), |i: int| ts[i]@)
}

/// The position of the first `token` among the open ones.
pub open spec fn token_position(open: Seq<JsonModel>, token: JsonModel) -> Option<int>
    decreases open.len(),
{
    if open.len() == 0 {
        None
    } else if open[0] == token {
        Some(0)
    } else {
        match token_position(open.drop_first(), token) {
            Some(k) => Some(k + 1),
            None => None,
        }
    }
}

/// `token_position` read off a scan that passed `i` tokens without finding it.
pub proof fn lemma_token_position(open: Seq<JsonModel>, token: JsonModel, i: int)
    requires
        0 <= i <= open.len(),
        forall|k: int| 0 <= k < i ==> open[k] != token,
    ensures
        i < open.len() && open[i] == token ==> token_position(open, token) == Some(i),
        i == open.len() ==> token_position(open, token) is None,
    decreases i,
{
    if i > 0 {
        lemma_token_position(open.drop_first(), token, i - 1);
    }
}

} // verus!

use crate::decimal::{digits_value, digit_value};
use crate::text::{chars_of, char_is_digit, is_digit};

verus! {

/// The number of ASCII digits `s` begins with.
pub open spec fn digit_run(s: Seq<char>) -> nat
    decreases s.len(),
{
    if s.len() > 0 && is_digit(s[0]) {
        1 + digit_run(s.drop_first())
    } else {
        0
    }
}

/// The leading `X.Y.Z` of a version string (`1.98.0 (88d9e12 2026-08-18)`,
/// `0.3.2600-standalone`), each part a run of digits that fits in `u32`.
pub open spec fn leading_semver(s: Seq<char>) -> Option<(u32, u32, u32)> {
    let n1 = digit_run(s) as int;
    if n1 == 0 || n1 >= s.len() || s[n1] != '.' {
        None
    } else {
        let s2 = s.skip(n1 + 1);
        let n2 = digit_run(s2) as int;
        if n2 == 0 || n2 >= s2.len() || s2[n2] != '.' {
            None
        } else {
            let s3 = s2.skip(n2 + 1);
            let n3 = digit_run(s3) as int;
            let a = digits_value(s.take(n1));
            let b = digits_value(s2.take(n2));
            let c = digits_value(s3.take(n3));
            if n3 == 0 || a > u32::MAX || b > u32::MAX || c > u32::MAX {
                None
            } else {
                Some((a as u32, b as u32, c as u32))
            }
        }
    }
}

proof fn lemma_digit_run(s: Seq<char>, start: int, end: int)
    requires
        0 <= start <= end <= s.len(),
        forall|k: int| start <= k < end ==> is_digit(#[trigger] s[k]),
        end == s.len() || !is_digit(s[end]),
    ensures
        digit_run(s.skip(start)) == end - start,
    decreases end - start,
{
    if start < end {
        assert(s.skip(start).drop_first() =~= s.skip(start + 1));
        lemma_digit_run(s, start + 1, end);
    } else if end < s.len() {
        assert(s.skip(start)[0] == s[end]);
    }
}

proof fn lemma_digits_grow(s: Seq<char>, k: int)
    requires
        0 <= k <= s.len(),
    ensures
        digits_value(s.take(k)) <= digits_value(s),
    decreases s.len() - k,
{
    if k < s.len() {
        assert(s.take(s.len() - 1) =~= s.drop_last());
        lemma_digits_grow(s.drop_last(), k);
        assert(s.drop_last().take(k) =~= s.take(k));
    } else {
        assert(s.take(k) =~= s);
    }
}

/// The end of the run of digits starting at `start`.
fn digits_end(cs: &Vec<char>, start: usize) -> (r: usize)
    requires
        start <= cs@.len(),
    ensures
        start <= r <= cs@.len(),
        digit_run(cs@.skip(start as int)) == r - start,
        forall|k: int| start <= k < r ==> is_digit(#[trigger] cs@[k]),
{
    let mut i = start;
    while i < cs.len() && char_is_digit(cs[i])
        invariant
            start <= i <= cs@.len(),
            forall|k: int| start <= k < i ==> is_digit(#[trigger] cs@[k]),
        decreases cs@.len() - i,
    {
        i = i + 1;
    }
    proof {
        lemma_digit_run(cs@, start as int, i as int);
    }
    i
}

/// The value of the digits `cs[start..end]`, when it fits in `u32`.
fn digits_u32(cs: &Vec<char>, start: usize, end: usize) -> (r: Option<u32>)
    requires
        start <= end <= cs@.len(),
        forall|k: int| start <= k < end ==> is_digit(#[trigger] cs@[k]),
    ensures
        match r {
            Some(v) => v as nat == digits_value(cs@.subrange(start as int, end as int)),
            None => digits_value(cs@.subrange(start as int, end as int)) > u32::MAX,
        },
{
    let ghost d = cs@.subrange(start as int, end as int);
    let mut value: u64 = 0;
    let mut i = start;
    assert(d.take(0) =~= Seq::<char>::empty());
    while i < end
        invariant
            start <= i <= end <= cs@.len(),
            d == cs@.subrange(start as int, end as int),
            forall|k: int| start <= k < end ==> is_digit(#[trigger] cs@[k]),
            value as nat == digits_value(d.take(i - start)),
            value <= u32::MAX,
        decreases end - i,
    {
        let c = cs[i];
        assert(is_digit(cs@[i as int]));
        let digit = (c as u32 - '0' as u32) as u64;
        assert(d.take(i - start + 1).drop_last() =~= d.take(i - start));
        assert(d.take(i - start + 1).last() == c);
        let next = value * 10 + digit;
        if next > u32::MAX as u64 {
            proof {
                lemma_digits_grow(d, i - start + 1);
            }
            return None;
        }
        value = next;
        i = i + 1;
    }
    assert(d.take(end - start) =~= d);
    Some(value as u32)
}

/// Reads the leading `X.Y.Z` of a version string.
pub fn parse_version(version: &str) -> (r: Option<(u32, u32, u32)>)
    ensures
        r == leading_semver(version@),
{
    let cs = chars_of(version);
    let e1 = digits_end(&cs, 0);
    assert(cs@.skip(0) =~= cs@);
    if e1 == 0 || e1 >= cs.len() || cs[e1] != '.' {
        return None;
    }
    let s2 = e1 + 1;
    let e2 = digits_end(&cs, s2);
    let ghost t2 = cs@.skip(s2 as int);
    assert(forall|k: int| 0 <= k < t2.len() ==> t2[k] == cs@[k + s2]);
    if e2 == s2 || e2 >= cs.len() || cs[e2] != '.' {
        return None;
    }
    let s3 = e2 + 1;
    let e3 = digits_end(&cs, s3);
    let ghost t3 = t2.skip(e2 - s2 + 1);
    assert(t3 =~= cs@.skip(s3 as int));
    if e3 == s3 {
        return None;
    }
    assert(cs@.take(e1 as int) =~= cs@.subrange(0, e1 as int));
    assert(t2.take(e2 - s2) =~= cs@.subrange(s2 as int, e2 as int));
    assert(t3.take(e3 - s3) =~= cs@.subrange(s3 as int, e3 as int));
    let a = match digits_u32(&cs, 0, e1) {
        Some(a) => a,
        None => return None,
    };
    let b = match digits_u32(&cs, s2, e2) {
        Some(b) => b,
        None => return None,
    };
    let c = match digits_u32(&cs, s3, e3) {
        Some(c) => c,
        None => return None,
    };
    Some((a, b, c))
}

} // verus!

use crate::initialize::{InfoModel, ServerInfo};
use crate::json::{get, is_null, text_member};
use crate::state::{Health, ServerState, ServerStateProvider, StateModel, ProviderModel, initializing_model, notifications_only_model, opt_state, unobserved_model};
use crate::text::{lower, str_eq, to_lower};
use self::crystalline::CrystallineAdapter;
use self::dart::{DartAdapter, DartModel};
use self::expert::{ExpertAdapter, ExpertModel};
use self::gleam::GleamAdapter;
use self::gopls::{GoplsAdapter, GoplsModel};
use self::haskell_language_server::{HaskellLanguageServerAdapter, HaskellModel};
use self::haxe_language_server::{HaxeLanguageServerAdapter, HaxeModel};
use self::jdtls::{JdtlsAdapter, JdtlsModel};
use self::metals::{MetalsAdapter, MetalsModel};
use self::nextflow::{NextflowAdapter, NextflowModel};
use self::pyright::{PyrightAdapter, PyrightModel};
use self::rust_analyzer::{RustAnalyzerAdapter, RustAnalyzerModel};
use self::typescript_language_server::{TypescriptLanguageServerAdapter, TypescriptModel};
use self::nixd::{NixdAdapter, NixdModel};
use self::sorbet::{SorbetAdapter, SorbetModel};

verus! {

/// The client capabilities every known mapping needs. A mapping is chosen by what the
/// upstream calls itself, but the injection has to happen before `initialize` is sent to it,
/// so all of them are injected whoever the upstream turns out to be. Both are merely a
/// permission to send a notification: rust-analyzer sends `experimental/serverStatus` only
/// when declared, and gopls falls back to `window/showMessage` without `workDoneProgress`.
pub const CLIENT_CAPABILITIES_FOR_ALL_MAPPINGS: [&'static str; 2] = ["experimental.serverStatusNotification", "window.workDoneProgress"];

/// A mapping that reads `ServerState` from a language server's own vocabulary.
pub enum Adapter {
    RustAnalyzer(RustAnalyzerAdapter),
    Gopls(GoplsAdapter),
    Metals(MetalsAdapter),
    Dart(DartAdapter),
    Jdtls(JdtlsAdapter),
    Expert(ExpertAdapter),
    Nextflow(NextflowAdapter),
    Haskell(HaskellLanguageServerAdapter),
    Crystalline(CrystallineAdapter),
    Gleam(GleamAdapter),
    Haxe(HaxeLanguageServerAdapter),
    Pyright(PyrightAdapter),
    Typescript(TypescriptLanguageServerAdapter),
    Nixd(NixdAdapter),
    Sorbet(SorbetAdapter),
}

/// The model of an [`Adapter`]: which mapping, and its model.
pub ghost enum AdapterModel {
    RustAnalyzer(RustAnalyzerModel),
    Gopls(GoplsModel),
    Metals(MetalsModel),
    Dart(DartModel),
    Jdtls(JdtlsModel),
    Expert(ExpertModel),
    Nextflow(NextflowModel),
    Haskell(HaskellModel),
    Crystalline(StateModel),
    Gleam(StateModel),
    Haxe(HaxeModel),
    Pyright(PyrightModel),
    Typescript(TypescriptModel),
    Nixd(NixdModel),
    Sorbet(SorbetModel),
}

impl View for Adapter {
    type V = AdapterModel;

    open spec fn view(&self) -> AdapterModel {
        match self {
            Adapter::RustAnalyzer(a) => AdapterModel::RustAnalyzer(a@),
            Adapter::Gopls(a) => AdapterModel::Gopls(a@),
            Adapter::Metals(a) => AdapterModel::Metals(a@),
            Adapter::Dart(a) => AdapterModel::Dart(a@),
            Adapter::Jdtls(a) => AdapterModel::Jdtls(a@),
            Adapter::Expert(a) => AdapterModel::Expert(a@),
            Adapter::Nextflow(a) => AdapterModel::Nextflow(a@),
            Adapter::Haskell(a) => AdapterModel::Haskell(a@),
            Adapter::Crystalline(a) => AdapterModel::Crystalline(a@),
            Adapter::Gleam(a) => AdapterModel::Gleam(a@),
            Adapter::Haxe(a) => AdapterModel::Haxe(a@),
            Adapter::Pyright(a) => AdapterModel::Pyright(a@),
            Adapter::Typescript(a) => AdapterModel::Typescript(a@),
            Adapter::Nixd(a) => AdapterModel::Nixd(a@),
            Adapter::Sorbet(a) => AdapterModel::Sorbet(a@),
        }
    }
}

impl Adapter {
    /// The mapping's internal sets hold each item once.
    pub open spec fn well_formed(&self) -> bool {
        match self {
            Adapter::Nextflow(a) => a.well_formed(),
            _ => true,
        }
    }
}

/// The state right after connecting, for each mapping.
pub open spec fn initial_state_of(a: AdapterModel) -> StateModel {
    match a {
        AdapterModel::Haskell(_) => unobserved_model(),
        _ => initializing_model(),
    }
}

/// The guarantees each mapping declares.
pub open spec fn guarantees_of(a: AdapterModel) -> ProviderModel {
    match a {
        AdapterModel::RustAnalyzer(m) => rust_analyzer::guarantees_model(m),
        AdapterModel::Gopls(m) => gopls::guarantees_model(m),
        AdapterModel::Dart(m) => dart::guarantees_model(m),
        AdapterModel::Jdtls(m) => jdtls::guarantees_model(m),
        AdapterModel::Pyright(m) => pyright::guarantees_model(m),
        AdapterModel::Typescript(m) => typescript_language_server::guarantees_model(m),
        AdapterModel::Metals(m) => metals::guarantees_model(m),
        _ => notifications_only_model(),
    }
}

/// What each mapping makes of an upstream message.
pub open spec fn interpret_of(a: AdapterModel, v: ViewModel, body: Option<JsonModel>) -> (AdapterModel, Option<StateModel>) {
    match a {
        AdapterModel::RustAnalyzer(m) => {
            let (n, s) = rust_analyzer::interpret_model(m, v, body);
            (AdapterModel::RustAnalyzer(n), s)
        },
        AdapterModel::Gopls(m) => {
            let (n, s) = gopls::interpret_model(m, v, body);
            (AdapterModel::Gopls(n), s)
        },
        AdapterModel::Metals(m) => {
            let (n, s) = metals::interpret_model(m, v, body);
            (AdapterModel::Metals(n), s)
        },
        AdapterModel::Dart(m) => {
            let (n, s) = dart::interpret_model(m, v, body);
            (AdapterModel::Dart(n), s)
        },
        AdapterModel::Jdtls(m) => {
            let (n, s) = jdtls::interpret_model(m, v, body);
            (AdapterModel::Jdtls(n), s)
        },
        AdapterModel::Expert(m) => {
            let (n, s) = expert::interpret_model(m, v, body);
            (AdapterModel::Expert(n), s)
        },
        AdapterModel::Nextflow(m) => {
            let (n, s) = nextflow::interpret_model(m, v, body);
            (AdapterModel::Nextflow(n), s)
        },
        AdapterModel::Haskell(m) => {
            let (n, s) = haskell_language_server::interpret_model(m, v, body);
            (AdapterModel::Haskell(n), s)
        },
        AdapterModel::Crystalline(m) => {
            let (n, s) = crystalline::interpret_model(m, v, body);
            (AdapterModel::Crystalline(n), s)
        },
        AdapterModel::Gleam(m) => {
            let (n, s) = gleam::interpret_model(m, v, body);
            (AdapterModel::Gleam(n), s)
        },
        AdapterModel::Haxe(m) => {
            let (n, s) = haxe_language_server::interpret_model(m, v, body);
            (AdapterModel::Haxe(n), s)
        },
        AdapterModel::Pyright(m) => {
            let (n, s) = pyright::interpret_model(m, v, body);
            (AdapterModel::Pyright(n), s)
        },
        AdapterModel::Typescript(m) => {
            let (n, s) = typescript_language_server::interpret_model(m, v, body);
            (AdapterModel::Typescript(n), s)
        },
        AdapterModel::Nixd(m) => {
            let (n, s) = nixd::interpret_model(m, v, body);
            (AdapterModel::Nixd(n), s)
        },
        AdapterModel::Sorbet(m) => {
            let (n, s) = sorbet::interpret_model(m, v, body);
            (AdapterModel::Sorbet(n), s)
        },
    }
}

/// What each mapping makes of a client message: only rust-analyzer, Metals and Nextflow
/// read any.
pub open spec fn observe_client_of(a: AdapterModel, v: ViewModel, body: Option<JsonModel>) -> (AdapterModel, Option<StateModel>) {
    match a {
        AdapterModel::RustAnalyzer(m) => (
            a,
            if is_notification_model(v) && v.method == Some("workspace/didChangeWatchedFiles"@) && rust_analyzer::announces_reindex(body) {
                Some(StateModel { health: m.last_health, readiness: crate::state::Readiness::Indexing, message: None })
            } else {
                None
            },
        ),
        AdapterModel::Metals(m) => {
            let (n, s) = metals::observe_client_model(m, v, body);
            (AdapterModel::Metals(n), s)
        },
        AdapterModel::Nextflow(m) => {
            let (n, s) = nextflow::observe_client_model(m, v, body);
            (AdapterModel::Nextflow(n), s)
        },
        _ => (a, None),
    }
}

/// What each mapping does with a new identity of the same upstream: pyright's guarantee
/// follows the new version; the others keep theirs.
pub open spec fn learn_identity_of(a: AdapterModel, info: InfoModel) -> AdapterModel {
    match a {
        AdapterModel::Pyright(m) => AdapterModel::Pyright(PyrightModel { version_is_tested: pyright::identity_tested(lower(info.name), info.version), ..m }),
        _ => a,
    }
}

/// What each mapping takes from the client's `initializationOptions`: rust-analyzer its
/// `workspace/symbol` cap.
pub open spec fn learn_options_of(a: AdapterModel, options: JsonModel) -> AdapterModel {
    match a {
        AdapterModel::RustAnalyzer(m) => AdapterModel::RustAnalyzer(match rust_analyzer::symbol_limit_of(options) {
            Some(l) => RustAnalyzerModel { workspace_symbol_limit: l, ..m },
            None => m,
        }),
        _ => a,
    }
}

/// What each mapping takes from the client's workspace folders: Nextflow keeps them.
pub open spec fn learn_folders_of(a: AdapterModel, folders: Seq<Seq<char>>) -> AdapterModel {
    match a {
        AdapterModel::Nextflow(m) => AdapterModel::Nextflow(NextflowModel { folders, ..m }),
        _ => a,
    }
}

impl Adapter {
    /// The state right after connecting to the upstream (the moment the mapping is chosen).
    pub fn initial_state(&self) -> (r: ServerState)
        ensures
            r@ == initial_state_of(self@),
    {
        match self {
            Adapter::Haskell(a) => a.initial_state(),
            Adapter::RustAnalyzer(a) => a.initial_state(),
            Adapter::Gopls(a) => a.initial_state(),
            Adapter::Metals(a) => a.initial_state(),
            Adapter::Dart(a) => a.initial_state(),
            Adapter::Jdtls(a) => a.initial_state(),
            Adapter::Expert(a) => a.initial_state(),
            Adapter::Nextflow(a) => a.initial_state(),
            Adapter::Crystalline(a) => a.initial_state(),
            Adapter::Gleam(a) => a.initial_state(),
            Adapter::Haxe(a) => a.initial_state(),
            Adapter::Pyright(a) => a.initial_state(),
            Adapter::Typescript(a) => a.initial_state(),
            Adapter::Nixd(a) => a.initial_state(),
            Adapter::Sorbet(a) => a.initial_state(),
        }
    }

    /// The guarantee to declare in `InitializeResult`: only for versions the conformance
    /// tests have passed on.
    pub fn guarantees(&self) -> (r: ServerStateProvider)
        ensures
            r@ == guarantees_of(self@),
    {
        match self {
            Adapter::RustAnalyzer(a) => a.guarantees(),
            Adapter::Gopls(a) => a.guarantees(),
            Adapter::Metals(a) => a.guarantees(),
            Adapter::Dart(a) => a.guarantees(),
            Adapter::Jdtls(a) => a.guarantees(),
            Adapter::Expert(a) => a.guarantees(),
            Adapter::Nextflow(a) => a.guarantees(),
            Adapter::Haskell(a) => a.guarantees(),
            Adapter::Crystalline(a) => a.guarantees(),
            Adapter::Gleam(a) => a.guarantees(),
            Adapter::Haxe(a) => a.guarantees(),
            Adapter::Pyright(a) => a.guarantees(),
            Adapter::Typescript(a) => a.guarantees(),
            Adapter::Nixd(a) => a.guarantees(),
            Adapter::Sorbet(a) => a.guarantees(),
        }
    }

    /// Reads the state the upstream is reporting from an upstream-to-client message. `None`
    /// if there is nothing to read (the state does not move).
    pub fn interpret(&mut self, view: &MessageView, body: &[u8]) -> (r: Option<ServerState>)
        requires
            old(self).well_formed(),
        ensures
            final(self).well_formed(),
            (final(self)@, opt_state(r)) == interpret_of(old(self)@, view@, json_parse(body@)),
    {
        match self {
            Adapter::RustAnalyzer(a) => a.interpret(view, body),
            Adapter::Gopls(a) => a.interpret(view, body),
            Adapter::Metals(a) => a.interpret(view, body),
            Adapter::Dart(a) => a.interpret(view, body),
            Adapter::Jdtls(a) => a.interpret(view, body),
            Adapter::Expert(a) => a.interpret(view, body),
            Adapter::Nextflow(a) => a.interpret(view, body),
            Adapter::Haskell(a) => a.interpret(view, body),
            Adapter::Crystalline(a) => a.interpret(view, body),
            Adapter::Gleam(a) => a.interpret(view, body),
            Adapter::Haxe(a) => a.interpret(view, body),
            Adapter::Pyright(a) => a.interpret(view, body),
            Adapter::Typescript(a) => a.interpret(view, body),
            Adapter::Nixd(a) => a.interpret(view, body),
            Adapter::Sorbet(a) => a.interpret(view, body),
        }
    }

    /// Observes a client-to-upstream message. Predicting the start of reindexing from a
    /// notification is done only by a mapping whose server always sends a completion signal
    /// after it.
    pub fn observe_client(&mut self, view: &MessageView, body: &[u8]) -> (r: Option<ServerState>)
        requires
            old(self).well_formed(),
        ensures
            final(self).well_formed(),
            (final(self)@, opt_state(r)) == observe_client_of(old(self)@, view@, json_parse(body@)),
    {
        match self {
            Adapter::RustAnalyzer(a) => a.observe_client(view, body),
            Adapter::Metals(a) => a.observe_client(view, body),
            Adapter::Nextflow(a) => a.observe_client(view, body),
            _ => None,
        }
    }

    /// Another identity announcement from the same upstream arrived.
    pub fn learn_identity(&mut self, info: &ServerInfo)
        requires
            old(self).well_formed(),
        ensures
            final(self).well_formed(),
            final(self)@ == learn_identity_of(old(self)@, info@),
    {
        match self {
            Adapter::Pyright(a) => a.learn_identity(info),
            Adapter::Typescript(a) => a.learn_identity(info),
            _ => {},
        }
    }

    /// The client's `initializationOptions`.
    pub fn learn_initialization_options(&mut self, options: &Json)
        requires
            old(self).well_formed(),
        ensures
            final(self).well_formed(),
            final(self)@ == learn_options_of(old(self)@, options@),
    {
        match self {
            Adapter::RustAnalyzer(a) => a.learn_initialization_options(options),
            _ => {},
        }
    }

    /// The workspace folders of the client's `initialize`.
    pub fn learn_workspace_folders(&mut self, folders: &[String])
        requires
            old(self).well_formed(),
        ensures
            final(self).well_formed(),
            final(self)@ == learn_folders_of(old(self)@, crate::adapter::nextflow::texts(folders@)),
    {
        match self {
            Adapter::Nextflow(a) => a.learn_workspace_folders(folders),
            _ => {},
        }
    }
}

/// The mapping a lower-cased name selects, as it starts (`None` for a name no mapping knows).
pub open spec fn selected(key: Seq<char>, version: Option<Seq<char>>) -> Option<AdapterModel> {
    if key == "rust-analyzer"@ {
        Some(AdapterModel::RustAnalyzer(RustAnalyzerModel { version_is_tested: rust_analyzer::version_tested(version), workspace_symbol_limit: 128, last_health: Health::Unknown }))
    } else if key == "gopls"@ {
        Some(AdapterModel::Gopls(GoplsModel { version_is_tested: gopls::version_tested(version), state: initializing_model(), loading: Seq::empty(), failed_in_round: None, failure: None }))
    } else if key == "metals"@ {
        Some(AdapterModel::Metals(MetalsModel { version_is_tested: metals::version_tested(version), state: initializing_model(), open: Seq::empty(), last_ended_indexing: false }))
    } else if key == dart::SERVER_NAME@ {
        Some(AdapterModel::Dart(DartModel { version_is_tested: version matches Some(v) && dart::TESTED_VERSIONS@[0]@ == v, state: initializing_model() }))
    } else if key == jdtls::SERVER_NAME@ {
        Some(AdapterModel::Jdtls(JdtlsModel {
            version_is_tested: version matches Some(v) && jdtls::TESTED_VERSIONS@[0]@ == v,
            state: initializing_model(),
            status_health: Health::Unknown,
            status_message: None,
            warnings: Seq::empty(),
        }))
    } else if key == "expert"@ {
        Some(AdapterModel::Expert(ExpertModel { state: initializing_model(), open: Seq::empty(), last_ended_indexing: false }))
    } else if key == nextflow::SERVER_NAME@ {
        Some(AdapterModel::Nextflow(NextflowModel {
            state: initializing_model(),
            folders: Seq::empty(),
            exclude: Seq::empty(),
            initializing: None,
            initialized: false,
            scan_pending: false,
            expected: Set::empty(),
            pending: Set::empty(),
        }))
    } else if key == haskell_language_server::SERVER_NAME@ {
        Some(AdapterModel::Haskell(HaskellModel { state: unobserved_model(), failures: Seq::empty() }))
    } else if key == crystalline::SERVER_NAME@ {
        Some(AdapterModel::Crystalline(initializing_model()))
    } else if key == gleam::SERVER_NAME@ {
        Some(AdapterModel::Gleam(initializing_model()))
    } else if key == haxe_language_server::SERVER_NAME@ {
        Some(AdapterModel::Haxe(HaxeModel { state: initializing_model(), open: Seq::empty() }))
    } else if key == "pyright"@ || key == "basedpyright"@ {
        Some(AdapterModel::Pyright(PyrightModel { version_is_tested: pyright::identity_tested(key, version), state: initializing_model(), instances: 0, completed: 0 }))
    } else if key == typescript_language_server::SERVER_NAME@ {
        Some(AdapterModel::Typescript(TypescriptModel { version_is_tested: typescript_language_server::version_tested(version), state: initializing_model(), loading: Seq::empty() }))
    } else if key == nixd::SERVER_NAME@ {
        Some(AdapterModel::Nixd(NixdModel { state: initializing_model(), open: Seq::empty() }))
    } else if key == sorbet::SERVER_NAME@ {
        Some(AdapterModel::Sorbet(SorbetModel { state: initializing_model(), open_operations: 0 }))
    } else {
        None
    }
}

/// The mapping corresponding to the name the upstream calls itself, compared without regard
/// to ASCII case (`serverInfo.name` is a free-form display string). `None` if it is not
/// known: the upstream side then reports `unknown` on both axes.
pub fn select(server_name: &str, version: Option<&str>) -> (r: Option<Adapter>)
    ensures
        match r {
            Some(a) => a.well_formed() && selected(lower(server_name@), match version { Some(v) => Some(v@), None => None }) == Some(a@),
            None => selected(lower(server_name@), match version { Some(v) => Some(v@), None => None }) is None,
        },
{
    let key = to_lower(server_name);
    let k = key.as_str();
    if str_eq(k, "rust-analyzer") {
        Some(Adapter::RustAnalyzer(RustAnalyzerAdapter::for_version(version)))
    } else if str_eq(k, "gopls") {
        Some(Adapter::Gopls(GoplsAdapter::for_version(version)))
    } else if str_eq(k, "metals") {
        Some(Adapter::Metals(MetalsAdapter::for_version(version)))
    } else if str_eq(k, dart::SERVER_NAME) {
        Some(Adapter::Dart(DartAdapter::for_version(version)))
    } else if str_eq(k, jdtls::SERVER_NAME) {
        Some(Adapter::Jdtls(JdtlsAdapter::for_version(version)))
    } else if str_eq(k, "expert") {
        Some(Adapter::Expert(ExpertAdapter::new()))
    } else if str_eq(k, nextflow::SERVER_NAME) {
        Some(Adapter::Nextflow(NextflowAdapter::new()))
    } else if str_eq(k, haskell_language_server::SERVER_NAME) {
        Some(Adapter::Haskell(HaskellLanguageServerAdapter::new()))
    } else if str_eq(k, crystalline::SERVER_NAME) {
        Some(Adapter::Crystalline(CrystallineAdapter::new()))
    } else if str_eq(k, gleam::SERVER_NAME) {
        Some(Adapter::Gleam(GleamAdapter::new()))
    } else if str_eq(k, haxe_language_server::SERVER_NAME) {
        Some(Adapter::Haxe(HaxeLanguageServerAdapter::new()))
    } else if str_eq(k, "pyright") || str_eq(k, "basedpyright") {
        Some(Adapter::Pyright(PyrightAdapter::for_identity(k, version)))
    } else if str_eq(k, typescript_language_server::SERVER_NAME) {
        Some(Adapter::Typescript(TypescriptLanguageServerAdapter::for_version(version)))
    } else if str_eq(k, nixd::SERVER_NAME) {
        Some(Adapter::Nixd(NixdAdapter::new()))
    } else if str_eq(k, sorbet::SERVER_NAME) {
        Some(Adapter::Sorbet(SorbetAdapter::new()))
    } else {
        None
    }
}

/// The identity an `InitializeResult` body declares for an upstream that returns no
/// `serverInfo`: Nextflow's language server by its `nextflow.server.*` commands,
/// haskell-language-server by its pid-prefixed `ghcide-…` ones. Neither version is
/// observable. `None` when `serverInfo` is present (that is the identity) or nothing is
/// recognized.
pub open spec fn result_identity(body: Option<JsonModel>) -> Option<InfoModel> {
    match body {
        Some(root) => match member(root, "result"@) {
            Some(result) => if member(result, "serverInfo"@) matches Some(info) && !(info is Null) {
                None
            } else if nextflow::nextflow_result(result) {
                Some(InfoModel { name: nextflow::SERVER_NAME@, version: None })
            } else if haskell_language_server::hls_result(result) {
                Some(InfoModel { name: haskell_language_server::SERVER_NAME@, version: None })
            } else {
                None
            },
            None => None,
        },
        None => None,
    }
}

/// The identity an `InitializeResult` declares, for an upstream without `serverInfo`.
pub fn identity_from_initialize_result(body: &[u8]) -> (r: Option<ServerInfo>)
    ensures
        match r {
            Some(i) => result_identity(json_parse(body@)) == Some(i@),
            None => result_identity(json_parse(body@)) is None,
        },
{
    let root = match parse_json(body) {
        Some(j) => j,
        None => return None,
    };
    let result = match get(&root, "result") {
        Some(r) => r,
        None => return None,
    };
    if let Some(info) = get(result, "serverInfo") {
        if !is_null(info) {
            return None;
        }
    }
    let name = if nextflow::is_nextflow_initialize_result(result) {
        nextflow::SERVER_NAME
    } else if haskell_language_server::is_hls_initialize_result(result) {
        haskell_language_server::SERVER_NAME
    } else {
        return None;
    };
    Some(ServerInfo { name: name.to_owned(), version: None })
}

/// The identity a startup log line announces: pyright's, typescript-language-server's,
/// crystalline's or the Haxe language server's.
pub open spec fn log_identity(message: Seq<char>) -> Option<InfoModel> {
    if pyright::startup_identity_model(message) is Some {
        pyright::startup_identity_model(message)
    } else if typescript_language_server::startup_identity_model(message) is Some {
        typescript_language_server::startup_identity_model(message)
    } else if crate::text::starts(message, crystalline::FOUND_PROJECTS_PREFIX@) {
        Some(InfoModel { name: crystalline::SERVER_NAME@, version: None })
    } else if crate::text::starts(message, haxe_language_server::PATH_LOG_PREFIX@) {
        Some(InfoModel { name: haxe_language_server::SERVER_NAME@, version: None })
    } else {
        None
    }
}

/// The identity announcement an upstream that returns no `serverInfo` sends on its own at
/// startup, read from an upstream-to-client notification.
pub open spec fn notification_identity(v: ViewModel, body: Option<JsonModel>) -> Option<InfoModel> {
    if !is_notification_model(v) {
        None
    } else if v.method == Some("window/logMessage"@) {
        match params_of(v, "window/logMessage"@, body) {
            Some(p) => match crate::json::text_field(p, "message"@) {
                Some(m) => log_identity(m),
                None => None,
            },
            None => None,
        }
    } else if v.method == Some("$/typescriptVersion"@) {
        match params_of(v, "$/typescriptVersion"@, body) {
            Some(p) => typescript_language_server::version_notification_model(p),
            None => None,
        }
    } else if v.method == Some("$/progress"@) && gleam::dependency_begin(body) {
        Some(InfoModel { name: gleam::SERVER_NAME@, version: None })
    } else if v.method == Some(sorbet::SHOW_OPERATION_METHOD@) {
        Some(InfoModel { name: sorbet::SERVER_NAME@, version: None })
    } else {
        None
    }
}

/// The identity announcement of an upstream that does not return `serverInfo`: pyright's
/// `window/logMessage` ("Pyright language server 1.1.412 starting"),
/// typescript-language-server's own `$/typescriptVersion` and startup log, crystalline's
/// "Found projects" log, the Haxe language server's "Haxe Path" log, and the `begin` of
/// Gleam's dependency download, and Sorbet's `sorbet/showOperation` (its method alone).
/// `None` if it is not an identity announcement.
pub fn identity_from_notification(view: &MessageView, body: &[u8]) -> (r: Option<ServerInfo>)
    ensures
        match r {
            Some(i) => notification_identity(view@, json_parse(body@)) == Some(i@),
            None => notification_identity(view@, json_parse(body@)) is None,
        },
{
    if !view.is_notification() {
        return None;
    }
    let method = match view.method() {
        Some(m) => m,
        None => return None,
    };
    if str_eq(method, "window/logMessage") {
        let p = match read_params(view, "window/logMessage", body) {
            Some(p) => p,
            None => return None,
        };
        let m = match text_member(&p, "message") {
            Some(m) => m,
            None => return None,
        };
        if let Some(i) = pyright::startup_identity(m.as_str()) {
            return Some(i);
        }
        if let Some(i) = typescript_language_server::startup_identity(m.as_str()) {
            return Some(i);
        }
        if crystalline::identity_from_log(m.as_str()) {
            return Some(ServerInfo { name: crystalline::SERVER_NAME.to_owned(), version: None });
        }
        if haxe_language_server::identity_from_log(m.as_str()) {
            return Some(ServerInfo { name: haxe_language_server::SERVER_NAME.to_owned(), version: None });
        }
        None
    } else if str_eq(method, "$/typescriptVersion") {
        let p = match read_params(view, "$/typescriptVersion", body) {
            Some(p) => p,
            None => return None,
        };
        typescript_language_server::identity_from_typescript_version(&p)
    } else if str_eq(method, "$/progress") && gleam::is_dependency_progress_begin(body) {
        Some(ServerInfo { name: gleam::SERVER_NAME.to_owned(), version: None })
    } else if str_eq(method, sorbet::SHOW_OPERATION_METHOD) {
        Some(ServerInfo { name: sorbet::SERVER_NAME.to_owned(), version: None })
    } else {
        None
    }
}

} // verus!
