//! The clangd mapping.
//!
//! Identified by `serverInfo.name` "clangd"; the version is the whole `serverInfo.version`
//! string, which names the platform too, so a build for another platform is another version.
//!
//! - **readiness**: starts `initializing`. clangd sends `$/progress` with the fixed token
//!   `backgroundIndexProgress` once a compilation database was found: its begin is
//!   `indexing`, its end `ready`, and the pair repeats whenever the index queue fills again.
//!   `report`s and other tokens are ignored
//! - **the compilation-database probe**: without a database that token never comes, and
//!   waiting cannot tell "none" from "not yet". So the first `textDocument/didOpen` of a file
//!   path is probed where clangd itself looks: from the file's directory up to the root,
//!   `compile_commands.json`, `build/compile_commands.json` and `compile_flags.txt` at each
//!   level, or only `<dir>/compile_commands.json` when clangd was launched with
//!   `--compile-commands-dir`. [`ClangdAdapter::probe_request`] names the files to look for,
//!   whoever can see the disk looks, and [`ClangdAdapter::settle_probe`] takes the answer:
//!   found leaves the state alone, not found is `unknown`. The judgment is made once
//! - **health**: no signal; `unknown`
//!
//! `coverage` over the workspace is declared only for the tested version; `freshness` never is.

use vstd::prelude::*;

use crate::adapter::params_of;
use crate::adapter::read_params;
use crate::adapter::nil::progress_of;
use crate::adapter::nextflow::texts;
use crate::adapter::typescript_layout::{components, components_of};
use crate::json::{JsonModel, get, json_parse, member, text_field, text_member};
use crate::peek::{MessageView, ViewModel};
use crate::state::{Readiness, ServerState, ServerStateProvider, StateModel, ProviderModel, CoverageModel, CoverageScope, initializing_model, notifications_only_model, opt_state, caps_of};
use crate::text::{str_eq, strip_prefix, starts};
use crate::uri::{checked_path, uri_to_path};

verus! {

/// The name clangd calls itself.
pub const SERVER_NAME: &'static str = "clangd";

/// The progress notification.
pub const PROGRESS_METHOD: &'static str = "$/progress";

/// The notification of an opened document.
pub const DID_OPEN_METHOD: &'static str = "textDocument/didOpen";

/// The fixed token of the background index's progress.
pub const BACKGROUND_INDEX_TOKEN: &'static str = "backgroundIndexProgress";

/// clangd's flag that scopes its database search to one directory.
pub const COMPILE_COMMANDS_DIR_FLAG: &'static str = "--compile-commands-dir";

/// The flag with its value joined by `=`, up to the value.
pub const COMPILE_COMMANDS_DIR_PREFIX: &'static str = "--compile-commands-dir=";

/// The compilation database's file name.
pub const COMPILE_COMMANDS_JSON: &'static str = "compile_commands.json";

/// The database in a `build` directory.
pub const BUILD_COMPILE_COMMANDS_JSON: &'static str = "build/compile_commands.json";

/// The flat flags file clangd also takes as a database.
pub const COMPILE_FLAGS_TXT: &'static str = "compile_flags.txt";

/// The versions the conformance tests passed on.
pub const TESTED_VERSIONS: [&'static str; 1] = ["clangd version 21.1.8 linux x86_64-unknown-linux-gnu"];

/// The model of a [`ClangdAdapter`].
pub ghost struct ClangdModel {
    pub version_is_tested: bool,
    pub state: StateModel,
    /// Whether the first `didOpen` of a file path has been probed.
    pub database_probed: bool,
    /// The `--compile-commands-dir` clangd was launched with.
    pub compile_commands_dir: Option<Seq<char>>,
}

/// The clangd mapping.
pub struct ClangdAdapter {
    version_is_tested: bool,
    state: ServerState,
    database_probed: bool,
    compile_commands_dir: Option<String>,
}

impl View for ClangdAdapter {
    type V = ClangdModel;

    closed spec fn view(&self) -> ClangdModel {
        ClangdModel {
            version_is_tested: self.version_is_tested,
            state: self.state@,
            database_probed: self.database_probed,
            compile_commands_dir: match self.compile_commands_dir {
                Some(d) => Some(d@),
                None => None,
            },
        }
    }
}

/// The directory of launch arguments from `args[i]` on: the first
/// `--compile-commands-dir=<dir>`, or `--compile-commands-dir` followed by `<dir>`.
pub open spec fn cdb_from(args: Seq<Seq<char>>, i: int) -> Option<Seq<char>>
    decreases args.len() - i,
{
    if i < 0 || i >= args.len() {
        None
    } else if starts(args[i], COMPILE_COMMANDS_DIR_PREFIX@) {
        Some(args[i].skip(COMPILE_COMMANDS_DIR_PREFIX@.len() as int))
    } else if args[i] == COMPILE_COMMANDS_DIR_FLAG@ {
        if i + 1 < args.len() {
            Some(args[i + 1])
        } else {
            None
        }
    } else {
        cdb_from(args, i + 1)
    }
}

/// `name` under the directory `dir` (`Path::join`): a `/` between them unless `dir` is empty
/// or already ends with one.
pub open spec fn in_dir(dir: Seq<char>, name: Seq<char>) -> Seq<char> {
    if dir.len() == 0 || dir.last() == '/' {
        dir + name
    } else {
        dir + seq!['/'] + name
    }
}

/// The text of the absolute directory whose components are `c` (the root first).
pub open spec fn dir_text(c: Seq<Seq<char>>) -> Seq<char>
    decreases c.len(),
{
    if c.len() <= 1 {
        seq!['/']
    } else if c.len() == 2 {
        seq!['/'] + c[1]
    } else {
        dir_text(c.drop_last()) + seq!['/'] + c.last()
    }
}

/// The files that make a database in one directory, in clangd's order.
pub open spec fn level_candidates(dir: Seq<char>) -> Seq<Seq<char>> {
    seq![in_dir(dir, COMPILE_COMMANDS_JSON@), in_dir(dir, BUILD_COMPILE_COMMANDS_JSON@), in_dir(dir, COMPILE_FLAGS_TXT@)]
}

/// The files to look for from the directory whose components are `c` up to the root, nearest
/// directory first.
pub open spec fn walk_candidates(c: Seq<Seq<char>>) -> Seq<Seq<char>>
    decreases c.len(),
{
    if c.len() == 0 {
        Seq::empty()
    } else {
        level_candidates(dir_text(c)) + walk_candidates(c.drop_last())
    }
}

/// The files whose presence means a database for the opened absolute `path`: only
/// `<dir>/compile_commands.json` for a `--compile-commands-dir`, else the walk from the file's
/// directory up. `None` for a path with no parent directory (the root, an empty path).
pub open spec fn probe_files(cdb: Option<Seq<char>>, path: Seq<char>) -> Option<Seq<Seq<char>>> {
    let c = components(path);
    if c.len() < 2 || c[0] != seq!['/'] {
        None
    } else {
        match cdb {
            Some(d) => Some(seq![in_dir(d, COMPILE_COMMANDS_JSON@)]),
            None => Some(walk_candidates(c.drop_last())),
        }
    }
}

/// The `textDocument.uri` of a `didOpen`'s params.
pub open spec fn did_open_uri(p: JsonModel) -> Option<Seq<char>> {
    match member(p, "textDocument"@) {
        Some(d) => text_field(d, "uri"@),
        None => None,
    }
}

/// What the mapping makes of an upstream message: a begin of the background index token is
/// `indexing`, its end `ready`; nothing else is read.
pub open spec fn interpret_model(a: ClangdModel, v: ViewModel, body: Option<JsonModel>) -> (ClangdModel, Option<StateModel>) {
    match params_of(v, PROGRESS_METHOD@, body) {
        Some(p) => match progress_of(p) {
            Some((t, k)) => if t != BACKGROUND_INDEX_TOKEN@ {
                (a, None)
            } else if k == "begin"@ {
                let s = StateModel { readiness: Readiness::Indexing, ..a.state };
                (ClangdModel { state: s, ..a }, Some(s))
            } else if k == "end"@ {
                let s = StateModel { readiness: Readiness::Ready, ..a.state };
                (ClangdModel { state: s, ..a }, Some(s))
            } else {
                (a, None)
            },
            None => (a, None),
        },
        None => (a, None),
    }
}

/// What a client message does to the probe: the first `didOpen` of a file path (a `file:`
/// URI with a parent directory) uses the probe up and names the files to look for.
pub open spec fn probe_model(a: ClangdModel, v: ViewModel, body: Option<JsonModel>) -> (ClangdModel, Option<Seq<Seq<char>>>) {
    if a.database_probed {
        (a, None)
    } else {
        match params_of(v, DID_OPEN_METHOD@, body) {
            Some(p) => match did_open_uri(p) {
                Some(u) => match checked_path(u) {
                    Some(path) => match probe_files(a.compile_commands_dir, path) {
                        Some(files) => (ClangdModel { database_probed: true, ..a }, Some(files)),
                        None => (a, None),
                    },
                    None => (a, None),
                },
                None => (a, None),
            },
            None => (a, None),
        }
    }
}

/// What the probe's answer does: a database found leaves the state alone; none is `unknown`.
pub open spec fn settle_model(a: ClangdModel, found: bool) -> (ClangdModel, Option<StateModel>) {
    if found {
        (a, None)
    } else {
        let s = StateModel { readiness: Readiness::Unknown, ..a.state };
        (ClangdModel { state: s, ..a }, Some(s))
    }
}

/// The guarantee: `coverage` over the workspace for a tested version, nothing otherwise.
pub open spec fn guarantees_model(a: ClangdModel) -> ProviderModel {
    if a.version_is_tested {
        ProviderModel { coverage: Some(CoverageModel { scope: CoverageScope::Workspace, incomplete: caps_of(Seq::empty()) }), freshness: None }
    } else {
        notifications_only_model()
    }
}

/// The probe's judgment is made once: after a client message has used the probe up, no later
/// message is probed again.
pub proof fn law_the_probe_is_made_once(a: ClangdModel, v: ViewModel, body: Option<JsonModel>, v2: ViewModel, body2: Option<JsonModel>)
    requires
        probe_model(a, v, body).1 is Some,
    ensures
        probe_model(probe_model(a, v, body).0, v2, body2) == (probe_model(a, v, body).0, None::<Seq<Seq<char>>>),
        probe_model(a, v, body).0.state == a.state,
{
}

/// A begin of the background index token is `indexing` from any state, the `unknown` a probe
/// settled on included; its end is `ready`.
pub proof fn law_a_begin_is_indexing_from_any_state(a: ClangdModel, v: ViewModel, body: Option<JsonModel>, p: JsonModel)
    requires
        params_of(v, PROGRESS_METHOD@, body) == Some(p),
        progress_of(p) matches Some((t, k)) && t == BACKGROUND_INDEX_TOKEN@ && (k == "begin"@ || k == "end"@),
    ensures
        interpret_model(a, v, body).1 matches Some(s) && s.readiness == (if progress_of(p).unwrap().1 == "begin"@ { Readiness::Indexing } else { Readiness::Ready }),
        interpret_model(a, v, body).0.state.health == a.state.health,
{
}

/// The views of an optional list of texts.
pub open spec fn opt_texts(r: Option<Vec<String>>) -> Option<Seq<Seq<char>>> {
    match r {
        Some(v) => Some(texts(v@)),
        None => None,
    }
}

/// `--compile-commands-dir=<dir>` or `--compile-commands-dir <dir>` among the launch
/// arguments; the first one wins.
fn compile_commands_dir_argument(args: &[String]) -> (r: Option<String>)
    ensures
        match r {
            Some(d) => cdb_from(texts(args@), 0) == Some(d@),
            None => cdb_from(texts(args@), 0) is None,
        },
{
    let ghost a = texts(args@);
    let mut i: usize = 0;
    while i < args.len()
        invariant
            i <= args@.len(),
            a == texts(args@),
            cdb_from(a, i as int) == cdb_from(a, 0),
        decreases args@.len() - i,
    {
        assert(a[i as int] == args@[i as int]@);
        if let Some(v) = strip_prefix(args[i].as_str(), COMPILE_COMMANDS_DIR_PREFIX) {
            return Some(v);
        }
        if str_eq(args[i].as_str(), COMPILE_COMMANDS_DIR_FLAG) {
            if i + 1 < args.len() {
                assert(a[i + 1] == args@[i + 1]@);
                return Some(args[i + 1].clone());
            }
            return None;
        }
        i = i + 1;
    }
    None
}

/// `name` under `dir` (`Path::join`).
fn in_dir_of(dir: &str, name: &str) -> (r: String)
    ensures
        r@ == in_dir(dir@, name@),
{
    let mut s = String::from_str(dir);
    let cs = crate::text::chars_of(dir);
    if !(cs.len() == 0 || cs[cs.len() - 1] == '/') {
        crate::text::push_char(&mut s, '/');
    }
    s.append(name);
    s
}

/// The text of the directory made of the first `n` components (the root first).
fn dir_text_of(c: &Vec<String>, n: usize) -> (r: String)
    requires
        1 <= n <= c@.len(),
    ensures
        r@ == dir_text(texts(c@).take(n as int)),
{
    let ghost t = texts(c@);
    let mut s = String::from_str("/");
    proof {
        reveal_strlit("/");
        assert("/"@ =~= seq!['/']);
    }
    let mut k: usize = 1;
    while k < n
        invariant
            1 <= k <= n <= c@.len(),
            t == texts(c@),
            s@ == dir_text(t.take(k as int)),
        decreases n - k,
    {
        let ghost before = s@;
        if k > 1 {
            crate::text::push_char(&mut s, '/');
        }
        s.append(c[k].as_str());
        let ghost next = t.take(k + 1);
        assert(next.drop_last() =~= t.take(k as int));
        assert(next.last() == c@[k as int]@);
        if k == 1 {
            assert(next.len() == 2 && next[1] == c@[1]@);
            assert(s@ =~= dir_text(next));
        } else {
            assert(s@ =~= before + seq!['/'] + c@[k as int]@);
        }
        k = k + 1;
    }
    s
}

/// Appends the three database files of one directory.
fn push_level(out: &mut Vec<String>, dir: &str)
    ensures
        texts(final(out)@) == texts(old(out)@) + level_candidates(dir@),
{
    out.push(in_dir_of(dir, COMPILE_COMMANDS_JSON));
    out.push(in_dir_of(dir, BUILD_COMPILE_COMMANDS_JSON));
    out.push(in_dir_of(dir, COMPILE_FLAGS_TXT));
    assert(texts(out@) =~= texts(old(out)@) + level_candidates(dir@));
}

/// The files of [`probe_files`].
fn probe_files_of(cdb: &Option<String>, path: &str) -> (r: Option<Vec<String>>)
    ensures
        opt_texts(r) == probe_files(
            match cdb {
                Some(d) => Some(d@),
                None => None,
            },
            path@,
        ),
{
    let c = components_of(path);
    let ghost t = texts(c@);
    if c.len() < 2 || !str_eq(c[0].as_str(), "/") {
        proof {
            reveal_strlit("/");
            assert("/"@ =~= seq!['/']);
            if c@.len() >= 2 {
                assert(t[0] == c@[0]@);
            }
        }
        return None;
    }
    proof {
        reveal_strlit("/");
        assert("/"@ =~= seq!['/']);
        assert(t[0] == c@[0]@);
    }
    match cdb {
        Some(d) => {
            let mut v: Vec<String> = Vec::new();
            v.push(in_dir_of(d.as_str(), COMPILE_COMMANDS_JSON));
            assert(texts(v@) =~= seq![in_dir(d@, COMPILE_COMMANDS_JSON@)]);
            Some(v)
        },
        None => {
            let ghost dc = t.drop_last();
            let mut out: Vec<String> = Vec::new();
            let mut n: usize = c.len() - 1;
            assert(dc.take(n as int) =~= dc);
            assert(texts(out@) =~= Seq::<Seq<char>>::empty());
            while n > 0
                invariant
                    n <= dc.len(),
                    dc.len() == c@.len() - 1,
                    t == texts(c@),
                    dc == t.drop_last(),
                    texts(out@) + walk_candidates(dc.take(n as int)) == walk_candidates(dc),
                decreases n,
            {
                let d = dir_text_of(&c, n);
                assert(t.take(n as int) =~= dc.take(n as int));
                let ghost before = texts(out@);
                push_level(&mut out, d.as_str());
                assert(dc.take(n as int).drop_last() =~= dc.take(n - 1));
                assert(walk_candidates(dc.take(n as int)) == level_candidates(dir_text(dc.take(n as int))) + walk_candidates(dc.take(n - 1)));
                assert(texts(out@) + walk_candidates(dc.take(n - 1)) =~= before + walk_candidates(dc.take(n as int)));
                n = n - 1;
            }
            assert(dc.take(0) =~= Seq::<Seq<char>>::empty());
            assert(texts(out@) =~= walk_candidates(dc));
            Some(out)
        },
    }
}

impl ClangdAdapter {
    /// For a clangd that announces no version: no guarantee.
    pub fn new() -> (r: Self)
        ensures
            r@ == (ClangdModel { version_is_tested: false, state: initializing_model(), database_probed: false, compile_commands_dir: None }),
    {
        Self::for_version(None)
    }

    /// Looks at `serverInfo.version`: a guarantee for a tested version.
    pub fn for_version(version: Option<&str>) -> (r: Self)
        ensures
            r@ == (ClangdModel {
                version_is_tested: version matches Some(v) && TESTED_VERSIONS@[0]@ == v@,
                state: initializing_model(),
                database_probed: false,
                compile_commands_dir: None,
            }),
    {
        let tested = TESTED_VERSIONS;
        let version_is_tested = match version {
            Some(v) => str_eq(tested[0], v),
            None => false,
        };
        ClangdAdapter { version_is_tested, state: ServerState::initializing(), database_probed: false, compile_commands_dir: None }
    }

    /// The state the mapping has read so far.
    pub fn state(&self) -> (r: ServerState)
        ensures
            r@ == self@.state,
    {
        self.state.copied()
    }

    /// The state right after connecting.
    pub fn initial_state(&self) -> (r: ServerState)
        ensures
            r@ == initializing_model(),
    {
        ServerState::initializing()
    }

    /// The guarantee to declare.
    pub fn guarantees(&self) -> (r: ServerStateProvider)
        ensures
            r@ == guarantees_model(self@),
    {
        if self.version_is_tested {
            let none: [(&str, u64); 0] = [];
            let r = ServerStateProvider::coverage_only(&none);
            assert(crate::state::caps_arg_view(none@) =~= Seq::empty());
            r
        } else {
            ServerStateProvider::notifications_only()
        }
    }

    /// Reads the background index's progress.
    pub fn interpret(&mut self, view: &MessageView, body: &[u8]) -> (r: Option<ServerState>)
        ensures
            (final(self)@, opt_state(r)) == interpret_model(old(self)@, view@, json_parse(body@)),
    {
        let p = match read_params(view, PROGRESS_METHOD, body) {
            Some(p) => p,
            None => return None,
        };
        let token = match text_member(&p, "token") {
            Some(t) => t,
            None => return None,
        };
        let kind = match get(&p, "value") {
            Some(v) => match text_member(v, "kind") {
                Some(k) => k,
                None => return None,
            },
            None => return None,
        };
        if !str_eq(token.as_str(), BACKGROUND_INDEX_TOKEN) {
            return None;
        }
        if str_eq(kind.as_str(), "begin") {
            self.state.readiness = Readiness::Indexing;
        } else if str_eq(kind.as_str(), "end") {
            self.state.readiness = Readiness::Ready;
        } else {
            return None;
        }
        Some(self.state.copied())
    }

    /// Learns `--compile-commands-dir` from the arguments clangd was launched with.
    pub fn learn_upstream_arguments(&mut self, args: &[String])
        ensures
            final(self)@ == (ClangdModel { compile_commands_dir: cdb_from(texts(args@), 0), ..old(self)@ }),
    {
        self.compile_commands_dir = compile_commands_dir_argument(args);
    }

    /// The probe's question, read from the first `didOpen` of a file path: the files whose
    /// presence means a compilation database. The probe is then used up.
    pub fn probe_request(&mut self, view: &MessageView, body: &[u8]) -> (r: Option<Vec<String>>)
        ensures
            (final(self)@, opt_texts(r)) == probe_model(old(self)@, view@, json_parse(body@)),
    {
        if self.database_probed {
            return None;
        }
        let p = match read_params(view, DID_OPEN_METHOD, body) {
            Some(p) => p,
            None => return None,
        };
        let uri = match get(&p, "textDocument") {
            Some(d) => match text_member(d, "uri") {
                Some(u) => u,
                None => return None,
            },
            None => return None,
        };
        let path = match uri_to_path(uri.as_str()) {
            Some(path) => path,
            None => return None,
        };
        let files = match probe_files_of(&self.compile_commands_dir, path.as_str()) {
            Some(files) => files,
            None => return None,
        };
        self.database_probed = true;
        Some(files)
    }

    /// The probe's answer: whether one of the files named by [`Self::probe_request`] exists.
    pub fn settle_probe(&mut self, found: bool) -> (r: Option<ServerState>)
        ensures
            (final(self)@, opt_state(r)) == settle_model(old(self)@, found),
    {
        if found {
            return None;
        }
        self.state.readiness = Readiness::Unknown;
        Some(self.state.copied())
    }
}

} // verus!
