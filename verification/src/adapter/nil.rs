//! The nil mapping.
//!
//! Identified by `serverInfo.name` "nil"; the version is `serverInfo.version`.
//!
//! - **readiness**: starts `initializing`. The begin of one of three fixed `$/progress`
//!   tokens (the NixOS options load, the input flake load, a flake archive fetch) adds the
//!   token to the open loads and is `indexing`; the matching end removes it, and the state is
//!   `ready` once none is left open. Other tokens, `report`s and ends of tokens not open are
//!   ignored. A workspace whose `flake.lock` has no `nixpkgs` input in its root node (or that
//!   has no `flake.lock`) never sends a begin, so there the state starts `unknown`; so does a
//!   `window/showMessage` warning that comes before any begin
//! - **health**: `window/showMessage` type 1 is `error`, type 2 is `warning` (the message is
//!   carried); a begin of a known token is `ok`
//!
//! `coverage` over the open documents is declared only for the tested version; `freshness`
//! never is.

use vstd::prelude::*;

use crate::adapter::{params_of, read_params};
use crate::adapter::haxe_language_server::show_message_of;
use crate::json::{Json, JsonModel, as_u64, get, json_parse, json_parse_text, member, parse_json_text, text_field, text_member};
use crate::peek::{MessageView, ViewModel, is_notification_model};
use crate::state::{Health, Readiness, ServerState, ServerStateProvider, StateModel, ProviderModel, CoverageModel, CoverageScope, initializing_model, notifications_only_model, opt_state, opt_view, caps_of};
use crate::text::{str_eq, str_in};

verus! {

/// The name nil calls itself.
pub const SERVER_NAME: &'static str = "nil";

/// The progress notification.
pub const PROGRESS_METHOD: &'static str = "$/progress";

/// The message notification.
pub const SHOW_MESSAGE_METHOD: &'static str = "window/showMessage";

/// The tokens of the loads that read flake information.
pub const KNOWN_TOKENS: [&'static str; 3] = [
    "nil/loadNixosOptionsProgress",
    "nil/loadInputFlakeProgress",
    "nil/flakeArchiveProgress",
];

/// The versions the conformance tests passed on.
pub const TESTED_VERSIONS: [&'static str; 1] = ["2026-07-23"];

/// The model of a [`NilAdapter`].
pub ghost struct NilModel {
    pub version_is_tested: bool,
    pub state: StateModel,
    pub open: Seq<Seq<char>>,
    /// Whether a known begin has been seen.
    pub begun: bool,
    /// What the workspace's `flake.lock` files said: whether one has a `nixpkgs` input
    /// (`None` until the folders are learned).
    pub nixpkgs_expected: Option<bool>,
}

/// The nil mapping.
pub struct NilAdapter {
    version_is_tested: bool,
    state: ServerState,
    /// The known tokens begun and not ended.
    open: Vec<String>,
    begun: bool,
    nixpkgs_expected: Option<bool>,
}

impl View for NilAdapter {
    type V = NilModel;

    closed spec fn view(&self) -> NilModel {
        NilModel {
            version_is_tested: self.version_is_tested,
            state: self.state@,
            open: crate::adapter::nextflow::texts(self.open@),
            begun: self.begun,
            nixpkgs_expected: self.nixpkgs_expected,
        }
    }
}

/// Whether a token is one of [`KNOWN_TOKENS`].
pub open spec fn known_token(t: Seq<char>) -> bool {
    exists|i: int| 0 <= i < 3 && KNOWN_TOKENS@[i]@ == t
}

/// The first open token equal to `t`.
pub open spec fn open_position(open: Seq<Seq<char>>, t: Seq<char>) -> Option<int>
    decreases open.len(),
{
    if open.len() == 0 {
        None
    } else if open[0] == t {
        Some(0)
    } else {
        match open_position(open.drop_first(), t) {
            Some(k) => Some(k + 1),
            None => None,
        }
    }
}

/// What one progress does.
pub open spec fn on_progress_model(a: NilModel, token: Seq<char>, kind: Seq<char>) -> (NilModel, Option<StateModel>) {
    if kind == "begin"@ {
        if !known_token(token) {
            (a, None)
        } else {
            let next = StateModel { health: Health::Okay, readiness: Readiness::Indexing, message: None };
            let b = NilModel { open: a.open.push(token), begun: true, ..a };
            if next == a.state {
                (b, None)
            } else {
                (NilModel { state: next, ..b }, Some(next))
            }
        }
    } else if kind == "end"@ {
        match open_position(a.open, token) {
            Some(k) => {
                let open = a.open.remove(k);
                if open.len() != 0 {
                    (NilModel { open, ..a }, None)
                } else {
                    let s = StateModel { readiness: Readiness::Ready, ..a.state };
                    (NilModel { state: s, open, ..a }, Some(s))
                }
            },
            None => (a, None),
        }
    } else {
        (a, None)
    }
}

/// What one `window/showMessage` does: an error or a warning moves health and carries the
/// message; a warning before any begin is also `unknown` readiness.
pub open spec fn on_show_message_model(a: NilModel, kind: u64, message: Seq<char>) -> (NilModel, Option<StateModel>) {
    if kind != 1 && kind != 2 {
        (a, None)
    } else {
        let health = if kind == 1 { Health::Error } else { Health::Warning };
        let readiness = if kind == 2 && !a.begun { Readiness::Unknown } else { a.state.readiness };
        let next = StateModel { health, readiness, message: Some(message) };
        if next == a.state {
            (a, None)
        } else {
            (NilModel { state: next, ..a }, Some(next))
        }
    }
}

/// An end of a token that is not open changes nothing, so it never makes the state `ready`.
pub proof fn law_an_end_of_a_token_not_open_changes_nothing(a: NilModel, token: Seq<char>)
    requires
        !a.open.contains(token),
    ensures
        on_progress_model(a, token, "end"@) == (a, None::<StateModel>),
{
    reveal_strlit("begin");
    reveal_strlit("end");
    assert("begin"@.len() != "end"@.len());
    lemma_open_position_absent(a.open, token);
}

/// The state is `ready` only once no known load is left open.
pub proof fn law_ready_only_when_nothing_is_open(a: NilModel, token: Seq<char>, kind: Seq<char>)
    ensures
        on_progress_model(a, token, kind).1 matches Some(s) && s.readiness == Readiness::Ready
            ==> on_progress_model(a, token, kind).0.open.len() == 0,
{
}

proof fn lemma_open_position_absent(open: Seq<Seq<char>>, t: Seq<char>)
    requires
        !open.contains(t),
    ensures
        open_position(open, t) is None,
    decreases open.len(),
{
    if open.len() > 0 {
        assert(open[0] != t);
        assert forall|x: Seq<char>| open.drop_first().contains(x) implies open.contains(x) by {
            let j = choose|j: int| 0 <= j < open.drop_first().len() && open.drop_first()[j] == x;
            assert(open[j + 1] == x);
        }
        lemma_open_position_absent(open.drop_first(), t);
    }
}

/// A progress's params read as `{token: string, value: {kind: string}}`.
pub open spec fn progress_of(p: JsonModel) -> Option<(Seq<char>, Seq<char>)> {
    match (text_field(p, "token"@), member(p, "value"@)) {
        (Some(t), Some(v)) => match text_field(v, "kind"@) {
            Some(k) => Some((t, k)),
            None => None,
        },
        _ => None,
    }
}

/// What the mapping makes of an upstream message.
pub open spec fn interpret_model(a: NilModel, v: ViewModel, body: Option<JsonModel>) -> (NilModel, Option<StateModel>) {
    if !is_notification_model(v) {
        (a, None)
    } else if v.method == Some(PROGRESS_METHOD@) {
        match params_of(v, PROGRESS_METHOD@, body) {
            Some(p) => match progress_of(p) {
                Some((t, k)) => on_progress_model(a, t, k),
                None => (a, None),
            },
            None => (a, None),
        }
    } else if v.method == Some(SHOW_MESSAGE_METHOD@) {
        match params_of(v, SHOW_MESSAGE_METHOD@, body) {
            Some(p) => match show_message_of(p) {
                Some((k, m)) => on_show_message_model(a, k, m),
                None => (a, None),
            },
            None => (a, None),
        }
    } else {
        (a, None)
    }
}

/// Whether a `flake.lock` names a `nixpkgs` input in its root node: `root` names the node, and
/// that node's `inputs` object has a `nixpkgs` member.
pub open spec fn has_nixpkgs_input(lock: JsonModel) -> bool {
    &&& text_field(lock, "root"@) matches Some(root)
    &&& member(lock, "nodes"@) matches Some(nodes)
    &&& member(nodes, root) matches Some(node)
    &&& member(node, "inputs"@) matches Some(JsonModel::Object(inputs))
    &&& member(JsonModel::Object(inputs), "nixpkgs"@) is Some
}

/// Whether one of the workspace's `flake.lock` texts (`None` for a folder without one) has a
/// `nixpkgs` input.
pub open spec fn nixpkgs_in(locks: Seq<Option<Seq<char>>>) -> bool {
    exists|i: int| 0 <= i < locks.len() && (#[trigger] locks[i] matches Some(t) && json_parse_text(t) matches Some(j) && has_nixpkgs_input(j))
}

/// The state right after connecting: `unknown` readiness when the workspace's `flake.lock`
/// files name no `nixpkgs` input, `initializing` otherwise.
pub open spec fn start_model(a: NilModel) -> StateModel {
    if a.nixpkgs_expected == Some(false) {
        StateModel { readiness: Readiness::Unknown, ..initializing_model() }
    } else {
        initializing_model()
    }
}

/// The guarantee: `coverage` over the open documents for a tested version, nothing otherwise.
pub open spec fn guarantees_model(a: NilModel) -> ProviderModel {
    if a.version_is_tested {
        ProviderModel { coverage: Some(CoverageModel { scope: CoverageScope::OpenDocuments, incomplete: caps_of(Seq::empty()) }), freshness: None }
    } else {
        notifications_only_model()
    }
}

/// The views of a list of optional texts.
pub open spec fn opt_texts(v: Seq<Option<String>>) -> Seq<Option<Seq<char>>> {
    Seq::new(v.len(), |i: int| opt_view(v[i]))
}

fn lock_has_nixpkgs(text: &str) -> (r: bool)
    ensures
        r == (json_parse_text(text@) matches Some(j) && has_nixpkgs_input(j)),
{
    let lock = match parse_json_text(text) {
        Some(j) => j,
        None => return false,
    };
    let root = match text_member(&lock, "root") {
        Some(r) => r,
        None => return false,
    };
    let nodes = match get(&lock, "nodes") {
        Some(n) => n,
        None => return false,
    };
    let node = match get(nodes, root.as_str()) {
        Some(n) => n,
        None => return false,
    };
    match get(node, "inputs") {
        Some(inputs) => match inputs {
            Json::Object(_) => get(inputs, "nixpkgs").is_some(),
            _ => false,
        },
        None => false,
    }
}

impl NilAdapter {
    /// For a nil that announces no version: no guarantee.
    pub fn new() -> (r: Self)
        ensures
            r@ == (NilModel { version_is_tested: false, state: initializing_model(), open: Seq::empty(), begun: false, nixpkgs_expected: None }),
    {
        Self::for_version(None)
    }

    /// Looks at `serverInfo.version`: a guarantee for a tested version.
    pub fn for_version(version: Option<&str>) -> (r: Self)
        ensures
            r@ == (NilModel {
                version_is_tested: version matches Some(v) && TESTED_VERSIONS@[0]@ == v@,
                state: initializing_model(),
                open: Seq::empty(),
                begun: false,
                nixpkgs_expected: None,
            }),
    {
        let tested = TESTED_VERSIONS;
        let version_is_tested = match version {
            Some(v) => str_eq(tested[0], v),
            None => false,
        };
        let r = NilAdapter { version_is_tested, state: ServerState::initializing(), open: Vec::new(), begun: false, nixpkgs_expected: None };
        assert(r@.open =~= Seq::<Seq<char>>::empty());
        r
    }

    /// The state the mapping has read so far.
    pub fn state(&self) -> (r: ServerState)
        ensures
            r@ == self@.state,
    {
        self.state.copied()
    }

    /// The state right after connecting.
    pub fn initial_state(&self) -> (r: ServerState)
        ensures
            r@ == start_model(self@),
    {
        let mut s = ServerState::initializing();
        if self.nixpkgs_expected == Some(false) {
            s.readiness = Readiness::Unknown;
        }
        s
    }

    /// The guarantee to declare.
    pub fn guarantees(&self) -> (r: ServerStateProvider)
        ensures
            r@ == guarantees_model(self@),
    {
        if self.version_is_tested {
            let none: [(&str, u64); 0] = [];
            let r = ServerStateProvider::document_only(&none);
            assert(crate::state::caps_arg_view(none@) =~= Seq::empty());
            r
        } else {
            ServerStateProvider::notifications_only()
        }
    }

    /// What the `flake.lock` of each workspace folder holds (`None` for a folder without one,
    /// or one that could not be read): whether a `nixpkgs` input is expected, which decides the
    /// starting readiness.
    pub fn learn_flake_locks(&mut self, locks: &[Option<String>])
        ensures
            final(self)@ == (NilModel { nixpkgs_expected: Some(nixpkgs_in(opt_texts(locks@))), ..old(self)@ }),
    {
        let mut found = false;
        let mut i: usize = 0;
        while i < locks.len()
            invariant_except_break
                !found,
            invariant
                i <= locks@.len(),
                forall|k: int| 0 <= k < i ==> !(#[trigger] opt_texts(locks@)[k] matches Some(t) && json_parse_text(t) matches Some(j) && has_nixpkgs_input(j)),
            ensures
                found ==> i < locks@.len() && (opt_texts(locks@)[i as int] matches Some(t) && json_parse_text(t) matches Some(j) && has_nixpkgs_input(j)),
                !found ==> i == locks@.len(),
            decreases locks@.len() - i,
        {
            assert(opt_texts(locks@)[i as int] == opt_view(locks@[i as int]));
            if let Some(text) = &locks[i] {
                if lock_has_nixpkgs(text.as_str()) {
                    found = true;
                    break;
                }
            }
            i = i + 1;
        }
        proof {
            if !found {
                assert(!nixpkgs_in(opt_texts(locks@)));
            }
        }
        self.nixpkgs_expected = Some(found);
    }

    fn position(&self, token: &str) -> (r: Option<usize>)
        ensures
            match r {
                Some(k) => open_position(self@.open, token@) == Some(k as int) && k < self.open@.len(),
                None => open_position(self@.open, token@) is None,
            },
    {
        let ghost open = self@.open;
        let mut i: usize = 0;
        while i < self.open.len()
            invariant
                open == self@.open,
                i <= self.open@.len(),
                forall|k: int| 0 <= k < i ==> open[k] != token@,
            decreases self.open@.len() - i,
        {
            if str_eq(self.open[i].as_str(), token) {
                proof {
                    lemma_open_position(open, token@, i as int);
                }
                return Some(i);
            }
            i = i + 1;
        }
        proof {
            lemma_open_position(open, token@, i as int);
        }
        None
    }

    fn on_progress(&mut self, token: String, kind: &str) -> (r: Option<ServerState>)
        ensures
            (final(self)@, opt_state(r)) == on_progress_model(old(self)@, token@, kind@),
    {
        let ghost before = self@;
        if str_eq(kind, "begin") {
            let known = KNOWN_TOKENS;
            if !str_in(token.as_str(), &known) {
                return None;
            }
            let ghost tv = token@;
            self.open.push(token);
            self.begun = true;
            assert(self@.open =~= before.open.push(tv));
            let next = ServerState { health: Health::Okay, readiness: Readiness::Indexing, message: None };
            if next.same_as(&self.state) {
                return None;
            }
            self.state = next;
            Some(self.state.copied())
        } else if str_eq(kind, "end") {
            let k = match self.position(token.as_str()) {
                Some(k) => k,
                None => return None,
            };
            let ghost vec_before = self.open@;
            let _ = self.open.remove(k);
            assert forall|j: int| 0 <= j < self@.open.len() implies #[trigger] self@.open[j] == before.open.remove(k as int)[j] by {
                if j < k {
                    assert(self.open@[j] == vec_before[j]);
                } else {
                    assert(self.open@[j] == vec_before[j + 1]);
                }
            }
            assert(self@.open =~= before.open.remove(k as int));
            if self.open.len() != 0 {
                return None;
            }
            self.state.readiness = Readiness::Ready;
            Some(self.state.copied())
        } else {
            None
        }
    }

    fn on_show_message(&mut self, kind: u64, message: String) -> (r: Option<ServerState>)
        ensures
            (final(self)@, opt_state(r)) == on_show_message_model(old(self)@, kind, message@),
    {
        if kind != 1 && kind != 2 {
            return None;
        }
        let health = if kind == 1 { Health::Error } else { Health::Warning };
        let readiness = if kind == 2 && !self.begun { Readiness::Unknown } else { self.state.readiness };
        let next = ServerState { health, readiness, message: Some(message) };
        if next.same_as(&self.state) {
            return None;
        }
        self.state = next;
        Some(self.state.copied())
    }

    /// Reads the load progresses and the messages.
    pub fn interpret(&mut self, view: &MessageView, body: &[u8]) -> (r: Option<ServerState>)
        ensures
            (final(self)@, opt_state(r)) == interpret_model(old(self)@, view@, json_parse(body@)),
    {
        if !view.is_notification() {
            return None;
        }
        let method = match view.method() {
            Some(m) => m,
            None => return None,
        };
        if str_eq(method, PROGRESS_METHOD) {
            let p = match read_params(view, PROGRESS_METHOD, body) {
                Some(p) => p,
                None => return None,
            };
            let token = match text_member(&p, "token") {
                Some(t) => t.clone(),
                None => return None,
            };
            let kind = match get(&p, "value") {
                Some(v) => match text_member(v, "kind") {
                    Some(k) => k.clone(),
                    None => return None,
                },
                None => return None,
            };
            self.on_progress(token, kind.as_str())
        } else if str_eq(method, SHOW_MESSAGE_METHOD) {
            let p = match read_params(view, SHOW_MESSAGE_METHOD, body) {
                Some(p) => p,
                None => return None,
            };
            let k = match get(&p, "type") {
                Some(t) => match as_u64(t) {
                    Some(k) => k,
                    None => return None,
                },
                None => return None,
            };
            let m = match text_member(&p, "message") {
                Some(m) => m.clone(),
                None => return None,
            };
            if k > 255 {
                return None;
            }
            self.on_show_message(k, m)
        } else {
            None
        }
    }
}

proof fn lemma_open_position(open: Seq<Seq<char>>, t: Seq<char>, i: int)
    requires
        0 <= i <= open.len(),
        forall|k: int| 0 <= k < i ==> open[k] != t,
    ensures
        i < open.len() && open[i] == t ==> open_position(open, t) == Some(i),
        i == open.len() ==> open_position(open, t) is None,
    decreases i,
{
    if i > 0 {
        lemma_open_position(open.drop_first(), t, i - 1);
    }
}

} // verus!
