//! The pyright / basedpyright mapping.
//!
//! pyright sends no `serverInfo` and no progress of its own; what it reports is its
//! `window/logMessage` lines. Every workspace folder gets a service instance ("Starting
//! service instance …"), and each instance enumerates its source files ("Searching for source
//! files", then "Found N source files" or "No source files found."). The server is ready when
//! every instance started has finished enumerating.

use vstd::prelude::*;

use crate::initialize::{InfoModel, ServerInfo};
use crate::json::{Json, JsonModel, get, member, text_field, text_member, parse_json, json_parse};
use crate::peek::{MessageView, ViewModel, is_notification_model};
use crate::state::{FileChangeType, Health, Readiness, ServerState, ServerStateProvider, StateModel, ProviderModel, initializing_model, notifications_only_model, opt_state, workspace_model};
use crate::text::{all_digits, is_all_digits, lower, to_lower, split_first, split_once, starts, starts_with, str_eq, str_in, strip_prefix, strip_suffix, trim, trim_str, has_sub, contains};

verus! {

/// The log notification pyright speaks through.
pub const LOG_MESSAGE_METHOD: &'static str = "window/logMessage";

/// Versions of pyright the conformance tests passed on.
pub const TESTED_VERSIONS: [&'static str; 1] = ["1.1.412"];

/// Versions of basedpyright the conformance tests passed on.
pub const BASEDPYRIGHT_TESTED_VERSIONS: [&'static str; 1] = ["1.39.8"];

/// What a startup log line announces: `<product> language server [<version> ]starting`, with
/// the product `Pyright`, `pyright` or `basedpyright`, and a version without spaces.
pub open spec fn startup_identity_model(message: Seq<char>) -> Option<InfoModel> {
    match split_first(message, " language server "@) {
        Some((product, rest)) => {
            let name = if product == "Pyright"@ || product == "pyright"@ {
                Some("pyright"@)
            } else if product == "basedpyright"@ {
                Some("basedpyright"@)
            } else {
                None
            };
            let version: Option<Option<Seq<char>>> = if rest == "starting"@ {
                Some(None)
            } else if rest.len() >= 9 && rest.skip(rest.len() - 9) == " starting"@ {
                let v = rest.take(rest.len() - 9);
                if v.len() == 0 || has_sub(v, " "@) {
                    None
                } else {
                    Some(Some(v))
                }
            } else {
                None
            };
            match (name, version) {
                (Some(n), Some(v)) => Some(InfoModel { name: n, version: v }),
                _ => None,
            }
        },
        None => None,
    }
}

/// Reads the name and version out of pyright's startup log.
pub fn startup_identity(message: &str) -> (r: Option<ServerInfo>)
    ensures
        match r {
            Some(i) => startup_identity_model(message@) == Some(i@),
            None => startup_identity_model(message@) is None,
        },
{
    proof {
        reveal_strlit(" starting");
        reveal_strlit("starting");
    }
    let (product, rest) = match split_once(message, " language server ") {
        Some(pr) => pr,
        None => return None,
    };
    let name = if str_eq(product.as_str(), "Pyright") || str_eq(product.as_str(), "pyright") {
        "pyright"
    } else if str_eq(product.as_str(), "basedpyright") {
        "basedpyright"
    } else {
        return None;
    };
    let version = if str_eq(rest.as_str(), "starting") {
        None
    } else {
        let v = match strip_suffix(rest.as_str(), " starting") {
            Some(v) => v,
            None => return None,
        };
        if v.as_str().is_empty() || contains(v.as_str(), " ") {
            return None;
        }
        Some(v)
    };
    Some(ServerInfo { name: name.to_owned(), version })
}

/// Whether a log line says an enumeration finished: "No source files found.", or "Found N
/// source file(s)" with N a run of ASCII digits.
pub open spec fn enumeration_complete(message: Seq<char>) -> bool {
    ||| message == "No source files found."@
    ||| (starts(message, "Found "@) && {
        let rest = message.skip(6);
        ||| (rest.len() >= 13 && rest.skip(rest.len() - 13) == " source files"@ && rest.len() > 13 && all_digits(rest.take(rest.len() - 13)))
        ||| (!(rest.len() >= 13 && rest.skip(rest.len() - 13) == " source files"@) && rest.len() >= 12 && rest.skip(rest.len() - 12) == " source file"@ && rest.len() > 12 && all_digits(rest.take(rest.len() - 12)))
    })
}

/// Whether a log line says an enumeration finished.
pub fn is_enumeration_complete(message: &str) -> (r: bool)
    ensures
        r == enumeration_complete(message@),
{
    proof {
        reveal_strlit("Found ");
        reveal_strlit(" source files");
        reveal_strlit(" source file");
    }
    if str_eq(message, "No source files found.") {
        return true;
    }
    let rest = match strip_prefix(message, "Found ") {
        Some(r) => r,
        None => return false,
    };
    let count = match strip_suffix(rest.as_str(), " source files") {
        Some(n) => n,
        None => match strip_suffix(rest.as_str(), " source file") {
            Some(n) => n,
            None => return false,
        },
    };
    !count.as_str().is_empty() && is_all_digits(count.as_str())
}

/// The model of a [`PyrightAdapter`].
pub ghost struct PyrightModel {
    pub version_is_tested: bool,
    pub state: StateModel,
    pub instances: usize,
    pub completed: usize,
}

/// The pyright / basedpyright mapping.
pub struct PyrightAdapter {
    /// Whether the announced version is a tested one: the condition for declaring a guarantee.
    version_is_tested: bool,
    state: ServerState,
    /// Service instances started (one per workspace folder).
    instances: usize,
    /// Instances that finished enumerating their source files.
    completed: usize,
}

impl View for PyrightAdapter {
    type V = PyrightModel;

    closed spec fn view(&self) -> PyrightModel {
        PyrightModel { version_is_tested: self.version_is_tested, state: self.state@, instances: self.instances, completed: self.completed }
    }
}

/// Whether `version`, trimmed, is a tested version of the product `name`.
pub open spec fn identity_tested(name: Seq<char>, version: Option<Seq<char>>) -> bool {
    match version {
        Some(v) => if name == "pyright"@ {
            trim(v) == TESTED_VERSIONS@[0]@
        } else if name == "basedpyright"@ {
            trim(v) == BASEDPYRIGHT_TESTED_VERSIONS@[0]@
        } else {
            false
        },
        None => false,
    }
}

/// What one log line does to the mapping.
pub open spec fn on_log_model(a: PyrightModel, message: Seq<char>) -> (PyrightModel, Option<StateModel>) {
    if starts(message, "Starting service instance "@) {
        let s = if a.state.readiness == Readiness::Ready {
            StateModel { readiness: Readiness::Indexing, ..a.state }
        } else {
            a.state
        };
        let n = PyrightModel { instances: if a.instances < usize::MAX { (a.instances + 1) as usize } else { a.instances }, state: s, ..a };
        (n, Some(s))
    } else if message == "Searching for source files"@ {
        if a.instances == 0 {
            (a, None)
        } else {
            let s = StateModel { readiness: Readiness::Indexing, ..a.state };
            let n = PyrightModel { completed: if a.completed > 0 { (a.completed - 1) as usize } else { 0 }, state: s, ..a };
            (n, Some(s))
        }
    } else if enumeration_complete(message) {
        if a.completed >= a.instances {
            (a, None)
        } else {
            let c = (a.completed + 1) as usize;
            let s = if c == a.instances {
                StateModel { readiness: Readiness::Ready, ..a.state }
            } else {
                a.state
            };
            (PyrightModel { completed: c, state: s, ..a }, Some(s))
        }
    } else {
        (a, None)
    }
}

/// What the mapping makes of an upstream message.
pub open spec fn interpret_model(a: PyrightModel, v: ViewModel, body: Option<JsonModel>) -> (PyrightModel, Option<StateModel>) {
    let message = if is_notification_model(v) && v.method == Some(LOG_MESSAGE_METHOD@) {
        match body {
            Some(j) => match member(j, "params"@) {
                Some(p) => text_field(p, "message"@),
                None => None,
            },
            None => None,
        }
    } else {
        None
    };
    match message {
        Some(m) => on_log_model(a, m),
        None => (a, None),
    }
}

/// The guarantees of a mapping: freshness of Changed events for a tested version.
pub open spec fn guarantees_model(a: PyrightModel) -> ProviderModel {
    if a.version_is_tested {
        workspace_model(Seq::empty(), seq![FileChangeType::Changed])
    } else {
        notifications_only_model()
    }
}

/// Whether `version`, trimmed, is a tested version of `name`.
fn tested_for(name: &str, version: Option<&str>) -> (r: bool)
    ensures
        r == identity_tested(name@, match version { Some(v) => Some(v@), None => None }),
{
    let v = match version {
        Some(v) => trim_str(v),
        None => return false,
    };
    if str_eq(name, "pyright") {
        let t = TESTED_VERSIONS;
        str_eq(v.as_str(), t[0])
    } else if str_eq(name, "basedpyright") {
        let t = BASEDPYRIGHT_TESTED_VERSIONS;
        str_eq(v.as_str(), t[0])
    } else {
        false
    }
}

impl PyrightAdapter {
    /// A pyright that does not announce a version. Declares no guarantee.
    pub fn new() -> (r: Self)
        ensures
            r@ == (PyrightModel { version_is_tested: false, state: initializing_model(), instances: 0, completed: 0 }),
    {
        Self::for_identity("pyright", None)
    }

    /// The mapping for the product `name` (`pyright` or `basedpyright`) at `version`.
    pub fn for_identity(name: &str, version: Option<&str>) -> (r: Self)
        ensures
            r@ == (PyrightModel {
                version_is_tested: identity_tested(name@, match version { Some(v) => Some(v@), None => None }),
                state: initializing_model(),
                instances: 0,
                completed: 0,
            }),
    {
        PyrightAdapter { version_is_tested: tested_for(name, version), state: ServerState::initializing(), instances: 0, completed: 0 }
    }

    /// The state right after connecting.
    pub fn initial_state(&self) -> (r: ServerState)
        ensures
            r@ == initializing_model(),
    {
        ServerState::initializing()
    }

    /// The guarantee to declare: for a tested version, freshness of Changed events.
    pub fn guarantees(&self) -> (r: ServerStateProvider)
        ensures
            r@ == guarantees_model(self@),
    {
        if self.version_is_tested {
            let caps: [(&str, u64); 0] = [];
            let changes = [FileChangeType::Changed];
            let r = ServerStateProvider::workspace(&caps, &changes);
            proof {
                assert(crate::state::caps_arg_view(caps@) =~= Seq::empty());
                assert(changes@ =~= seq![FileChangeType::Changed]);
            }
            r
        } else {
            ServerStateProvider::notifications_only()
        }
    }

    /// The server named itself again (`serverInfo`): the guarantee follows the new version.
    pub fn learn_identity(&mut self, info: &ServerInfo)
        ensures
            final(self)@ == (PyrightModel { version_is_tested: identity_tested(lower(info@.name), info@.version), ..old(self)@ }),
    {
        let name = to_lower(info.name.as_str());
        let version = match &info.version {
            Some(v) => Some(v.as_str()),
            None => None,
        };
        self.version_is_tested = tested_for(name.as_str(), version);
    }

    fn on_log(&mut self, message: &str) -> (r: Option<ServerState>)
        ensures
            (final(self)@, opt_state(r)) == on_log_model(old(self)@, message@),
    {
        proof {
            reveal_strlit("Starting service instance ");
        }
        if starts_with(message, "Starting service instance ") {
            if self.instances < usize::MAX {
                self.instances = self.instances + 1;
            }
            if self.state.readiness == Readiness::Ready {
                self.state.readiness = Readiness::Indexing;
            }
        } else if str_eq(message, "Searching for source files") {
            if self.instances == 0 {
                return None;
            }
            if self.completed > 0 {
                self.completed = self.completed - 1;
            }
            self.state.readiness = Readiness::Indexing;
        } else if is_enumeration_complete(message) {
            if self.completed >= self.instances {
                return None;
            }
            self.completed = self.completed + 1;
            if self.completed == self.instances {
                self.state.readiness = Readiness::Ready;
            }
        } else {
            return None;
        }
        Some(self.state.copied())
    }

    /// Reads the state from pyright's log lines.
    pub fn interpret(&mut self, view: &MessageView, body: &[u8]) -> (r: Option<ServerState>)
        ensures
            (final(self)@, opt_state(r)) == interpret_model(old(self)@, view@, json_parse(body@)),
    {
        if !view.is_notification_named(LOG_MESSAGE_METHOD) {
            return None;
        }
        let j = match parse_json(body) {
            Some(j) => j,
            None => return None,
        };
        let p = match get(&j, "params") {
            Some(p) => p,
            None => return None,
        };
        let m = match text_member(p, "message") {
            Some(m) => m,
            None => return None,
        };
        self.on_log(m.as_str())
    }
}

} // verus!
