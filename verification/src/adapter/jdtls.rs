//! The Eclipse JDT language server mapping.
//!
//! jdtls reports `language/status` notifications: `ServiceReady` when the workspace is
//! imported, `ProjectStatus` with `OK` or `WARNING`, and `Error`. A project-level problem
//! (an error diagnostic on a build file, not on a `.java` source) is a `warning` with its
//! message, until the file is diagnosed without it; a reported `Error` takes precedence.

use vstd::prelude::*;

use crate::adapter::{params_of, read_params};
use crate::json::{Json, JsonModel, as_u64, get, json_parse, member, text_field, text_member, u64_of};
use crate::peek::{MessageView, ViewModel, is_notification_model};
use crate::state::{ALL_FILE_CHANGES, Health, Readiness, ServerState, ServerStateProvider, StateModel, ProviderModel, all_file_changes, initializing_model, notifications_only_model, opt_state, opt_view, workspace_model};
use crate::text::{ends, ends_with, lower, str_eq, to_lower};
use crate::text_map::{TextMap, drop_entry, put_entry};

verus! {

/// The name jdtls calls itself, lower-cased.
pub const SERVER_NAME: &'static str = "jdt language server (standard)";

/// The status notification.
pub const STATUS_METHOD: &'static str = "language/status";

/// The diagnostics notification.
pub const DIAGNOSTICS_METHOD: &'static str = "textDocument/publishDiagnostics";

/// The extension of Java sources, whose diagnostics are about code, not the project.
pub const JAVA_EXTENSION: &'static str = ".java";

/// Versions the conformance tests passed on.
pub const TESTED_VERSIONS: [&'static str; 1] = ["1.60.0-SNAPSHOT"];

/// The model of a [`JdtlsAdapter`].
pub ghost struct JdtlsModel {
    pub version_is_tested: bool,
    pub state: StateModel,
    pub status_health: Health,
    pub status_message: Option<Seq<char>>,
    /// The build files with an error diagnostic, sorted by uri, with its message.
    pub warnings: Seq<(Seq<char>, Seq<char>)>,
}

/// The jdtls mapping.
pub struct JdtlsAdapter {
    version_is_tested: bool,
    state: ServerState,
    status_health: Health,
    status_message: Option<String>,
    project_diagnostic_warnings: TextMap,
}

impl View for JdtlsAdapter {
    type V = JdtlsModel;

    closed spec fn view(&self) -> JdtlsModel {
        JdtlsModel {
            version_is_tested: self.version_is_tested,
            state: self.state@,
            status_health: self.status_health,
            status_message: opt_view(self.status_message),
            warnings: self.project_diagnostic_warnings@,
        }
    }
}

/// Health and message recomputed from the status and the project warnings; a state that does
/// not change reports nothing.
pub open spec fn recompute_model(a: JdtlsModel) -> (JdtlsModel, Option<StateModel>) {
    let (health, message) = if a.status_health == Health::Error {
        (Health::Error, a.status_message)
    } else if a.warnings.len() > 0 {
        (Health::Warning, Some(a.warnings[0].1))
    } else {
        (a.status_health, a.status_message)
    };
    let next = StateModel { health, readiness: a.state.readiness, message };
    if next == a.state {
        (a, None)
    } else {
        (JdtlsModel { state: next, ..a }, Some(next))
    }
}

/// What one `language/status` does to the mapping.
pub open spec fn on_status_model(a: JdtlsModel, kind: Seq<char>, message: Seq<char>) -> (JdtlsModel, Option<StateModel>) {
    if kind == "ServiceReady"@ {
        if a.state.readiness == Readiness::Ready {
            (a, None)
        } else {
            let s = StateModel { readiness: Readiness::Ready, ..a.state };
            (JdtlsModel { state: s, ..a }, Some(s))
        }
    } else if kind == "ProjectStatus"@ {
        if message == "OK"@ {
            recompute_model(JdtlsModel { status_health: Health::Okay, status_message: None, ..a })
        } else if message == "WARNING"@ {
            recompute_model(JdtlsModel { status_health: Health::Warning, status_message: Some(message), ..a })
        } else {
            (a, None)
        }
    } else if kind == "Error"@ {
        recompute_model(JdtlsModel { status_health: Health::Error, status_message: Some(message), ..a })
    } else {
        (a, None)
    }
}

/// What one diagnostics notification does to the mapping. Diagnostics on `.java` sources are
/// not about the project.
pub open spec fn on_diagnostics_model(a: JdtlsModel, uri: Seq<char>, failure: Option<Seq<char>>) -> (JdtlsModel, Option<StateModel>) {
    if ends(lower(uri), JAVA_EXTENSION@) {
        (a, None)
    } else {
        let warnings = match failure {
            Some(m) => put_entry(a.warnings, uri, m),
            None => drop_entry(a.warnings, uri),
        };
        recompute_model(JdtlsModel { warnings, ..a })
    }
}

/// A status's params read as `{type: string, message?: string}`.
pub open spec fn status_of(p: JsonModel) -> Option<(Seq<char>, Seq<char>)> {
    match text_field(p, "type"@) {
        Some(k) => match member(p, "message"@) {
            None => Some((k, Seq::empty())),
            Some(JsonModel::String(m)) => Some((k, m)),
            Some(_) => None,
        },
        None => None,
    }
}

/// A diagnostic read as `{severity?: u8, message?: string}`.
pub open spec fn diagnostic_of(d: JsonModel) -> Option<(Option<u64>, Seq<char>)> {
    let severity: Option<Option<u64>> = match member(d, "severity"@) {
        None => Some(None),
        Some(JsonModel::Null) => Some(None),
        Some(t) => match u64_of(t) {
            Some(k) => if k <= 255 {
                Some(Some(k))
            } else {
                None
            },
            None => None,
        },
    };
    let message: Option<Seq<char>> = match member(d, "message"@) {
        None => Some(Seq::empty()),
        Some(JsonModel::String(s)) => Some(s),
        Some(_) => None,
    };
    match (d, severity, message) {
        (JsonModel::Object(_), Some(k), Some(m)) => Some((k, m)),
        _ => None,
    }
}

/// The message of the first error among diagnostics that all read.
pub open spec fn first_error(items: Seq<JsonModel>) -> Option<Seq<char>>
    decreases items.len(),
{
    if items.len() == 0 {
        None
    } else {
        let d = diagnostic_of(items[0])->0;
        if d.0 == Some(1u64) {
            Some(d.1)
        } else {
            first_error(items.drop_first())
        }
    }
}

/// The params of a diagnostics notification read as `{uri: string, diagnostics?: [..]}`:
/// the uri and the message of the first error.
pub open spec fn diagnostics_of(p: JsonModel) -> Option<(Seq<char>, Option<Seq<char>>)> {
    match text_field(p, "uri"@) {
        Some(uri) => match member(p, "diagnostics"@) {
            None => Some((uri, None)),
            Some(JsonModel::Array(items)) => if forall|i: int| 0 <= i < items.len() ==> (#[trigger] diagnostic_of(items[i])) is Some {
                Some((uri, first_error(items)))
            } else {
                None
            },
            Some(_) => None,
        },
        None => None,
    }
}

/// What the mapping makes of an upstream message.
pub open spec fn interpret_model(a: JdtlsModel, v: ViewModel, body: Option<JsonModel>) -> (JdtlsModel, Option<StateModel>) {
    if !is_notification_model(v) {
        (a, None)
    } else if v.method == Some(STATUS_METHOD@) {
        match params_of(v, STATUS_METHOD@, body) {
            Some(p) => match status_of(p) {
                Some((k, m)) => on_status_model(a, k, m),
                None => (a, None),
            },
            None => (a, None),
        }
    } else if v.method == Some(DIAGNOSTICS_METHOD@) {
        match params_of(v, DIAGNOSTICS_METHOD@, body) {
            Some(p) => match diagnostics_of(p) {
                Some((uri, failure)) => on_diagnostics_model(a, uri, failure),
                None => (a, None),
            },
            None => (a, None),
        }
    } else {
        (a, None)
    }
}

/// The guarantees of a mapping.
pub open spec fn guarantees_model(a: JdtlsModel) -> ProviderModel {
    if a.version_is_tested {
        workspace_model(Seq::empty(), all_file_changes())
    } else {
        notifications_only_model()
    }
}

/// Reads one diagnostic.
fn read_diagnostic(d: &Json) -> (r: Option<(Option<u64>, String)>)
    ensures
        match r {
            Some((k, m)) => diagnostic_of(d@) == Some((k, m@)),
            None => diagnostic_of(d@) is None,
        },
{
    match d {
        Json::Object(_) => {},
        _ => return None,
    }
    let severity: Option<u64> = match get(d, "severity") {
        None => None,
        Some(Json::Null) => None,
        Some(t) => match as_u64(t) {
            Some(k) => if k <= 255 {
                Some(k)
            } else {
                return None;
            },
            None => return None,
        },
    };
    let message: String = match get(d, "message") {
        None => String::new(),
        Some(Json::String(s)) => s.clone(),
        Some(_) => return None,
    };
    Some((severity, message))
}

impl JdtlsAdapter {
    /// A jdtls that does not announce a version. Declares no guarantee.
    pub fn new() -> (r: Self)
        ensures
            r@ == (JdtlsModel {
                version_is_tested: false,
                state: initializing_model(),
                status_health: Health::Unknown,
                status_message: None,
                warnings: Seq::empty(),
            }),
    {
        Self::for_version(None)
    }

    /// The mapping for `version`.
    pub fn for_version(version: Option<&str>) -> (r: Self)
        ensures
            r@ == (JdtlsModel {
                version_is_tested: version matches Some(v) && TESTED_VERSIONS@[0]@ == v@,
                state: initializing_model(),
                status_health: Health::Unknown,
                status_message: None,
                warnings: Seq::empty(),
            }),
    {
        let version_is_tested = match version {
            Some(v) => {
                let t = TESTED_VERSIONS;
                str_eq(t[0], v)
            },
            None => false,
        };
        JdtlsAdapter {
            version_is_tested,
            state: ServerState::initializing(),
            status_health: Health::Unknown,
            status_message: None,
            project_diagnostic_warnings: TextMap::new(),
        }
    }

    /// The state right after connecting.
    pub fn initial_state(&self) -> (r: ServerState)
        ensures
            r@ == initializing_model(),
    {
        ServerState::initializing()
    }

    /// The guarantee to declare.
    pub fn guarantees(&self) -> (r: ServerStateProvider)
        ensures
            r@ == guarantees_model(self@),
    {
        if self.version_is_tested {
            let caps: [(&str, u64); 0] = [];
            let changes = ALL_FILE_CHANGES;
            let r = ServerStateProvider::workspace(&caps, &changes);
            proof {
                assert(crate::state::caps_arg_view(caps@) =~= Seq::empty());
                assert(changes@ =~= all_file_changes());
            }
            r
        } else {
            ServerStateProvider::notifications_only()
        }
    }

    fn recompute_health(&mut self) -> (r: Option<ServerState>)
        ensures
            (final(self)@, opt_state(r)) == recompute_model(old(self)@),
    {
        let (health, message) = if self.status_health == Health::Error {
            (Health::Error, match &self.status_message {
                Some(m) => Some(m.clone()),
                None => None,
            })
        } else {
            match self.project_diagnostic_warnings.first_value() {
                Some(m) => (Health::Warning, Some(m.clone())),
                None => (self.status_health, match &self.status_message {
                    Some(m) => Some(m.clone()),
                    None => None,
                }),
            }
        };
        let next = ServerState { health, readiness: self.state.readiness, message };
        if next.same_as(&self.state) {
            return None;
        }
        self.state = next;
        Some(self.state.copied())
    }

    fn on_status(&mut self, kind: &str, message: String) -> (r: Option<ServerState>)
        ensures
            (final(self)@, opt_state(r)) == on_status_model(old(self)@, kind@, message@),
    {
        if str_eq(kind, "ServiceReady") {
            if self.state.readiness == Readiness::Ready {
                return None;
            }
            self.state.readiness = Readiness::Ready;
            Some(self.state.copied())
        } else if str_eq(kind, "ProjectStatus") {
            if str_eq(message.as_str(), "OK") {
                self.status_health = Health::Okay;
                self.status_message = None;
            } else if str_eq(message.as_str(), "WARNING") {
                self.status_health = Health::Warning;
                self.status_message = Some(message);
            } else {
                return None;
            }
            self.recompute_health()
        } else if str_eq(kind, "Error") {
            self.status_health = Health::Error;
            self.status_message = Some(message);
            self.recompute_health()
        } else {
            None
        }
    }

    fn on_diagnostics(&mut self, uri: String, failure: Option<String>) -> (r: Option<ServerState>)
        ensures
            (final(self)@, opt_state(r)) == on_diagnostics_model(old(self)@, uri@, opt_view(failure)),
    {
        let lowered = to_lower(uri.as_str());
        if ends_with(lowered.as_str(), JAVA_EXTENSION) {
            return None;
        }
        match failure {
            Some(m) => self.project_diagnostic_warnings.insert(uri, m),
            None => self.project_diagnostic_warnings.remove(uri.as_str()),
        }
        self.recompute_health()
    }

    /// Reads the status notifications and the project diagnostics.
    #[verifier::loop_isolation(false)]
    pub fn interpret(&mut self, view: &MessageView, body: &[u8]) -> (r: Option<ServerState>)
        ensures
            (final(self)@, opt_state(r)) == interpret_model(old(self)@, view@, json_parse(body@)),
    {
        if !view.is_notification() {
            return None;
        }
        let method = match view.method() {
            Some(m) => m,
            None => return None,
        };
        if str_eq(method, STATUS_METHOD) {
            let p = match read_params(view, STATUS_METHOD, body) {
                Some(p) => p,
                None => return None,
            };
            let k = match text_member(&p, "type") {
                Some(k) => k,
                None => return None,
            };
            let m = match get(&p, "message") {
                None => String::new(),
                Some(Json::String(m)) => m.clone(),
                Some(_) => return None,
            };
            self.on_status(k.as_str(), m)
        } else if str_eq(method, DIAGNOSTICS_METHOD) {
            let p = match read_params(view, DIAGNOSTICS_METHOD, body) {
                Some(p) => p,
                None => return None,
            };
            let uri = match text_member(&p, "uri") {
                Some(u) => u.clone(),
                None => return None,
            };
            let list = match get(&p, "diagnostics") {
                None => return self.on_diagnostics(uri, None),
                Some(l) => l,
            };
            let items = match list {
                Json::Array(items) => items,
                _ => return None,
            };
            let ghost arr = list@->Array_0;
            assert forall|k: int| 0 <= k < items@.len() implies arr[k] == #[trigger] items@[k]@ by {}
            let mut failure: Option<String> = None;
            let mut i: usize = 0;
            assert(arr.skip(0) =~= arr);
            while i < items.len()
                invariant
                    i <= items@.len(),
                    forall|k: int| 0 <= k < i ==> (#[trigger] diagnostic_of(arr[k])) is Some,
                    first_error(arr) == match failure {
                        Some(m) => Some(m@),
                        None => first_error(arr.skip(i as int)),
                    },
                decreases items@.len() - i,
            {
                assert(arr.skip(i as int).drop_first() =~= arr.skip(i + 1));
                assert(arr.skip(i as int)[0] == arr[i as int]);
                let d = match read_diagnostic(&items[i]) {
                    Some(d) => d,
                    None => {
                        assert(diagnostic_of(arr[i as int]) is None);
                        return None;
                    },
                };
                if failure.is_none() {
                    let (severity, message) = d;
                    if severity == Some(1u64) {
                        failure = Some(message);
                    }
                }
                i = i + 1;
            }
            assert(first_error(arr.skip(i as int)) is None);
            self.on_diagnostics(uri, failure)
        } else {
            None
        }
    }
}

} // verus!
