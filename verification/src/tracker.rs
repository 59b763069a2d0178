//! Holding `ServerState` and its transitions.
//!
//! The mapping (the interpretation of upstream messages) and the holding of the state are
//! separated. The mapping cannot be selected until the upstream calls itself a name, so until
//! then both axes are `unknown`. What the server calls itself comes from
//! `InitializeResult.serverInfo`, or, for an upstream that does not return it, from its
//! startup notifications. If the name is known, switch to the mapping; otherwise report
//! `unknown` honestly.

use vstd::prelude::*;

use crate::adapter::{Adapter, AdapterModel, identity_from_notification, initial_state_of, interpret_of, learn_folders_of, learn_identity_of, learn_options_of, notification_identity, observe_client_of, select, selected, guarantees_of};
use crate::initialize::{InfoModel, ServerInfo, roots_model, workspace_roots};
use crate::json::{Json, JsonModel, json_parse, member, parse_json, take_member};
use crate::peek::{MessageView, ViewModel};
use crate::state::{ProviderModel, ServerState, ServerStateProvider, StateModel, notifiable, notifications_only_model, opt_state, unobserved_model};
use crate::text::{lower, str_eq, to_lower};

verus! {

/// The model of a [`Tracker`].
pub ghost struct TrackerModel {
    pub state: StateModel,
    pub adapter: Option<AdapterModel>,
    pub identity: Option<InfoModel>,
    pub named_but_unknown: bool,
    pub options: Option<JsonModel>,
    pub folders: Seq<Seq<char>>,
}

/// Holds the state on the boundary and the mapping that moves it.
pub struct Tracker {
    state: ServerState,
    adapter: Option<Adapter>,
    /// What the server called itself, which was the basis for selecting the mapping.
    identity: Option<ServerInfo>,
    /// The upstream called itself a name in `serverInfo`, but there was no known mapping.
    named_but_unknown: bool,
    /// The `initializationOptions` of the client's `initialize`, held until a mapping is
    /// selected.
    initialization_options: Option<Json>,
    /// The workspace folders of the client's `initialize`, held for the same reason.
    workspace_folders: Vec<String>,
}

impl View for Tracker {
    type V = TrackerModel;

    closed spec fn view(&self) -> TrackerModel {
        TrackerModel {
            state: self.state@,
            adapter: match self.adapter {
                Some(a) => Some(a@),
                None => None,
            },
            identity: match self.identity {
                Some(i) => Some(i@),
                None => None,
            },
            named_but_unknown: self.named_but_unknown,
            options: match self.initialization_options {
                Some(o) => Some(o@),
                None => None,
            },
            folders: crate::adapter::nextflow::texts(self.workspace_folders@),
        }
    }
}

impl Tracker {
    /// The mapping's internal sets hold each item once.
    pub closed spec fn well_formed(&self) -> bool {
        match self.adapter {
            Some(a) => a.well_formed(),
            None => true,
        }
    }
}

/// Takes in a new state; it is reported only when the change requires a notification. A
/// change of `message` alone is not notified, but the state is updated.
pub open spec fn apply_model(t: TrackerModel, next: StateModel) -> (TrackerModel, Option<StateModel>) {
    (TrackerModel { state: next, ..t }, if notifiable(next, t.state) { Some(next) } else { None })
}

/// Switches to the mapping of `info`, if there is one: it learns what the client declared and
/// starts in its starting state (which is not a change to notify; the starting state itself is
/// reported).
pub open spec fn adopt_model(t: TrackerModel, info: InfoModel) -> (TrackerModel, Option<StateModel>) {
    match selected(lower(info.name), info.version) {
        Some(a0) => {
            let a1 = match t.options {
                Some(o) => learn_options_of(a0, o),
                None => a0,
            };
            let a2 = learn_folders_of(a1, t.folders);
            let s = initial_state_of(a2);
            (TrackerModel { state: s, adapter: Some(a2), identity: Some(info), ..t }, Some(s))
        },
        None => (t, None),
    }
}

/// What the upstream's `serverInfo` does. The same name (without regard to ASCII case) keeps
/// the mapping and what it observed, and tells it the new identity; another known name
/// replaces the mapping.
pub open spec fn select_mapping_model(t: TrackerModel, info: Option<InfoModel>) -> (TrackerModel, Option<StateModel>) {
    match info {
        None => (t, None),
        Some(i) => {
            let t1 = if t.adapter is None && selected(lower(i.name), None) is None {
                TrackerModel { named_but_unknown: true, ..t }
            } else {
                t
            };
            if t1.identity matches Some(current) && lower(current.name) == lower(i.name) {
                let adapter = match t1.adapter {
                    Some(a) => Some(learn_identity_of(a, i)),
                    None => None,
                };
                (TrackerModel { adapter, identity: Some(i), ..t1 }, Some(t1.state))
            } else {
                adopt_model(t1, i)
            }
        },
    }
}

/// What an upstream-to-client message does. Without a mapping, nothing is read but an
/// identity announcement, which selects the mapping; the mapping then reads the announcement
/// too.
pub open spec fn observe_upstream_model(t: TrackerModel, v: ViewModel, body: Option<JsonModel>) -> (TrackerModel, Option<StateModel>) {
    match t.adapter {
        Some(a) => {
            let (a2, next) = interpret_of(a, v, body);
            let t1 = TrackerModel { adapter: Some(a2), ..t };
            match next {
                Some(s) => apply_model(t1, s),
                None => (t1, None),
            }
        },
        None => match notification_identity(v, body) {
            Some(info) => {
                let (t1, started) = adopt_model(t, info);
                match t1.adapter {
                    Some(a) => if started is Some {
                        let (a2, next) = interpret_of(a, v, body);
                        let t2 = TrackerModel { adapter: Some(a2), ..t1 };
                        match next {
                            Some(s) => apply_model(t2, s),
                            None => (t2, None),
                        }
                    } else {
                        (t1, None)
                    },
                    None => (t1, None),
                }
            },
            None => (t, None),
        },
    }
}

/// What the listing of the scripts does: the mapping waiting for it (Nextflow) takes it in.
pub open spec fn apply_scan_model(t: TrackerModel, scripts: Seq<Seq<char>>) -> (TrackerModel, Option<StateModel>) {
    match t.adapter {
        Some(AdapterModel::Nextflow(m)) => {
            let (m2, next) = crate::adapter::nextflow::moved_model(crate::adapter::nextflow::NextflowModel {
                scan_pending: false,
                expected: scripts.to_set(),
                ..m
            });
            let t1 = TrackerModel { adapter: Some(AdapterModel::Nextflow(m2)), ..t };
            match next {
                Some(s) => apply_model(t1, s),
                None => (t1, None),
            }
        },
        _ => (t, None),
    }
}

/// What a client-to-upstream message does: only a mapping reads it.
pub open spec fn observe_client_model(t: TrackerModel, v: ViewModel, body: Option<JsonModel>) -> (TrackerModel, Option<StateModel>) {
    match t.adapter {
        Some(a) => {
            let (a2, next) = observe_client_of(a, v, body);
            let t1 = TrackerModel { adapter: Some(a2), ..t };
            match next {
                Some(s) => apply_model(t1, s),
                None => (t1, None),
            }
        },
        None => (t, None),
    }
}

/// The `initializationOptions` of a client's `initialize`, unless absent or `null`.
pub open spec fn options_of(body: Option<JsonModel>) -> Option<JsonModel> {
    match body {
        Some(root) => match member(root, "params"@) {
            Some(p) => match member(p, "initializationOptions"@) {
                Some(o) => if o is Null {
                    None
                } else {
                    Some(o)
                },
                None => None,
            },
            None => None,
        },
        None => None,
    }
}

/// What the client's `initialize` does: the workspace folders and the
/// `initializationOptions` are kept, and handed to the mapping if there is one.
pub open spec fn remember_initialize_model(t: TrackerModel, body: Option<JsonModel>) -> TrackerModel {
    let folders = roots_model(body);
    let a1 = match t.adapter {
        Some(a) => Some(learn_folders_of(a, folders)),
        None => None,
    };
    match options_of(body) {
        Some(o) => TrackerModel {
            folders,
            adapter: match a1 {
                Some(a) => Some(learn_options_of(a, o)),
                None => None,
            },
            options: Some(o),
            ..t
        },
        None => TrackerModel { folders, adapter: a1, ..t },
    }
}

impl Tracker {
    /// The model of a tracker that has seen nothing.
    pub open spec fn new_model() -> TrackerModel {
        TrackerModel {
            state: unobserved_model(),
            adapter: None,
            identity: None,
            named_but_unknown: false,
            options: None,
            folders: Seq::empty(),
        }
    }

    /// Until the upstream calls itself a name there is no mapping, and both axes are
    /// `unknown`.
    pub fn new() -> (r: Self)
        ensures
            r.well_formed(),
            r@ == Self::new_model(),
    {
        let r = Tracker {
            state: ServerState::unobserved(),
            adapter: None,
            identity: None,
            named_but_unknown: false,
            initialization_options: None,
            workspace_folders: Vec::new(),
        };
        assert(crate::adapter::nextflow::texts(r.workspace_folders@) =~= Seq::<Seq<char>>::empty());
        r
    }

    /// Remembers the client's `initialize`: `initializationOptions` and the workspace folders
    /// are handed to the mapping, now or when it is selected.
    pub fn remember_initialize(&mut self, body: &[u8])
        requires
            old(self).well_formed(),
        ensures
            final(self).well_formed(),
            final(self)@ == remember_initialize_model(old(self)@, json_parse(body@)),
    {
        self.workspace_folders = workspace_roots(body);
        if let Some(adapter) = &mut self.adapter {
            adapter.learn_workspace_folders(self.workspace_folders.as_slice());
        }
        let root = match parse_json(body) {
            Some(j) => j,
            None => return,
        };
        let p = match take_member(root, "params") {
            Some(p) => p,
            None => return,
        };
        let options = match take_member(p, "initializationOptions") {
            Some(o) => o,
            None => return,
        };
        if crate::json::is_null(&options) {
            return;
        }
        if let Some(adapter) = &mut self.adapter {
            adapter.learn_initialization_options(&options);
        }
        self.initialization_options = Some(options);
    }

    /// Takes in the new state, and returns it if the change requires a notification.
    fn apply(&mut self, next: ServerState) -> (r: Option<ServerState>)
        ensures
            final(self).well_formed() == old(self).well_formed(),
            (final(self)@, opt_state(r)) == apply_model(old(self)@, next@),
    {
        let notify = next.notifiable_change_from(&self.state);
        self.state = next;
        if notify {
            Some(self.state.copied())
        } else {
            None
        }
    }

    /// Observes a client-to-upstream message. Returns the new state only when there was a
    /// change that requires a notification.
    pub fn observe_client(&mut self, view: &MessageView, body: &[u8]) -> (r: Option<ServerState>)
        requires
            old(self).well_formed(),
        ensures
            final(self).well_formed(),
            (final(self)@, opt_state(r)) == observe_client_model(old(self)@, view@, json_parse(body@)),
    {
        let next = match &mut self.adapter {
            Some(adapter) => adapter.observe_client(view, body),
            None => return None,
        };
        match next {
            Some(s) => self.apply(s),
            None => None,
        }
    }

    /// The upstream called itself a name, but there is no known mapping (settled as `unknown`
    /// on both axes). The transparent path may skip the peek.
    pub fn upstream_is_unmapped(&self) -> (r: bool)
        ensures
            r == (self@.adapter is None && self@.named_but_unknown),
    {
        self.adapter.is_none() && self.named_but_unknown
    }

    /// What the server called itself, which was the basis for selecting the mapping.
    pub fn identity(&self) -> (r: Option<&ServerInfo>)
        ensures
            match r {
                Some(i) => self@.identity == Some(i@),
                None => self@.identity is None,
            },
    {
        match &self.identity {
            Some(i) => Some(i),
            None => None,
        }
    }

    fn adopt(&mut self, identity: ServerInfo) -> (r: Option<ServerState>)
        requires
            old(self).well_formed(),
        ensures
            final(self).well_formed(),
            (final(self)@, opt_state(r)) == adopt_model(old(self)@, identity@),
    {
        let version = match &identity.version {
            Some(v) => Some(v.as_str()),
            None => None,
        };
        let mut adapter = match select(identity.name.as_str(), version) {
            Some(a) => a,
            None => return None,
        };
        if let Some(options) = &self.initialization_options {
            adapter.learn_initialization_options(options);
        }
        adapter.learn_workspace_folders(self.workspace_folders.as_slice());
        self.state = adapter.initial_state();
        self.adapter = Some(adapter);
        self.identity = Some(identity);
        Some(self.state.copied())
    }

    /// The upstream called itself a name in `InitializeResult`. If the name is known, select
    /// the mapping and move to its starting state. If there is no name, or it is not known,
    /// nothing changes (but a known-to-be-unknown name is remembered).
    pub fn select_mapping(&mut self, server_info: Option<&ServerInfo>) -> (r: Option<ServerState>)
        requires
            old(self).well_formed(),
        ensures
            final(self).well_formed(),
            (final(self)@, opt_state(r)) == select_mapping_model(old(self)@, match server_info {
                Some(i) => Some(i@),
                None => None,
            }),
    {
        let info = match server_info {
            Some(i) => i,
            None => return None,
        };
        if self.adapter.is_none() && select(info.name.as_str(), None).is_none() {
            self.named_but_unknown = true;
        }
        let same = match &self.identity {
            Some(current) => {
                let a = to_lower(current.name.as_str());
                let b = to_lower(info.name.as_str());
                str_eq(a.as_str(), b.as_str())
            },
            None => false,
        };
        if same {
            if let Some(adapter) = &mut self.adapter {
                adapter.learn_identity(info);
            }
            self.identity = Some(info.copied());
            return Some(self.state.copied());
        }
        self.adopt(info.copied())
    }

    /// The state on the boundary.
    pub fn state(&self) -> (r: &ServerState)
        ensures
            r@ == self@.state,
    {
        &self.state
    }

    /// Whether there is something to read from the upstream's messages (whether there is a
    /// mapping). If not, the transparent path can skip the peek.
    pub fn observes_upstream(&self) -> (r: bool)
        ensures
            r == (self@.adapter is Some),
    {
        self.adapter.is_some()
    }

    /// The guarantees to declare in `InitializeResult`. Without a mapping, a declaration of no
    /// guarantees (`{}`).
    pub fn provider(&self) -> (r: ServerStateProvider)
        ensures
            r@ == match self@.adapter {
                Some(a) => guarantees_of(a),
                None => notifications_only_model(),
            },
    {
        match &self.adapter {
            Some(a) => a.guarantees(),
            None => ServerStateProvider::notifications_only(),
        }
    }

    /// Observes an upstream-to-client message and updates the state. Returns the new state
    /// only when there was a change that requires a notification. Without a mapping, nothing
    /// is read but an identity announcement: reading on our own would misread a same-named
    /// notification of another server.
    pub fn observe_upstream(&mut self, view: &MessageView, body: &[u8]) -> (r: Option<ServerState>)
        requires
            old(self).well_formed(),
        ensures
            final(self).well_formed(),
            (final(self)@, opt_state(r)) == observe_upstream_model(old(self)@, view@, json_parse(body@)),
    {
        if self.adapter.is_none() {
            let identity = match identity_from_notification(view, body) {
                Some(i) => i,
                None => return None,
            };
            if self.adopt(identity).is_none() {
                return None;
            }
        }
        let next = match &mut self.adapter {
            Some(adapter) => adapter.interpret(view, body),
            None => return None,
        };
        match next {
            Some(s) => self.apply(s),
            None => None,
        }
    }

    /// Whether the mapping waits for the listing of the scripts of the workspace folders
    /// (Nextflow), and which folders and exclude patterns to list them by.
    pub fn scan_request(&self) -> (r: Option<(&Vec<String>, &Vec<String>)>)
        ensures
            match r {
                Some((folders, exclude)) => self@.adapter matches Some(AdapterModel::Nextflow(m)) && m.scan_pending
                    && crate::adapter::nextflow::texts(folders@) == m.folders && crate::adapter::nextflow::texts(exclude@) == m.exclude,
                None => !(self@.adapter matches Some(AdapterModel::Nextflow(m)) && m.scan_pending),
            },
    {
        match &self.adapter {
            Some(Adapter::Nextflow(a)) => if a.needs_scan() {
                Some((a.folders(), a.exclude()))
            } else {
                None
            },
            _ => None,
        }
    }

    /// Takes in the scripts listed for the mapping. Returns the new state only when there was
    /// a change that requires a notification.
    pub fn apply_scan(&mut self, scripts: &[String]) -> (r: Option<ServerState>)
        requires
            old(self).well_formed(),
        ensures
            final(self).well_formed(),
            (final(self)@, opt_state(r)) == apply_scan_model(old(self)@, crate::adapter::nextflow::texts(scripts@)),
    {
        let next = match &mut self.adapter {
            Some(Adapter::Nextflow(a)) => a.learn_scripts(scripts),
            _ => return None,
        };
        match next {
            Some(s) => self.apply(s),
            None => None,
        }
    }
}

/// A state is notified once: taking the same state in again reports nothing, and a change of
/// `message` alone updates the state without a notification.
pub proof fn law_notifies_only_changes_on_an_axis(t: TrackerModel, next: StateModel, message: Option<Seq<char>>)
    ensures
        apply_model(apply_model(t, next).0, next).1 is None,
        apply_model(apply_model(t, next).0, next).0.state == next,
        apply_model(t, (StateModel { message, ..t.state })).1 is None,
        apply_model(t, (StateModel { message, ..t.state })).0.state == (StateModel { message, ..t.state }),
        (apply_model(t, next).1 is Some) == (next.health != t.state.health || next.readiness != t.state.readiness),
{
}

/// Without a mapping nothing is read from the upstream but an identity announcement: any
/// other message leaves the tracker as it was, and reports nothing.
pub proof fn law_nothing_is_read_without_a_mapping(t: TrackerModel, v: ViewModel, body: Option<JsonModel>)
    requires
        t.adapter is None,
        notification_identity(v, body) is None,
    ensures
        observe_upstream_model(t, v, body) == (t, (None::<StateModel>)),
        observe_client_model(t, v, body) == (t, (None::<StateModel>)),
{
}

/// A name that no mapping knows, or no name at all, selects nothing: the state stays where
/// it was and nothing is reported.
pub proof fn law_an_unknown_name_selects_nothing(t: TrackerModel, info: InfoModel)
    requires
        t.adapter is None,
        t.identity is None,
        selected(lower(info.name), info.version) is None,
    ensures
        select_mapping_model(t, None) == (t, (None::<StateModel>)),
        select_mapping_model(t, Some(info)).0.state == t.state,
        select_mapping_model(t, Some(info)).0.adapter is None,
        select_mapping_model(t, Some(info)).1 is None,
{
}

} // verus!
