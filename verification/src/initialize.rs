//! Reading and rewriting `initialize` and its result: what the client declares, what the
//! server calls itself, the client capabilities injected for the mappings, and the
//! declaration of `serverStateProvider`.

use vstd::prelude::*;

use crate::json::{Json, JsonModel, as_text, get, member, text_field, text_member, parse_json, json_parse};
use crate::uri::{checked_path, uri_to_path};
use crate::json::{entry_index, entry_models, first_index, json_print, lemma_first_index, lemma_object_model, lemma_take_restore, lookup, put_entry, put_member, restore_entry, take_entry, to_json_bytes};
use crate::state::{ProviderModel, ServerStateProvider, provider_json};
use crate::text::{find, split_once, str_eq};
use crate::state::opt_view;

verus! {

/// What the server calls itself (`InitializeResult.serverInfo`).
#[derive(Debug, Clone, PartialEq, Eq)]
pub struct ServerInfo {
    pub name: String,
    pub version: Option<String>,
}

/// The model of a [`ServerInfo`].
pub ghost struct InfoModel {
    pub name: Seq<char>,
    pub version: Option<Seq<char>>,
}

impl View for ServerInfo {
    type V = InfoModel;

    open spec fn view(&self) -> InfoModel {
        InfoModel { name: self.name@, version: opt_view(self.version) }
    }
}

impl ServerInfo {
    /// A copy of this identity.
    pub fn copied(&self) -> (r: ServerInfo)
        ensures
            r@ == self@,
    {
        ServerInfo {
            name: self.name.clone(),
            version: match &self.version {
                Some(v) => Some(v.clone()),
                None => None,
            },
        }
    }
}

/// The member of a parsed body at `params.capabilities.<section>.<key>`.
pub open spec fn capability(body: Option<JsonModel>, section: Seq<char>, key: Seq<char>) -> Option<JsonModel> {
    match body {
        Some(root) => match member(root, "params"@) {
            Some(p) => match member(p, "capabilities"@) {
                Some(c) => match member(c, section) {
                    Some(s) => member(s, key),
                    None => None,
                },
                None => None,
            },
            None => None,
        },
        None => None,
    }
}

fn read_capability(body: &[u8], section: &str, key: &str) -> (r: Option<Json>)
    ensures
        match r {
            Some(v) => capability(json_parse(body@), section@, key@) == Some(v@),
            None => capability(json_parse(body@), section@, key@) is None,
        },
{
    let root = match parse_json(body) {
        Some(j) => j,
        None => return None,
    };
    let p = match crate::json::take_member(root, "params") {
        Some(p) => p,
        None => return None,
    };
    let c = match crate::json::take_member(p, "capabilities") {
        Some(c) => c,
        None => return None,
    };
    let s = match crate::json::take_member(c, section) {
        Some(s) => s,
        None => return None,
    };
    crate::json::take_member(s, key)
}

/// Whether the client's `initialize` declares `experimental.serverState: true`: it speaks the
/// server state protocol and decides for itself.
pub fn client_declares_server_state(body: &[u8]) -> (r: bool)
    ensures
        r == (capability(json_parse(body@), "experimental"@, "serverState"@) == Some(JsonModel::Bool(true))),
{
    match read_capability(body, "experimental", "serverState") {
        Some(Json::Bool(b)) => b,
        _ => false,
    }
}

/// Whether the client's `initialize` declares `window.workDoneProgress: true`.
pub fn client_declares_work_done_progress(body: &[u8]) -> (r: bool)
    ensures
        r == (capability(json_parse(body@), "window"@, "workDoneProgress"@) == Some(JsonModel::Bool(true))),
{
    match read_capability(body, "window", "workDoneProgress") {
        Some(Json::Bool(b)) => b,
        _ => false,
    }
}

/// Whether the client's `initialize` declares `workspace.didChangeWatchedFiles` (an object):
/// it can watch files for the server.
pub fn client_declares_watched_files(body: &[u8]) -> (r: bool)
    ensures
        r == (capability(json_parse(body@), "workspace"@, "didChangeWatchedFiles"@) matches Some(JsonModel::Object(_))),
{
    match read_capability(body, "workspace", "didChangeWatchedFiles") {
        Some(Json::Object(_)) => true,
        _ => false,
    }
}

/// The paths of the folders among `items` whose `uri` is a readable `file:` URI, in order.
pub open spec fn folder_paths(items: Seq<JsonModel>) -> Seq<Seq<char>>
    decreases items.len(),
{
    if items.len() == 0 {
        Seq::empty()
    } else {
        let rest = folder_paths(items.drop_last());
        match text_field(items.last(), "uri"@) {
            Some(u) => match checked_path(u) {
                Some(p) => rest.push(p),
                None => rest,
            },
            None => rest,
        }
    }
}

/// The workspace roots of the client's `initialize`: the paths of `workspaceFolders`, or
/// else the path of `rootUri`.
pub open spec fn roots_model(body: Option<JsonModel>) -> Seq<Seq<char>> {
    match body {
        Some(root) => {
            let params = member(root, "params"@);
            let folders = match params {
                Some(p) => match member(p, "workspaceFolders"@) {
                    Some(JsonModel::Array(items)) => folder_paths(items),
                    _ => Seq::empty(),
                },
                None => Seq::empty(),
            };
            if folders.len() > 0 {
                folders
            } else {
                match params {
                    Some(p) => match text_field(p, "rootUri"@) {
                        Some(u) => match checked_path(u) {
                            Some(path) => seq![path],
                            None => Seq::empty(),
                        },
                        None => Seq::empty(),
                    },
                    None => Seq::empty(),
                }
            }
        },
        None => Seq::empty(),
    }
}

/// The workspace roots of the client's `initialize`, as paths. A URI whose `%` escapes cut
/// into a multi-byte character reads as no path.
#[verifier::loop_isolation(false)]
pub fn workspace_roots(body: &[u8]) -> (r: Vec<String>)
    ensures
        crate::adapter::nextflow::texts(r@) == roots_model(json_parse(body@)),
{
    let mut roots: Vec<String> = Vec::new();
    let root = match parse_json(body) {
        Some(j) => j,
        None => {
            assert(crate::adapter::nextflow::texts(roots@) =~= Seq::<Seq<char>>::empty());
            return roots;
        },
    };
    let params = get(&root, "params");
    let ghost folders_model: Seq<Seq<char>> = Seq::empty();
    if let Some(p) = params {
        if let Some(list) = get(p, "workspaceFolders") {
            if let Json::Array(items) = list {
                let ghost arr = list@->Array_0;
                assert forall|k: int| 0 <= k < items@.len() implies arr[k] == #[trigger] items@[k]@ by {}
                let mut i: usize = 0;
                while i < items.len()
                    invariant
                        i <= items@.len(),
                        crate::adapter::nextflow::texts(roots@) == folder_paths(arr.take(i as int)),
                    decreases items@.len() - i,
                {
                    assert(arr.take(i + 1).drop_last() =~= arr.take(i as int));
                    assert(arr.take(i + 1).last() == items@[i as int]@);
                    if let Some(u) = text_member(&items[i], "uri") {
                        if let Some(path) = uri_to_path(u.as_str()) {
                            let ghost before = roots@;
                            roots.push(path);
                            assert(crate::adapter::nextflow::texts(roots@) =~= crate::adapter::nextflow::texts(before).push(path@));
                        }
                    }
                    i = i + 1;
                }
                assert(arr.take(items@.len() as int) =~= arr);
            }
        }
    }
    if roots.len() == 0 {
        if let Some(p) = params {
            if let Some(u) = text_member(p, "rootUri") {
                if let Some(path) = uri_to_path(u.as_str()) {
                    roots.push(path);
                    assert(crate::adapter::nextflow::texts(roots@) =~= seq![path@]);
                }
            }
        }
    }
    assert(roots@.len() == 0 ==> crate::adapter::nextflow::texts(roots@) =~= Seq::<Seq<char>>::empty());
    roots
}

/// What an `initialize` response says the server calls itself: `result.serverInfo` with a
/// string `name` and, when it is a string, its `version`.
pub open spec fn server_info_model(body: Option<JsonModel>) -> Option<InfoModel> {
    match body {
        Some(root) => match member(root, "result"@) {
            Some(result) => match member(result, "serverInfo"@) {
                Some(info) => match text_field(info, "name"@) {
                    Some(name) => Some(InfoModel { name, version: text_field(info, "version"@) }),
                    None => None,
                },
                None => None,
            },
            None => None,
        },
        None => None,
    }
}

/// What an `initialize` response says the server calls itself.
pub fn server_info(body: &[u8]) -> (r: Option<ServerInfo>)
    ensures
        match r {
            Some(i) => server_info_model(json_parse(body@)) == Some(i@),
            None => server_info_model(json_parse(body@)) is None,
        },
{
    let root = match parse_json(body) {
        Some(j) => j,
        None => return None,
    };
    let info = match get(&root, "result") {
        Some(r) => match get(r, "serverInfo") {
            Some(i) => i,
            None => return None,
        },
        None => return None,
    };
    let name = match text_member(info, "name") {
        Some(n) => n.clone(),
        None => return None,
    };
    let version = match text_member(info, "version") {
        Some(v) => Some(v.clone()),
        None => None,
    };
    Some(ServerInfo { name, version })
}

/// What was done with the upstream's `InitializeResult`.
#[derive(Debug, PartialEq, Eq)]
pub enum InitializeResultAction {
    /// The upstream declares `serverStateProvider` itself (it speaks the protocol).
    UpstreamDeclares,
    /// The declaration was added; the rewritten body.
    Declared(Vec<u8>),
    /// The result has a shape the declaration cannot be added to.
    Unrewritable,
    /// Not a successful response (no `result` object): passed through as it is.
    NotASuccess,
}

/// The model of an [`InitializeResultAction`].
pub ghost enum ActionModel {
    UpstreamDeclares,
    Declared(Seq<u8>),
    Unrewritable,
    NotASuccess,
}

/// The model of an action.
pub open spec fn action_model(a: InitializeResultAction) -> ActionModel {
    match a {
        InitializeResultAction::UpstreamDeclares => ActionModel::UpstreamDeclares,
        InitializeResultAction::Declared(b) => ActionModel::Declared(b@),
        InitializeResultAction::Unrewritable => ActionModel::Unrewritable,
        InitializeResultAction::NotASuccess => ActionModel::NotASuccess,
    }
}

/// The entries of the object member `key`: `Some(empty)` when absent (it is created),
/// `None` when it is not an object.
pub open spec fn object_or_new(es: Seq<(Seq<char>, JsonModel)>, key: Seq<char>) -> Option<Seq<(Seq<char>, JsonModel)>> {
    match lookup(es, key) {
        None => Some(Seq::empty()),
        Some(JsonModel::Object(inner)) => Some(inner),
        Some(_) => None,
    }
}

/// The entries of the object member `key` as [`object_or_new`] reads them, with an explicit
/// `null` read as absent when `null_is_absent` (LSP treats an absent and a null optional field
/// alike).
pub open spec fn member_object(es: Seq<(Seq<char>, JsonModel)>, key: Seq<char>, null_is_absent: bool) -> Option<Seq<(Seq<char>, JsonModel)>> {
    match lookup(es, key) {
        Some(JsonModel::Null) => if null_is_absent { Some(Seq::empty()) } else { None },
        _ => object_or_new(es, key),
    }
}

/// What declaring `serverStateProvider` in an `initialize` response does: the declaration is
/// added under `result.capabilities.experimental` (creating the objects that are missing),
/// unless the upstream declares one itself. An explicit `"experimental": null` counts as
/// absent.
pub open spec fn declare_model(body: Option<JsonModel>, p: ProviderModel) -> ActionModel {
    match body {
        Some(JsonModel::Object(top)) => match lookup(top, "result"@) {
            Some(JsonModel::Object(res)) => match object_or_new(res, "capabilities"@) {
                Some(caps) => match member_object(caps, "experimental"@, true) {
                    Some(exp) => if lookup(exp, "serverStateProvider"@) matches Some(JsonModel::Object(_)) {
                        ActionModel::UpstreamDeclares
                    } else {
                        let exp2 = put_member(exp, "serverStateProvider"@, provider_json(p));
                        let caps2 = put_member(caps, "experimental"@, JsonModel::Object(exp2));
                        let res2 = put_member(res, "capabilities"@, JsonModel::Object(caps2));
                        ActionModel::Declared(json_print(JsonModel::Object(put_member(top, "result"@, JsonModel::Object(res2)))))
                    },
                    None => ActionModel::Unrewritable,
                },
                None => ActionModel::Unrewritable,
            },
            _ => ActionModel::NotASuccess,
        },
        _ => ActionModel::NotASuccess,
    }
}

/// Takes the object member `key` out of `es` to be edited: its place, if it was there, and
/// its entries. `Err` when it is there and not an object (then `es` is unchanged); an explicit
/// `null` reads as an empty object when `null_is_absent`.
fn detach_object(es: &mut Vec<(String, Json)>, key: &str, null_is_absent: bool) -> (r: Result<(Option<usize>, Vec<(String, Json)>), ()>)
    ensures
        match r {
            Ok((Some(i), inner)) => first_index(entry_models(old(es)@), key@) == Some(i as int)
                && member_object(entry_models(old(es)@), key@, null_is_absent) == Some(entry_models(inner@))
                && entry_models(final(es)@) == entry_models(old(es)@).remove(i as int),
            Ok((None, inner)) => first_index(entry_models(old(es)@), key@) is None
                && member_object(entry_models(old(es)@), key@, null_is_absent) == Some(entry_models(inner@))
                && final(es)@ == old(es)@,
            Err(()) => member_object(entry_models(old(es)@), key@, null_is_absent) is None && entry_models(final(es)@) == entry_models(old(es)@),
        },
{
    let ghost before = entry_models(es@);
    proof {
        lemma_first_index(before, key@);
    }
    match take_entry(es, key) {
        Some((i, Json::Object(inner))) => {
            proof {
                lemma_object_model(inner);
            }
            Ok((Some(i), inner))
        },
        Some((i, Json::Null)) if null_is_absent => {
            let inner: Vec<(String, Json)> = Vec::new();
            assert(entry_models(inner@) =~= Seq::<(Seq<char>, JsonModel)>::empty());
            Ok((Some(i), inner))
        },
        Some((i, v)) => {
            let ghost vm = v@;
            assert(es@.len() == entry_models(es@).len());
            restore_entry(es, i, key, v);
            proof {
                lemma_take_restore(before, key@, i as int, vm);
                assert(before.update(i as int, (key@, vm)) =~= before);
            }
            assert(!(vm is Object));
            Err(())
        },
        None => {
            let inner: Vec<(String, Json)> = Vec::new();
            assert(entry_models(inner@) =~= Seq::<(Seq<char>, JsonModel)>::empty());
            Ok((None, inner))
        },
    }
}

/// Puts an edited object member back where it was taken from (at the end when it was not
/// there): the entries are those with `key` set to the object.
fn attach_object(es: &mut Vec<(String, Json)>, slot: Option<usize>, key: &str, inner: Vec<(String, Json)>, Ghost(original): Ghost<Seq<(Seq<char>, JsonModel)>>)
    requires
        match slot {
            Some(i) => first_index(original, key@) == Some(i as int) && entry_models(old(es)@) == original.remove(i as int),
            None => first_index(original, key@) is None && entry_models(old(es)@) == original,
        },
    ensures
        entry_models(final(es)@) == put_member(original, key@, JsonModel::Object(entry_models(inner@))),
{
    proof {
        lemma_object_model(inner);
    }
    let v = Json::Object(inner);
    match slot {
        Some(i) => {
            proof {
                lemma_take_restore(original, key@, i as int, v@);
            }
            restore_entry(es, i, key, v);
        },
        None => {
            put_entry(es, key, v);
        },
    }
}

/// Declares `serverStateProvider` in the upstream's `InitializeResult`.
pub fn declare_server_state_provider(body: &[u8], provider: &ServerStateProvider) -> (r: InitializeResultAction)
    ensures
        action_model(r) == declare_model(json_parse(body@), provider@),
{
    let root = match parse_json(body) {
        Some(j) => j,
        None => return InitializeResultAction::NotASuccess,
    };
    let ghost root_m = root@;
    let mut top = match root {
        Json::Object(t) => t,
        _ => return InitializeResultAction::NotASuccess,
    };
    proof {
        lemma_object_model(top);
        lemma_first_index(entry_models(top@), "result"@);
    }
    let ghost top_m = entry_models(top@);
    let (ri, rv) = match take_entry(&mut top, "result") {
        Some(x) => x,
        None => return InitializeResultAction::NotASuccess,
    };
    let mut res = match rv {
        Json::Object(r) => r,
        _ => return InitializeResultAction::NotASuccess,
    };
    proof {
        lemma_object_model(res);
    }
    let ghost res_m = entry_models(res@);
    let (ci, mut caps) = match detach_object(&mut res, "capabilities", false) {
        Ok(x) => x,
        Err(()) => return InitializeResultAction::Unrewritable,
    };
    let ghost caps_m = entry_models(caps@);
    let (ei, mut exp) = match detach_object(&mut caps, "experimental", true) {
        Ok(x) => x,
        Err(()) => return InitializeResultAction::Unrewritable,
    };
    let ghost exp_m = entry_models(exp@);
    proof {
        lemma_first_index(exp_m, "serverStateProvider"@);
    }
    if let Some(k) = entry_index(&exp, "serverStateProvider") {
        if let Json::Object(_) = &exp[k].1 {
            return InitializeResultAction::UpstreamDeclares;
        }
    }
    put_entry(&mut exp, "serverStateProvider", provider.to_json());
    attach_object(&mut caps, ei, "experimental", exp, Ghost(caps_m));
    attach_object(&mut res, ci, "capabilities", caps, Ghost(res_m));
    let ghost res2 = entry_models(res@);
    proof {
        lemma_object_model(res);
    }
    let rj = Json::Object(res);
    proof {
        lemma_take_restore(top_m, "result"@, ri as int, rj@);
    }
    restore_entry(&mut top, ri, "result", rj);
    proof {
        lemma_object_model(top);
    }
    let whole = Json::Object(top);
    InitializeResultAction::Declared(to_json_bytes(&whole))
}

/// The segments of a dotted path (`str::split('.')`).
pub open spec fn split_dots(s: Seq<char>) -> Seq<Seq<char>>
    decreases s.len(),
{
    match find(s, "."@) {
        Some(i) => if 0 <= i < s.len() {
            seq![s.take(i)] + split_dots(s.skip(i + 1))
        } else {
            seq![s]
        },
        None => seq![s],
    }
}

/// A dotted path cut at its last dot (`str::rsplit_once('.')`).
pub open spec fn last_dot_split(s: Seq<char>) -> Option<(Seq<char>, Seq<char>)> {
    if exists|i: int| 0 <= i < s.len() && s[i] == '.' {
        let i = choose|i: int| 0 <= i < s.len() && s[i] == '.' && forall|k: int| i < k < s.len() ==> s[k] != '.';
        Some((s.take(i), s.skip(i + 1)))
    } else {
        None
    }
}

/// `key` set to `true` in an object, unless it is `true` already; whether it changed.
pub open spec fn set_leaf_model(obj: Seq<(Seq<char>, JsonModel)>, key: Seq<char>) -> (Seq<(Seq<char>, JsonModel)>, bool) {
    if lookup(obj, key) == Some(JsonModel::Bool(true)) {
        (obj, false)
    } else {
        (put_member(obj, key, JsonModel::Bool(true)), true)
    }
}

/// The leaf under the objects named by `segs` set to `true`, creating the objects that are
/// missing; a member on the way that is not an object stops it (what was created before it
/// stays).
pub open spec fn set_path_model(obj: Seq<(Seq<char>, JsonModel)>, segs: Seq<Seq<char>>, leaf: Seq<char>) -> (Seq<(Seq<char>, JsonModel)>, bool)
    decreases segs.len(),
{
    if segs.len() == 0 {
        set_leaf_model(obj, leaf)
    } else {
        match lookup(obj, segs[0]) {
            None => {
                let (inner, changed) = set_path_model(Seq::empty(), segs.drop_first(), leaf);
                (obj.push((segs[0], JsonModel::Object(inner))), changed)
            },
            Some(JsonModel::Object(inner0)) => {
                let (inner, changed) = set_path_model(inner0, segs.drop_first(), leaf);
                (put_member(obj, segs[0], JsonModel::Object(inner)), changed)
            },
            Some(_) => (obj, false),
        }
    }
}

/// A dotted capability path set to `true`.
pub open spec fn set_true_model(caps: Seq<(Seq<char>, JsonModel)>, path: Seq<char>) -> (Seq<(Seq<char>, JsonModel)>, bool) {
    match last_dot_split(path) {
        Some((parents, leaf)) => set_path_model(caps, split_dots(parents), leaf),
        None => set_leaf_model(caps, path),
    }
}

/// Every path set to `true`, in order; whether anything changed.
pub open spec fn set_all_model(caps: Seq<(Seq<char>, JsonModel)>, paths: Seq<Seq<char>>) -> (Seq<(Seq<char>, JsonModel)>, bool)
    decreases paths.len(),
{
    if paths.len() == 0 {
        (caps, false)
    } else {
        let (c1, ch1) = set_true_model(caps, paths[0]);
        let (c2, ch2) = set_all_model(c1, paths.drop_first());
        (c2, ch1 || ch2)
    }
}

/// The client's `initialize` with the capabilities `paths` set to `true` under
/// `params.capabilities` (created when missing); `None` when nothing changed or the body does
/// not have that shape.
pub open spec fn inject_model(body: Option<JsonModel>, paths: Seq<Seq<char>>) -> Option<Seq<u8>> {
    if paths.len() == 0 {
        None
    } else {
        match body {
            Some(JsonModel::Object(top)) => match lookup(top, "params"@) {
                Some(JsonModel::Object(params)) => match object_or_new(params, "capabilities"@) {
                    Some(caps) => {
                        let (caps2, changed) = set_all_model(caps, paths);
                        if changed {
                            let params2 = put_member(params, "capabilities"@, JsonModel::Object(caps2));
                            Some(json_print(JsonModel::Object(put_member(top, "params"@, JsonModel::Object(params2)))))
                        } else {
                            None
                        }
                    },
                    None => None,
                },
                _ => None,
            },
            _ => None,
        }
    }
}

/// Sets `key` to `true` unless it is `true` already.
fn set_leaf_true(obj: &mut Vec<(String, Json)>, key: &str) -> (r: bool)
    ensures
        (entry_models(final(obj)@), r) == set_leaf_model(entry_models(old(obj)@), key@),
{
    proof {
        lemma_first_index(entry_models(obj@), key@);
    }
    if let Some(k) = entry_index(obj, key) {
        if let Json::Bool(true) = &obj[k].1 {
            return false;
        }
        assert(entry_models(obj@)[k as int].1 != JsonModel::Bool(true));
    }
    put_entry(obj, key, Json::Bool(true));
    true
}

/// Sets the leaf under the objects `segs[k..]` to `true`.
fn set_path(obj: &mut Vec<(String, Json)>, segs: &Vec<String>, k: usize, leaf: &str) -> (r: bool)
    requires
        k <= segs@.len(),
    ensures
        (entry_models(final(obj)@), r) == set_path_model(entry_models(old(obj)@), crate::adapter::nextflow::texts(segs@).skip(k as int), leaf@),
    decreases segs@.len() - k,
{
    let ghost rest = crate::adapter::nextflow::texts(segs@).skip(k as int);
    if k == segs.len() {
        assert(rest.len() == 0);
        return set_leaf_true(obj, leaf);
    }
    assert(rest[0] == segs@[k as int]@);
    assert(rest.drop_first() =~= crate::adapter::nextflow::texts(segs@).skip(k + 1));
    let ghost original = entry_models(obj@);
    proof {
        lemma_first_index(original, segs@[k as int]@);
    }
    let key = segs[k].as_str();
    match detach_object(obj, key, false) {
        Ok((slot, mut inner)) => {
            let ghost inner0 = entry_models(inner@);
            let changed = set_path(&mut inner, segs, k + 1, leaf);
            assert((entry_models(inner@), changed) == set_path_model(inner0, rest.drop_first(), leaf@));
            match slot {
                Some(_) => {},
                None => {
                    assert(original.push((key@, JsonModel::Object(entry_models(inner@)))) == put_member(original, key@, JsonModel::Object(entry_models(inner@))));
                },
            }
            attach_object(obj, slot, key, inner, Ghost(original));
            changed
        },
        Err(()) => false,
    }
}

/// The position of the last `.` in `s`.
fn last_dot(s: &str) -> (r: Option<(String, String)>)
    ensures
        match r {
            Some((a, b)) => last_dot_split(s@) == Some((a@, b@)),
            None => last_dot_split(s@) is None,
        },
{
    let cs = crate::text::chars_of(s);
    let mut i: usize = cs.len();
    while i > 0 && cs[i - 1] != '.'
        invariant
            i <= cs@.len(),
            cs@ == s@,
            forall|k: int| i <= k < cs@.len() ==> cs@[k] != '.',
        decreases i,
    {
        i = i - 1;
    }
    if i == 0 {
        return None;
    }
    let d = i - 1;
    proof {
        let c = choose|j: int| 0 <= j < s@.len() && s@[j] == '.' && forall|k: int| j < k < s@.len() ==> s@[k] != '.';
        assert(0 <= c < s@.len() && s@[c] == '.' && forall|k: int| c < k < s@.len() ==> s@[k] != '.');
        if c < d {
            assert(s@[d as int] == '.');
        }
        if c > d {
            assert(s@[c] != '.');
        }
        assert(c == d);
    }
    let a = crate::text::string_of(vstd::slice::slice_subrange(cs.as_slice(), 0, d));
    let b = crate::text::string_of(vstd::slice::slice_subrange(cs.as_slice(), i, cs.len()));
    assert(cs@.subrange(0, d as int) =~= s@.take(d as int));
    assert(cs@.subrange(i as int, cs@.len() as int) =~= s@.skip(i as int));
    Some((a, b))
}

/// The segments of a dotted path.
fn split_dotted(s: &str) -> (r: Vec<String>)
    ensures
        crate::adapter::nextflow::texts(r@) == split_dots(s@),
    decreases s@.len(),
{
    match split_once(s, ".") {
        Some((head, tail)) => {
            proof {
                reveal_strlit(".");
                crate::text::lemma_find_in_range(s@, "."@);
            }
            let mut out: Vec<String> = Vec::new();
            out.push(head);
            let rest = split_dotted(tail.as_str());
            let mut i: usize = 0;
            let ghost first = crate::adapter::nextflow::texts(out@);
            while i < rest.len()
                invariant
                    i <= rest@.len(),
                    crate::adapter::nextflow::texts(out@) == first + crate::adapter::nextflow::texts(rest@).take(i as int),
                decreases rest@.len() - i,
            {
                let ghost before = out@;
                out.push(rest[i].clone());
                assert(crate::adapter::nextflow::texts(out@) =~= crate::adapter::nextflow::texts(before).push(rest@[i as int]@));
                assert(crate::adapter::nextflow::texts(rest@).take(i + 1) =~= crate::adapter::nextflow::texts(rest@).take(i as int).push(rest@[i as int]@));
                i = i + 1;
            }
            assert(crate::adapter::nextflow::texts(rest@).take(rest@.len() as int) =~= crate::adapter::nextflow::texts(rest@));
            out
        },
        None => {
            let mut out: Vec<String> = Vec::new();
            out.push(s.to_owned());
            assert(crate::adapter::nextflow::texts(out@) =~= seq![s@]);
            out
        },
    }
}

/// Sets one dotted capability path to `true`.
fn set_true(caps: &mut Vec<(String, Json)>, path: &str) -> (r: bool)
    ensures
        (entry_models(final(caps)@), r) == set_true_model(entry_models(old(caps)@), path@),
{
    match last_dot(path) {
        Some((parents, leaf)) => {
            let segs = split_dotted(parents.as_str());
            assert(crate::adapter::nextflow::texts(segs@).skip(0) =~= crate::adapter::nextflow::texts(segs@));
            set_path(caps, &segs, 0, leaf.as_str())
        },
        None => set_leaf_true(caps, path),
    }
}

/// The texts of a list of paths.
pub open spec fn path_texts(paths: Seq<&str>) -> Seq<Seq<char>> {
    Seq::new(paths.len(), |i: int| paths[i]@)
}

/// Injects client capabilities into the client's `initialize`: each dotted path under
/// `params.capabilities` is set to `true`, creating what is missing. `None` when nothing
/// changed (the client declared all of them) or the body does not have that shape; then the
/// original is forwarded as it is.
pub fn inject_client_capabilities(body: &[u8], paths: &[&str]) -> (r: Option<Vec<u8>>)
    ensures
        match r {
            Some(b) => inject_model(json_parse(body@), path_texts(paths@)) == Some(b@),
            None => inject_model(json_parse(body@), path_texts(paths@)) is None,
        },
{
    if paths.len() == 0 {
        return None;
    }
    let root = match parse_json(body) {
        Some(j) => j,
        None => return None,
    };
    let mut top = match root {
        Json::Object(t) => t,
        _ => return None,
    };
    proof {
        lemma_object_model(top);
        lemma_first_index(entry_models(top@), "params"@);
    }
    let ghost top_m = entry_models(top@);
    let (pi, pv) = match take_entry(&mut top, "params") {
        Some(x) => x,
        None => return None,
    };
    let mut params = match pv {
        Json::Object(p) => p,
        _ => return None,
    };
    proof {
        lemma_object_model(params);
    }
    let ghost params_m = entry_models(params@);
    let (ci, mut caps) = match detach_object(&mut params, "capabilities", false) {
        Ok(x) => x,
        Err(()) => return None,
    };
    let ghost caps_m = entry_models(caps@);
    let mut changed = false;
    let mut i: usize = 0;
    assert(path_texts(paths@).skip(0) =~= path_texts(paths@));
    while i < paths.len()
        invariant
            i <= paths@.len(),
            set_all_model(caps_m, path_texts(paths@)) == {
                let (c, ch) = set_all_model(entry_models(caps@), path_texts(paths@).skip(i as int));
                (c, changed || ch)
            },
        decreases paths@.len() - i,
    {
        let ghost rest = path_texts(paths@).skip(i as int);
        assert(rest[0] == paths@[i as int]@);
        assert(rest.drop_first() =~= path_texts(paths@).skip(i + 1));
        let c = set_true(&mut caps, paths[i]);
        changed = changed || c;
        i = i + 1;
    }
    if !changed {
        return None;
    }
    attach_object(&mut params, ci, "capabilities", caps, Ghost(params_m));
    proof {
        lemma_object_model(params);
    }
    let pj = Json::Object(params);
    proof {
        lemma_take_restore(top_m, "params"@, pi as int, pj@);
    }
    restore_entry(&mut top, pi, "params", pj);
    proof {
        lemma_object_model(top);
    }
    Some(to_json_bytes(&Json::Object(top)))
}

/// The path of a folder whose `uri` is a readable `file:` URI.
pub open spec fn folder_path(item: JsonModel) -> Option<Seq<char>> {
    match text_field(item, "uri"@) {
        Some(u) => checked_path(u),
        None => None,
    }
}

proof fn lemma_folder_paths_all(items: Seq<JsonModel>)
    requires
        forall|i: int| 0 <= i < items.len() ==> #[trigger] folder_path(items[i]) is Some,
    ensures
        folder_paths(items).len() == items.len(),
        forall|i: int| 0 <= i < items.len() ==> folder_paths(items)[i] == #[trigger] folder_path(items[i])->0,
    decreases items.len(),
{
    if items.len() > 0 {
        let init = items.drop_last();
        assert forall|i: int| 0 <= i < init.len() implies #[trigger] folder_path(init[i]) is Some by {
            assert(init[i] == items[i]);
        }
        lemma_folder_paths_all(init);
        assert(folder_path(items[items.len() - 1]) is Some);
        assert forall|i: int| 0 <= i < items.len() implies folder_paths(items)[i] == #[trigger] folder_path(items[i])->0 by {
            if i < items.len() - 1 {
                assert(init[i] == items[i]);
            }
        }
    }
}

proof fn lemma_folder_paths_keep(items: Seq<JsonModel>, i: int)
    requires
        0 <= i < items.len(),
        folder_path(items[i]) is Some,
    ensures
        folder_paths(items).contains(folder_path(items[i])->0),
    decreases items.len(),
{
    let rest = folder_paths(items.drop_last());
    if i == items.len() - 1 {
        assert(folder_paths(items) == rest.push(folder_path(items[i])->0));
        assert(folder_paths(items)[rest.len() as int] == folder_path(items[i])->0);
    } else {
        assert(items.drop_last()[i] == items[i]);
        lemma_folder_paths_keep(items.drop_last(), i);
        let k = choose|k: int| 0 <= k < rest.len() && rest[k] == folder_path(items[i])->0;
        assert(folder_paths(items)[k] == rest[k]);
    }
}

/// Every workspace folder is a root: each folder whose `uri` is a readable `file:` URI gives
/// its path, and when every folder is readable the roots are exactly their paths, one per
/// folder, in the folders' order (`rootUri` is not looked at then).
pub proof fn law_every_workspace_folder_is_a_root(j: JsonModel, p: JsonModel, items: Seq<JsonModel>)
    requires
        member(j, "params"@) == Some(p),
        member(p, "workspaceFolders"@) == Some(JsonModel::Array(items)),
    ensures
        forall|i: int| 0 <= i < items.len() && #[trigger] folder_path(items[i]) is Some
            ==> roots_model(Some(j)).contains(folder_path(items[i])->0),
        items.len() > 0 && (forall|i: int| 0 <= i < items.len() ==> #[trigger] folder_path(items[i]) is Some) ==> {
            &&& roots_model(Some(j)).len() == items.len()
            &&& forall|i: int| 0 <= i < items.len() ==> roots_model(Some(j))[i] == #[trigger] folder_path(items[i])->0
        },
{
    assert forall|i: int| 0 <= i < items.len() && #[trigger] folder_path(items[i]) is Some
        implies roots_model(Some(j)).contains(folder_path(items[i])->0) by {
        lemma_folder_paths_keep(items, i);
    }
    if items.len() > 0 && (forall|i: int| 0 <= i < items.len() ==> #[trigger] folder_path(items[i]) is Some) {
        lemma_folder_paths_all(items);
    }
}

} // verus!
