//! Standing in for `workspace/didChangeWatchedFiles` for a client that does not watch files.
//!
//! The files of each workspace root (those git tracks or would track) are listed with their
//! modification times. Before a cross-workspace request, the listing is compared with the
//! previous one, and what was created, changed or deleted is sent to the upstream as one
//! `workspace/didChangeWatchedFiles`. Listing the files is done outside; this module holds the
//! roots and the last listing, and computes the changes.

use vstd::prelude::*;

use crate::framing::RawMessage;
use crate::json::{Json, JsonModel, JsonNumber, jint, jstr, json_print, to_json_bytes};
use crate::text::str_eq;
use crate::uri::{path_to_uri, uri_of};

verus! {

/// LSP's `FileChangeType.Created`.
pub const CREATED: u8 = 1;

/// LSP's `FileChangeType.Changed`.
pub const CHANGED: u8 = 2;

/// LSP's `FileChangeType.Deleted`.
pub const DELETED: u8 = 3;

/// The modification time a listing records for a path (`None` when it has none).
pub open spec fn time_of(files: Seq<(Seq<char>, u128)>, path: Seq<char>) -> Option<u128>
    decreases files.len(),
{
    if files.len() == 0 {
        None
    } else if files[0].0 == path {
        Some(files[0].1)
    } else {
        time_of(files.drop_first(), path)
    }
}

/// The creations and changes of `current` against `previous`, in the order of `current`.
pub open spec fn arrivals(previous: Seq<(Seq<char>, u128)>, current: Seq<(Seq<char>, u128)>) -> Seq<(Seq<char>, u8)>
    decreases current.len(),
{
    if current.len() == 0 {
        Seq::empty()
    } else {
        let rest = arrivals(previous, current.drop_last());
        let (path, t) = current.last();
        match time_of(previous, path) {
            None => rest.push((path, CREATED)),
            Some(t0) => if t0 != t {
                rest.push((path, CHANGED))
            } else {
                rest
            },
        }
    }
}

/// The deletions: the paths of `previous` no longer in `current`, in the order of
/// `previous`.
pub open spec fn departures(previous: Seq<(Seq<char>, u128)>, current: Seq<(Seq<char>, u128)>) -> Seq<(Seq<char>, u8)>
    decreases previous.len(),
{
    if previous.len() == 0 {
        Seq::empty()
    } else {
        let rest = departures(previous.drop_last(), current);
        if time_of(current, previous.last().0) is None {
            rest.push((previous.last().0, DELETED))
        } else {
            rest
        }
    }
}

/// Every change between two listings.
pub open spec fn changes(previous: Seq<(Seq<char>, u128)>, current: Seq<(Seq<char>, u128)>) -> Seq<(Seq<char>, u8)> {
    arrivals(previous, current) + departures(previous, current)
}

/// The JSON of one change.
pub open spec fn change_json(c: (Seq<char>, u8)) -> JsonModel {
    JsonModel::Object(seq![("uri"@, jstr(uri_of(c.0))), ("type"@, jint(c.1 as i64))])
}

/// The notification of a list of changes.
pub open spec fn notification_json(cs: Seq<(Seq<char>, u8)>) -> JsonModel {
    JsonModel::Object(
        seq![
            ("jsonrpc"@, jstr("2.0"@)),
            ("method"@, jstr("workspace/didChangeWatchedFiles"@)),
            ("params"@, JsonModel::Object(seq![("changes"@, JsonModel::Array(Seq::new(cs.len(), |i: int| change_json(cs[i]))))])),
        ],
    )
}

/// A listing by its texts.
pub open spec fn listing(files: Seq<(String, u128)>) -> Seq<(Seq<char>, u128)> {
    Seq::new(files.len(), |i: int| (files[i].0@, files[i].1))
}

/// The model of a [`WatchedFiles`].
pub ghost struct WatchedModel {
    pub roots: Seq<Seq<char>>,
    pub snapshot: Seq<(Seq<char>, u128)>,
}

/// The stand-in: the roots watched and their last listing.
pub struct WatchedFiles {
    roots: Vec<String>,
    snapshot: Vec<(String, u128)>,
}

impl View for WatchedFiles {
    type V = WatchedModel;

    closed spec fn view(&self) -> WatchedModel {
        WatchedModel { roots: crate::adapter::nextflow::texts(self.roots@), snapshot: listing(self.snapshot@) }
    }
}

proof fn lemma_time_of(files: Seq<(Seq<char>, u128)>, path: Seq<char>, i: int)
    requires
        0 <= i <= files.len(),
        forall|k: int| 0 <= k < i ==> (#[trigger] files[k]).0 != path,
    ensures
        i < files.len() && files[i].0 == path ==> time_of(files, path) == Some(files[i].1),
        i == files.len() ==> time_of(files, path) is None,
    decreases i,
{
    if i > 0 {
        lemma_time_of(files.drop_first(), path, i - 1);
    }
}

fn time_in(files: &Vec<(String, u128)>, path: &str) -> (r: Option<u128>)
    ensures
        r == time_of(listing(files@), path@),
{
    let ghost l = listing(files@);
    let mut i: usize = 0;
    while i < files.len()
        invariant
            i <= files@.len(),
            l == listing(files@),
            forall|k: int| 0 <= k < i ==> (#[trigger] l[k]).0 != path@,
        decreases files@.len() - i,
    {
        assert(l[i as int] == (files@[i as int].0@, files@[i as int].1));
        if str_eq(files[i].0.as_str(), path) {
            proof {
                lemma_time_of(l, path@, i as int);
            }
            return Some(files[i].1);
        }
        i = i + 1;
    }
    proof {
        lemma_time_of(l, path@, i as int);
    }
    None
}

/// The JSON of one change.
fn change(path: &str, kind: u8) -> (r: Json)
    ensures
        r@ == change_json((path@, kind)),
{
    let u = Json::String(path_to_uri(path));
    assert(u@ == jstr(uri_of(path@)));
    let k = Json::Number(JsonNumber::PosInt(kind as u64));
    assert(k@ == jint(kind as i64));
    let mut entries: Vec<(String, Json)> = Vec::new();
    entries.push(("uri".to_owned(), u));
    entries.push(("type".to_owned(), k));
    let r = Json::Object(entries);
    assert(r@->Object_0 =~= change_json((path@, kind))->Object_0);
    r
}

impl WatchedFiles {
    /// The stand-in for the roots that could be listed, with their first listing. `None`
    /// when no root could be listed, or the listing failed.
    pub fn new(usable_roots: Vec<String>, snapshot: Option<Vec<(String, u128)>>) -> (r: Option<Self>)
        ensures
            match r {
                Some(w) => usable_roots@.len() > 0 && (snapshot matches Some(s) && w@ == (WatchedModel {
                    roots: crate::adapter::nextflow::texts(usable_roots@),
                    snapshot: listing(s@),
                })),
                None => usable_roots@.len() == 0 || snapshot is None,
            },
    {
        if usable_roots.len() == 0 {
            return None;
        }
        match snapshot {
            Some(s) => Some(WatchedFiles { roots: usable_roots, snapshot: s }),
            None => None,
        }
    }

    /// The roots whose files are listed.
    pub fn roots(&self) -> (r: &Vec<String>)
        ensures
            crate::adapter::nextflow::texts(r@) == self@.roots,
    {
        &self.roots
    }

    /// Compares a new listing of the roots with the previous one, and keeps it. The changes
    /// are one `workspace/didChangeWatchedFiles`: creations and changes in the order of the
    /// new listing, then deletions in the order of the previous one. Nothing when nothing
    /// changed, or when the listing failed (`None`; the previous listing is kept).
    pub fn changes_since_last_scan(&mut self, current: Option<Vec<(String, u128)>>) -> (r: Option<RawMessage>)
        ensures
            match current {
                None => final(self)@ == old(self)@ && r is None,
                Some(cur) => {
                    &&& final(self)@ == (WatchedModel { snapshot: listing(cur@), ..old(self)@ })
                    &&& if changes(old(self)@.snapshot, listing(cur@)).len() == 0 {
                        r is None
                    } else {
                        r matches Some(m) && m.body@ == json_print(notification_json(changes(old(self)@.snapshot, listing(cur@))))
                    }
                },
            },
    {
        let cur = match current {
            Some(c) => c,
            None => return None,
        };
        let ghost prev = listing(self.snapshot@);
        let ghost now = listing(cur@);
        let mut items: Vec<Json> = Vec::new();
        let ghost mut done: Seq<(Seq<char>, u8)> = Seq::empty();
        let mut i: usize = 0;
        while i < cur.len()
            invariant
                i <= cur@.len(),
                prev == listing(self.snapshot@),
                now == listing(cur@),
                done == arrivals(prev, now.take(i as int)),
                items@.len() == done.len(),
                forall|k: int| 0 <= k < done.len() ==> (#[trigger] items@[k])@ == change_json(done[k]),
            decreases cur@.len() - i,
        {
            assert(now.take(i + 1).drop_last() =~= now.take(i as int));
            assert(now.take(i + 1).last() == (cur@[i as int].0@, cur@[i as int].1));
            let path = cur[i].0.as_str();
            match time_in(&self.snapshot, path) {
                None => {
                    items.push(change(path, CREATED));
                    proof {
                        done = done.push((cur@[i as int].0@, CREATED));
                    }
                },
                Some(t0) => if t0 != cur[i].1 {
                    items.push(change(path, CHANGED));
                    proof {
                        done = done.push((cur@[i as int].0@, CHANGED));
                    }
                },
            }
            i = i + 1;
        }
        assert(now.take(cur@.len() as int) =~= now);
        let ghost arrived = done;
        let mut j: usize = 0;
        let ghost mut gone: Seq<(Seq<char>, u8)> = Seq::empty();
        while j < self.snapshot.len()
            invariant
                j <= self.snapshot@.len(),
                prev == listing(self.snapshot@),
                now == listing(cur@),
                arrived == arrivals(prev, now),
                gone == departures(prev.take(j as int), now),
                items@.len() == arrived.len() + gone.len(),
                forall|k: int| 0 <= k < items@.len() ==> (#[trigger] items@[k])@ == change_json((arrived + gone)[k]),
            decreases self.snapshot@.len() - j,
        {
            assert(prev.take(j + 1).drop_last() =~= prev.take(j as int));
            assert(prev.take(j + 1).last() == (self.snapshot@[j as int].0@, self.snapshot@[j as int].1));
            let path = self.snapshot[j].0.as_str();
            if time_in(&cur, path).is_none() {
                items.push(change(path, DELETED));
                proof {
                    let before = gone;
                    gone = gone.push((self.snapshot@[j as int].0@, DELETED));
                    assert((arrived + gone) =~= (arrived + before).push((self.snapshot@[j as int].0@, DELETED)));
                }
            } else {
                assert(gone == departures(prev.take(j + 1), now));
            }
            j = j + 1;
        }
        assert(prev.take(self.snapshot@.len() as int) =~= prev);
        let ghost all = arrived + gone;
        assert(all == changes(prev, now));
        self.snapshot = cur;
        if items.len() == 0 {
            return None;
        }
        let list = Json::Array(items);
        assert(list@->Array_0 =~= Seq::new(all.len(), |i: int| change_json(all[i])));
        let mut changes_entries: Vec<(String, Json)> = Vec::new();
        changes_entries.push(("changes".to_owned(), list));
        let params = Json::Object(changes_entries);
        let v = Json::String("2.0".to_owned());
        let m = Json::String("workspace/didChangeWatchedFiles".to_owned());
        assert(v@ == jstr("2.0"@));
        assert(m@ == jstr("workspace/didChangeWatchedFiles"@));
        let mut outer: Vec<(String, Json)> = Vec::new();
        outer.push(("jsonrpc".to_owned(), v));
        outer.push(("method".to_owned(), m));
        outer.push(("params".to_owned(), params));
        let whole = Json::Object(outer);
        proof {
            let want = notification_json(all)->Object_0;
            assert(params@->Object_0 =~= want[2].1->Object_0);
            assert(params@ == want[2].1);
            assert(whole@->Object_0 =~= want);
        }
        Some(RawMessage { body: to_json_bytes(&whole) })
    }
}

proof fn lemma_time_of_absent(files: Seq<(Seq<char>, u128)>, path: Seq<char>)
    requires
        forall|j: int| 0 <= j < files.len() ==> (#[trigger] files[j]).0 != path,
    ensures
        time_of(files, path) is None,
    decreases files.len(),
{
    if files.len() > 0 {
        assert forall|j: int| 0 <= j < files.drop_first().len() implies (#[trigger] files.drop_first()[j]).0 != path by {
            assert(files.drop_first()[j] == files[j + 1]);
        }
        lemma_time_of_absent(files.drop_first(), path);
    }
}

proof fn lemma_time_of_first(files: Seq<(Seq<char>, u128)>, path: Seq<char>, j: int)
    requires
        0 <= j < files.len(),
        files[j].0 == path,
        forall|k: int| 0 <= k < j ==> (#[trigger] files[k]).0 != path,
    ensures
        time_of(files, path) == Some(files[j].1),
    decreases j,
{
    if j > 0 {
        assert forall|k: int| 0 <= k < j - 1 implies (#[trigger] files.drop_first()[k]).0 != path by {
            assert(files.drop_first()[k] == files[k + 1]);
        }
        lemma_time_of_first(files.drop_first(), path, j - 1);
    }
}

proof fn lemma_arrivals_grow(previous: Seq<(Seq<char>, u128)>, current: Seq<(Seq<char>, u128)>, c: (Seq<char>, u8))
    requires
        current.len() > 0,
        arrivals(previous, current.drop_last()).contains(c),
    ensures
        arrivals(previous, current).contains(c),
{
    let rest = arrivals(previous, current.drop_last());
    let k = choose|k: int| 0 <= k < rest.len() && rest[k] == c;
    let a = arrivals(previous, current);
    assert(a == rest || a == rest.push((current.last().0, CREATED)) || a == rest.push((current.last().0, CHANGED)));
    assert(a[k] == c);
}

proof fn lemma_arrivals_report(previous: Seq<(Seq<char>, u128)>, current: Seq<(Seq<char>, u128)>, j: int)
    requires
        0 <= j < current.len(),
    ensures
        time_of(previous, current[j].0) is None ==> arrivals(previous, current).contains((current[j].0, CREATED)),
        time_of(previous, current[j].0) matches Some(t0) && t0 != current[j].1
            ==> arrivals(previous, current).contains((current[j].0, CHANGED)),
    decreases current.len(),
{
    let a = arrivals(previous, current);
    if j == current.len() - 1 {
        let rest = arrivals(previous, current.drop_last());
        if time_of(previous, current[j].0) is None {
            assert(a == rest.push((current[j].0, CREATED)));
            assert(a[rest.len() as int] == (current[j].0, CREATED));
        } else if time_of(previous, current[j].0)->0 != current[j].1 {
            assert(a == rest.push((current[j].0, CHANGED)));
            assert(a[rest.len() as int] == (current[j].0, CHANGED));
        }
    } else {
        lemma_arrivals_report(previous, current.drop_last(), j);
        assert(current.drop_last()[j] == current[j]);
        if time_of(previous, current[j].0) is None {
            lemma_arrivals_grow(previous, current, (current[j].0, CREATED));
        } else if time_of(previous, current[j].0)->0 != current[j].1 {
            lemma_arrivals_grow(previous, current, (current[j].0, CHANGED));
        }
    }
}

proof fn lemma_departures_report(previous: Seq<(Seq<char>, u128)>, current: Seq<(Seq<char>, u128)>, i: int)
    requires
        0 <= i < previous.len(),
        time_of(current, previous[i].0) is None,
    ensures
        departures(previous, current).contains((previous[i].0, DELETED)),
    decreases previous.len(),
{
    let d = departures(previous, current);
    let rest = departures(previous.drop_last(), current);
    if i == previous.len() - 1 {
        assert(d == rest.push((previous[i].0, DELETED)));
        assert(d[rest.len() as int] == (previous[i].0, DELETED));
    } else {
        assert(previous.drop_last()[i] == previous[i]);
        lemma_departures_report(previous.drop_last(), current, i);
        let k = choose|k: int| 0 <= k < rest.len() && rest[k] == (previous[i].0, DELETED);
        assert(d == rest || d == rest.push((previous.last().0, DELETED)));
        assert(d[k] == (previous[i].0, DELETED));
    }
}

/// The changes between two listings name every difference: each path of the previous listing
/// missing from the new one as Deleted (3), each path of the new listing missing from the
/// previous one as Created (1), and each path whose modification time moved as Changed (2),
/// whatever else was created, changed or deleted.
pub proof fn law_the_changes_name_every_difference(previous: Seq<(Seq<char>, u128)>, current: Seq<(Seq<char>, u128)>)
    ensures
        forall|i: int| 0 <= i < previous.len() && (forall|j: int| 0 <= j < current.len() ==> (#[trigger] current[j]).0 != previous[i].0)
            ==> changes(previous, current).contains((#[trigger] previous[i].0, DELETED)),
        forall|j: int| 0 <= j < current.len() && (forall|i: int| 0 <= i < previous.len() ==> (#[trigger] previous[i]).0 != current[j].0)
            ==> changes(previous, current).contains((#[trigger] current[j].0, CREATED)),
        forall|i: int, j: int| 0 <= i < previous.len() && 0 <= j < current.len() && #[trigger] previous[i].0 == #[trigger] current[j].0
            && previous[i].1 != current[j].1 && (forall|k: int| 0 <= k < i ==> (#[trigger] previous[k]).0 != previous[i].0)
            ==> changes(previous, current).contains((current[j].0, CHANGED)),
{
    let a = arrivals(previous, current);
    let d = departures(previous, current);
    assert forall|c: (Seq<char>, u8)| a.contains(c) implies #[trigger] changes(previous, current).contains(c) by {
        let k = choose|k: int| 0 <= k < a.len() && a[k] == c;
        assert(changes(previous, current)[k] == c);
    }
    assert forall|c: (Seq<char>, u8)| d.contains(c) implies #[trigger] changes(previous, current).contains(c) by {
        let k = choose|k: int| 0 <= k < d.len() && d[k] == c;
        assert(changes(previous, current)[a.len() + k] == c);
    }
    assert forall|i: int| 0 <= i < previous.len() && (forall|j: int| 0 <= j < current.len() ==> (#[trigger] current[j]).0 != previous[i].0)
        implies changes(previous, current).contains((#[trigger] previous[i].0, DELETED)) by {
        lemma_time_of_absent(current, previous[i].0);
        lemma_departures_report(previous, current, i);
    }
    assert forall|j: int| 0 <= j < current.len() && (forall|i: int| 0 <= i < previous.len() ==> (#[trigger] previous[i]).0 != current[j].0)
        implies changes(previous, current).contains((#[trigger] current[j].0, CREATED)) by {
        lemma_time_of_absent(previous, current[j].0);
        lemma_arrivals_report(previous, current, j);
    }
    assert forall|i: int, j: int| 0 <= i < previous.len() && 0 <= j < current.len() && #[trigger] previous[i].0 == #[trigger] current[j].0
        && previous[i].1 != current[j].1 && (forall|k: int| 0 <= k < i ==> (#[trigger] previous[k]).0 != previous[i].0)
        implies changes(previous, current).contains((current[j].0, CHANGED)) by {
        lemma_time_of_first(previous, current[j].0, i);
        lemma_arrivals_report(previous, current, j);
    }
}

} // verus!
