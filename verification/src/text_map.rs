//! A map from text to text kept sorted by key, as a `BTreeMap<String, String>` is: the first
//! entry is the one with the smallest key.

use vstd::prelude::*;

use crate::text::{str_eq, str_lt, text_lt};

verus! {

/// `entries` with `key` failing with `value`: kept sorted by key, the entry for `key`
/// replaced.
pub open spec fn put_entry(entries: Seq<(Seq<char>, Seq<char>)>, key: Seq<char>, value: Seq<char>) -> Seq<(Seq<char>, Seq<char>)>
    decreases entries.len(),
{
    if entries.len() == 0 {
        seq![(key, value)]
    } else if entries[0].0 == key {
        entries.update(0, (key, value))
    } else if text_lt(key, entries[0].0) {
        seq![(key, value)] + entries
    } else {
        seq![entries[0]] + put_entry(entries.drop_first(), key, value)
    }
}

/// `entries` without the entry for `key`.
pub open spec fn drop_entry(entries: Seq<(Seq<char>, Seq<char>)>, key: Seq<char>) -> Seq<(Seq<char>, Seq<char>)>
    decreases entries.len(),
{
    if entries.len() == 0 {
        entries
    } else if entries[0].0 == key {
        entries.drop_first()
    } else {
        seq![entries[0]] + drop_entry(entries.drop_first(), key)
    }
}

proof fn lemma_put_entry(fs: Seq<(Seq<char>, Seq<char>)>, key: Seq<char>, m: Seq<char>, i: int)
    requires
        0 <= i <= fs.len(),
        forall|k: int| 0 <= k < i ==> fs[k].0 != key && !text_lt(key, #[trigger] fs[k].0),
        i < fs.len() ==> fs[i].0 == key || text_lt(key, fs[i].0),
    ensures
        put_entry(fs, key, m) == if i < fs.len() && fs[i].0 == key {
            fs.update(i, (key, m))
        } else {
            fs.take(i).push((key, m)) + fs.skip(i)
        },
    decreases i,
{
    if fs.len() == 0 {
        assert(fs.take(i).push((key, m)) + fs.skip(i) =~= seq![(key, m)]);
    } else if i == 0 {
        if fs[0].0 != key {
            assert(fs.take(0).push((key, m)) + fs.skip(0) =~= seq![(key, m)] + fs);
        }
    } else {
        lemma_put_entry(fs.drop_first(), key, m, i - 1);
        if i < fs.len() && fs[i].0 == key {
            assert(seq![fs[0]] + fs.drop_first().update(i - 1, (key, m)) =~= fs.update(i, (key, m)));
        } else {
            assert(seq![fs[0]] + (fs.drop_first().take(i - 1).push((key, m)) + fs.drop_first().skip(i - 1)) =~= fs.take(i).push((key, m)) + fs.skip(i));
        }
    }
}

proof fn lemma_drop_entry(fs: Seq<(Seq<char>, Seq<char>)>, key: Seq<char>, i: int)
    requires
        0 <= i <= fs.len(),
        forall|k: int| 0 <= k < i ==> (#[trigger] fs[k]).0 != key,
        i < fs.len() ==> fs[i].0 == key,
    ensures
        drop_entry(fs, key) == if i < fs.len() {
            fs.remove(i)
        } else {
            fs
        },
    decreases i,
{
    if fs.len() == 0 {
    } else if i == 0 {
        assert(fs.remove(0) =~= fs.drop_first());
    } else {
        lemma_drop_entry(fs.drop_first(), key, i - 1);
        if i < fs.len() {
            assert(seq![fs[0]] + fs.drop_first().remove(i - 1) =~= fs.remove(i));
        } else {
            assert(seq![fs[0]] + fs.drop_first() =~= fs);
        }
    }
}

/// A map from text to text, sorted by key.
pub struct TextMap {
    entries: Vec<(String, String)>,
}

spec fn entry_models(es: Seq<(String, String)>) -> Seq<(Seq<char>, Seq<char>)> {
    Seq::new(es.len(), |i: int| (es[i].0@, es[i].1@))
}

impl View for TextMap {
    type V = Seq<(Seq<char>, Seq<char>)>;

    closed spec fn view(&self) -> Seq<(Seq<char>, Seq<char>)> {
        entry_models(self.entries@)
    }
}

impl TextMap {
    /// An empty map.
    pub fn new() -> (r: Self)
        ensures
            r@ == Seq::<(Seq<char>, Seq<char>)>::empty(),
    {
        let r = TextMap { entries: Vec::new() };
        assert(r@ =~= Seq::<(Seq<char>, Seq<char>)>::empty());
        r
    }

    /// How many entries there are.
    pub fn len(&self) -> (r: usize)
        ensures
            r == self@.len(),
    {
        self.entries.len()
    }

    /// The value of the entry with the smallest key.
    pub fn first_value(&self) -> (r: Option<&String>)
        ensures
            match r {
                Some(v) => self@.len() > 0 && v@ == self@[0].1,
                None => self@.len() == 0,
            },
    {
        if self.entries.len() == 0 {
            None
        } else {
            Some(&self.entries[0].1)
        }
    }

    pub fn insert(&mut self, key: String, value: String)
        ensures
            final(self)@ == put_entry(old(self)@, key@, value@),
    {
        let ghost before = self@;
        let mut i: usize = 0;
        while i < self.entries.len() && !str_eq(self.entries[i].0.as_str(), key.as_str())
            && !str_lt(key.as_str(), self.entries[i].0.as_str())
            invariant
                i <= self.entries@.len(),
                before == entry_models(self.entries@),
                forall|k: int| 0 <= k < i ==> before[k].0 != key@ && !text_lt(key@, #[trigger] before[k].0),
            decreases self.entries@.len() - i,
        {
            assert(before[i as int].0 == self.entries@[i as int].0@);
            i = i + 1;
        }
        assert(i < self.entries@.len() ==> before[i as int].0 == self.entries@[i as int].0@);
        proof {
            lemma_put_entry(before, key@, value@, i as int);
        }
        let ghost vec_before = self.entries@;
        if i < self.entries.len() && str_eq(self.entries[i].0.as_str(), key.as_str()) {
            self.entries.set(i, (key, value));
            assert(entry_models(self.entries@) =~= before.update(i as int, (key@, value@)));
        } else {
            self.entries.insert(i, (key, value));
            assert forall|j: int| 0 <= j < self.entries@.len() implies #[trigger] entry_models(self.entries@)[j] == (before.take(i as int).push((key@, value@)) + before.skip(i as int))[j] by {
                if j < i {
                    assert(self.entries@[j] == vec_before[j]);
                } else if j > i {
                    assert(self.entries@[j] == vec_before[j - 1]);
                }
            }
            assert(entry_models(self.entries@) =~= before.take(i as int).push((key@, value@)) + before.skip(i as int));
        }
    }

    pub fn remove(&mut self, key: &str)
        ensures
            final(self)@ == drop_entry(old(self)@, key@),
    {
        let ghost before = self@;
        let mut i: usize = 0;
        while i < self.entries.len() && !str_eq(self.entries[i].0.as_str(), key)
            invariant
                i <= self.entries@.len(),
                before == entry_models(self.entries@),
                forall|k: int| 0 <= k < i ==> (#[trigger] before[k]).0 != key@,
            decreases self.entries@.len() - i,
        {
            assert(before[i as int].0 == self.entries@[i as int].0@);
            i = i + 1;
        }
        assert(i < self.entries@.len() ==> before[i as int].0 == self.entries@[i as int].0@);
        proof {
            lemma_drop_entry(before, key@, i as int);
        }
        if i < self.entries.len() {
            let ghost vec_before = self.entries@;
            let _ = self.entries.remove(i);
            assert forall|j: int| 0 <= j < self.entries@.len() implies #[trigger] entry_models(self.entries@)[j] == before.remove(i as int)[j] by {
                if j < i {
                    assert(self.entries@[j] == vec_before[j]);
                } else {
                    assert(self.entries@[j] == vec_before[j + 1]);
                }
            }
            assert(entry_models(self.entries@) =~= before.remove(i as int));
        }
    }

}

/// A set of texts, each held once.
pub struct TextSet {
    items: Vec<String>,
}

spec fn item_models(items: Seq<String>) -> Seq<Seq<char>> {
    Seq::new(items.len(), |i: int| items[i]@)
}

impl TextSet {
    /// Whether no text is held twice.
    pub closed spec fn well_formed(&self) -> bool {
        forall|i: int, j: int| 0 <= i < j < self.items@.len() ==> self.items@[i]@ != self.items@[j]@
    }
}

impl View for TextSet {
    type V = Set<Seq<char>>;

    closed spec fn view(&self) -> Set<Seq<char>> {
        item_models(self.items@).to_set()
    }
}

impl TextSet {
    /// An empty set.
    pub fn new() -> (r: Self)
        ensures
            r@ == Set::<Seq<char>>::empty(),
            r.well_formed(),
    {
        let r = TextSet { items: Vec::new() };
        assert(item_models(r.items@) =~= Seq::<Seq<char>>::empty());
        assert(r@ =~= Set::<Seq<char>>::empty());
        r
    }

    /// Whether the set is empty.
    pub fn is_empty(&self) -> (r: bool)
        requires
            self.well_formed(),
        ensures
            r == (self@.len() == 0),
    {
        proof {
            item_models(self.items@).unique_seq_to_set();
        }
        self.items.len() == 0
    }

    fn position(&self, t: &str) -> (r: Option<usize>)
        ensures
            match r {
                Some(k) => k < self.items@.len() && self.items@[k as int]@ == t@,
                None => !self@.contains(t@),
            },
    {
        let mut i: usize = 0;
        while i < self.items.len()
            invariant
                i <= self.items@.len(),
                forall|k: int| 0 <= k < i ==> self.items@[k]@ != t@,
            decreases self.items@.len() - i,
        {
            if str_eq(self.items[i].as_str(), t) {
                return Some(i);
            }
            i = i + 1;
        }
        proof {
            if self@.contains(t@) {
                let k = item_models(self.items@).index_of(t@);
                assert(item_models(self.items@)[k] == t@);
            }
        }
        None
    }

    /// Whether a text is held.
    pub fn contains(&self, t: &str) -> (r: bool)
        ensures
            r == self@.contains(t@),
    {
        match self.position(t) {
            Some(k) => {
                assert(item_models(self.items@)[k as int] == t@);
                true
            },
            None => false,
        }
    }

    /// Adds a text.
    pub fn insert(&mut self, t: String)
        requires
            old(self).well_formed(),
        ensures
            final(self).well_formed(),
            final(self)@ == old(self)@.insert(t@),
    {
        match self.position(t.as_str()) {
            Some(_) => {
                assert(old(self)@.contains(t@)) by {
                    let k = choose|k: int| 0 <= k < self.items@.len() && self.items@[k]@ == t@;
                    assert(item_models(self.items@)[k] == t@);
                }
                assert(self@ =~= old(self)@.insert(t@));
            },
            None => {
                let ghost before = item_models(self.items@);
                let ghost vb = self.items@;
                assert forall|k: int| 0 <= k < vb.len() implies vb[k]@ != t@ by {
                    assert(before[k] == vb[k]@);
                    if vb[k]@ == t@ {
                        assert(before.contains(t@));
                    }
                }
                self.items.push(t);
                assert(item_models(self.items@) =~= before.push(t@));
                assert forall|x: Seq<char>| #[trigger] self@.contains(x) == old(self)@.insert(t@).contains(x) by {
                    if self@.contains(x) && x != t@ {
                        let j = choose|j: int| 0 <= j < item_models(self.items@).len() && item_models(self.items@)[j] == x;
                        assert(before[j] == x);
                    }
                    if old(self)@.contains(x) {
                        let j = choose|j: int| 0 <= j < before.len() && before[j] == x;
                        assert(item_models(self.items@)[j] == x);
                    }
                    if x == t@ {
                        assert(item_models(self.items@)[vb.len() as int] == x);
                    }
                }
                assert(self@ =~= old(self)@.insert(t@));
            },
        }
    }

    /// Removes a text.
    pub fn remove(&mut self, t: &str)
        requires
            old(self).well_formed(),
        ensures
            final(self).well_formed(),
            final(self)@ == old(self)@.remove(t@),
    {
        match self.position(t) {
            Some(k) => {
                let ghost before = item_models(self.items@);
                let ghost vb = self.items@;
                let _ = self.items.remove(k);
                assert(item_models(self.items@) =~= before.remove(k as int));
                assert forall|x: Seq<char>| #[trigger] self@.contains(x) == old(self)@.remove(t@).contains(x) by {
                    if self@.contains(x) {
                        let j = choose|j: int| 0 <= j < item_models(self.items@).len() && item_models(self.items@)[j] == x;
                        if j < k {
                            assert(before[j] == x);
                        } else {
                            assert(before[j + 1] == x);
                        }
                    }
                    if old(self)@.remove(t@).contains(x) {
                        let j = choose|j: int| 0 <= j < before.len() && before[j] == x;
                        if j < k {
                            assert(item_models(self.items@)[j] == x);
                        } else if j > k {
                            assert(item_models(self.items@)[j - 1] == x);
                        }
                    }
                }
                assert(self@ =~= old(self)@.remove(t@));
            },
            None => {
                assert(self@ =~= old(self)@.remove(t@));
            },
        }
    }
}

} // verus!
