//! Images kept by name: album covers under their album key and artist
//! avatars under the artist's name. Each key occurs once; the map a list
//! stands for is what inserting its entries in order gives.

use vstd::prelude::*;
use crate::text::same_text;

verus! {

broadcast use vstd::string::group_string_axioms;

/// The map that inserting `entries` in order gives.
pub open spec fn entries_map<I>(entries: Seq<(String, I)>) -> Map<Seq<char>, I>
    decreases entries.len(),
{
    if entries.len() == 0 {
        Map::empty()
    } else {
        entries_map(entries.drop_last()).insert(entries.last().0@, entries.last().1)
    }
}

/// No key occurs twice.
pub open spec fn keys_unique<I>(entries: Seq<(String, I)>) -> bool {
    forall|a: int, b: int| 0 <= a < b < entries.len() ==> (#[trigger] entries[a]).0@ != (#[trigger] entries[b]).0@
}

/// `m` with the `batch` entries inserted in order: a later entry replaces
/// what an earlier one, or `m`, held under the same key.
pub open spec fn extended<I>(m: Map<Seq<char>, I>, batch: Seq<(String, I)>) -> Map<Seq<char>, I>
    decreases batch.len(),
{
    if batch.len() == 0 {
        m
    } else {
        extended(m, batch.drop_last()).insert(batch.last().0@, batch.last().1)
    }
}

/// `m` with the `batch` entries added only under keys that hold nothing
/// yet (a key already there keeps its image).
pub open spec fn with_missing<I>(m: Map<Seq<char>, I>, batch: Seq<(String, I)>) -> Map<Seq<char>, I>
    decreases batch.len(),
{
    if batch.len() == 0 {
        m
    } else {
        let before = with_missing(m, batch.drop_last());
        if before.dom().contains(batch.last().0@) { before } else { before.insert(batch.last().0@, batch.last().1) }
    }
}

/// The names among `names` that `keys` lacks, in order.
pub open spec fn names_missing(names: Seq<Seq<char>>, keys: Set<Seq<char>>) -> Seq<Seq<char>>
    decreases names.len(),
{
    if names.len() == 0 {
        Seq::empty()
    } else {
        let before = names_missing(names.drop_last(), keys);
        if keys.contains(names.last()) { before } else { before.push(names.last()) }
    }
}

/// Images by name.
pub struct ImageMap<I> {
    pub entries: Vec<(String, I)>,
}

impl<I> View for ImageMap<I> {
    type V = Map<Seq<char>, I>;

    open spec fn view(&self) -> Map<Seq<char>, I> {
        entries_map(self.entries@)
    }
}

proof fn lemma_entries_map_dom<I>(entries: Seq<(String, I)>, k: Seq<char>)
    ensures
        entries_map(entries).dom().contains(k) <==> exists|i: int| 0 <= i < entries.len() && (#[trigger] entries[i]).0@ == k,
    decreases entries.len(),
{
    if entries.len() > 0 {
        let rest = entries.drop_last();
        lemma_entries_map_dom(rest, k);
        if entries_map(rest).dom().contains(k) {
            let i = choose|i: int| 0 <= i < rest.len() && (#[trigger] rest[i]).0@ == k;
            assert(entries[i] == rest[i]);
        }
        if exists|i: int| 0 <= i < entries.len() && (#[trigger] entries[i]).0@ == k {
            let i = choose|i: int| 0 <= i < entries.len() && (#[trigger] entries[i]).0@ == k;
            if i < entries.len() - 1 {
                assert(rest[i] == entries[i]);
            }
        }
    }
}

proof fn lemma_entries_map_value<I>(entries: Seq<(String, I)>, i: int)
    requires
        keys_unique(entries),
        0 <= i < entries.len(),
    ensures
        entries_map(entries).dom().contains(entries[i].0@),
        entries_map(entries)[entries[i].0@] == entries[i].1,
    decreases entries.len(),
{
    let rest = entries.drop_last();
    if i < entries.len() - 1 {
        assert(rest[i] == entries[i]);
        assert forall|a: int, b: int| 0 <= a < b < rest.len() implies (#[trigger] rest[a]).0@ != (#[trigger] rest[b]).0@ by {
            assert(rest[a] == entries[a] && rest[b] == entries[b]);
        }
        lemma_entries_map_value(rest, i);
        assert(entries[i].0@ != entries[entries.len() - 1].0@);
    }
}

proof fn lemma_entries_map_update<I>(entries: Seq<(String, I)>, i: int, e: (String, I))
    requires
        keys_unique(entries),
        0 <= i < entries.len(),
        e.0@ == entries[i].0@,
    ensures
        keys_unique(entries.update(i, e)),
        entries_map(entries.update(i, e)) == entries_map(entries).insert(e.0@, e.1),
{
    let u = entries.update(i, e);
    assert forall|a: int, b: int| 0 <= a < b < u.len() implies (#[trigger] u[a]).0@ != (#[trigger] u[b]).0@ by {
        assert(entries[a].0@ != entries[b].0@);
    }
    let lhs = entries_map(u);
    let rhs = entries_map(entries).insert(e.0@, e.1);
    assert forall|k: Seq<char>| lhs.dom().contains(k) <==> rhs.dom().contains(k) by {
        lemma_entries_map_dom(u, k);
        lemma_entries_map_dom(entries, k);
        if exists|j: int| 0 <= j < u.len() && (#[trigger] u[j]).0@ == k {
            let j = choose|j: int| 0 <= j < u.len() && (#[trigger] u[j]).0@ == k;
            if j != i {
                assert(entries[j] == u[j]);
            }
        }
        if exists|j: int| 0 <= j < entries.len() && (#[trigger] entries[j]).0@ == k {
            let j = choose|j: int| 0 <= j < entries.len() && (#[trigger] entries[j]).0@ == k;
            if j != i {
                assert(entries[j] == u[j]);
            } else {
                assert(u[i] == e);
            }
        }
    }
    assert forall|k: Seq<char>| #[trigger] lhs.dom().contains(k) implies lhs[k] == rhs[k] by {
        lemma_entries_map_dom(u, k);
        let j = choose|j: int| 0 <= j < u.len() && (#[trigger] u[j]).0@ == k;
        lemma_entries_map_value(u, j);
        if j != i {
            assert(u[j] == entries[j]);
            lemma_entries_map_value(entries, j);
        }
    }
    assert(lhs =~= rhs);
}

impl<I> ImageMap<I> {
    /// Each key occurs once.
    pub open spec fn wf(&self) -> bool {
        keys_unique(self.entries@)
    }

    /// No images.
    pub fn new() -> (r: ImageMap<I>)
        ensures
            r.wf(),
            r@ == Map::<Seq<char>, I>::empty(),
    {
        ImageMap { entries: Vec::new() }
    }

    /// Drops every image.
    pub fn clear(&mut self)
        ensures
            final(self).wf(),
            final(self)@ == Map::<Seq<char>, I>::empty(),
    {
        self.entries = Vec::new();
    }

    /// The position of the entry under `key`.
    fn position(&self, key: &str) -> (r: Option<usize>)
        ensures
            r matches Some(i) ==> i < self.entries@.len() && self.entries@[i as int].0@ == key@,
            r is None ==> forall|j: int| 0 <= j < self.entries@.len() ==> (#[trigger] self.entries@[j]).0@ != key@,
    {
        let mut i: usize = 0;
        while i < self.entries.len()
            invariant
                i <= self.entries@.len(),
                forall|j: int| 0 <= j < i ==> (#[trigger] self.entries@[j]).0@ != key@,
            decreases self.entries@.len() - i,
        {
            if same_text(self.entries[i].0.as_str(), key) {
                return Some(i);
            }
            i += 1;
        }
        None
    }

    /// Whether an image is kept under `key`.
    pub fn contains_key(&self, key: &str) -> (r: bool)
        ensures
            r == self@.dom().contains(key@),
    {
        proof {
            lemma_entries_map_dom(self.entries@, key@);
        }
        self.position(key).is_some()
    }

    /// Keeps `image` under `key`, replacing what was there.
    pub fn insert(&mut self, key: String, image: I)
        requires
            old(self).wf(),
        ensures
            final(self).wf(),
            final(self)@ == old(self)@.insert(key@, image),
    {
        match self.position(key.as_str()) {
            Some(i) => {
                proof {
                    lemma_entries_map_update(self.entries@, i as int, (key, image));
                }
                self.entries.set(i, (key, image));
            },
            None => {
                let ghost before = self.entries@;
                self.entries.push((key, image));
                proof {
                    assert(self.entries@.drop_last() =~= before);
                    assert forall|a: int, b: int| 0 <= a < b < self.entries@.len() implies
                        (#[trigger] self.entries@[a]).0@ != (#[trigger] self.entries@[b]).0@ by {
                        if b < before.len() {
                            assert(before[a].0@ != before[b].0@);
                        } else {
                            assert(before[a].0@ != key@);
                        }
                    }
                }
            },
        }
    }

    /// Merges a batch in: each of its images is kept under its key, a
    /// later one replacing an earlier one or one already kept.
    pub fn extend(&mut self, batch: Vec<(String, I)>)
        requires
            old(self).wf(),
        ensures
            final(self).wf(),
            final(self)@ == extended(old(self)@, batch@),
    {
        let ghost start = self@;
        let ghost items = batch@;
        let n = batch.len();
        let mut rest = batch;
        proof {
            assert(rest@ =~= items.skip(0));
        }
        let mut i: usize = 0;
        while rest.len() > 0
            invariant
                self.wf(),
                i <= items.len(),
                items.len() == n,
                rest@ == items.skip(i as int),
                self@ == extended(start, items.take(i as int)),
            decreases rest@.len(),
        {
            let (key, image) = rest.remove(0);
            proof {
                assert(items[i as int] == (key, image));
                assert(items.take(i as int + 1).drop_last() =~= items.take(i as int));
                assert(rest@ =~= items.skip(i as int + 1));
            }
            self.insert(key, image);
            i += 1;
        }
        proof {
            assert(items.take(items.len() as int) =~= items);
        }
    }

    /// Adds the images of `batch` under the keys that hold none yet; an
    /// image already kept stays.
    pub fn insert_missing(&mut self, batch: Vec<(String, I)>)
        requires
            old(self).wf(),
        ensures
            final(self).wf(),
            final(self)@ == with_missing(old(self)@, batch@),
    {
        let ghost start = self@;
        let ghost items = batch@;
        let n = batch.len();
        let mut rest = batch;
        proof {
            assert(rest@ =~= items.skip(0));
        }
        let mut i: usize = 0;
        while rest.len() > 0
            invariant
                self.wf(),
                i <= items.len(),
                items.len() == n,
                rest@ == items.skip(i as int),
                self@ == with_missing(start, items.take(i as int)),
            decreases rest@.len(),
        {
            let (key, image) = rest.remove(0);
            proof {
                assert(items[i as int] == (key, image));
                assert(items.take(i as int + 1).drop_last() =~= items.take(i as int));
                assert(rest@ =~= items.skip(i as int + 1));
            }
            if !self.contains_key(key.as_str()) {
                self.insert(key, image);
            }
            i += 1;
        }
        proof {
            assert(items.take(items.len() as int) =~= items);
        }
    }

    /// The names among `names` that have no image yet, in order.
    pub fn missing(&self, names: &Vec<String>) -> (r: Vec<String>)
        ensures
            r@.map_values(|s: String| s@) == names_missing(names@.map_values(|s: String| s@), self@.dom()),
    {
        let ghost ns = names@.map_values(|s: String| s@);
        let mut r: Vec<String> = Vec::new();
        let mut i: usize = 0;
        while i < names.len()
            invariant
                i <= names@.len(),
                ns == names@.map_values(|s: String| s@),
                r@.map_values(|s: String| s@) == names_missing(ns.take(i as int), self@.dom()),
            decreases names@.len() - i,
        {
            proof {
                assert(ns.take(i as int + 1).drop_last() =~= ns.take(i as int));
            }
            if !self.contains_key(names[i].as_str()) {
                let ghost before = r@;
                r.push(names[i].clone());
                proof {
                    assert(r@.map_values(|s: String| s@) =~= before.map_values(|s: String| s@).push(names@[i as int]@));
                }
            }
            i += 1;
        }
        proof {
            assert(ns.take(names@.len() as int) =~= ns);
        }
        r
    }
}

/// Adding images only where none is kept leaves every kept image as it
/// was, and afterwards every name of the batch has an image; no other
/// name gains one.
pub proof fn lemma_missing_only_adds<I>(m: Map<Seq<char>, I>, batch: Seq<(String, I)>)
    ensures
        forall|k: Seq<char>| #[trigger] m.dom().contains(k) ==> with_missing(m, batch).dom().contains(k) && with_missing(m, batch)[k] == m[k],
        forall|j: int| 0 <= j < batch.len() ==> with_missing(m, batch).dom().contains((#[trigger] batch[j]).0@),
        forall|k: Seq<char>| #[trigger] with_missing(m, batch).dom().contains(k)
            ==> m.dom().contains(k) || exists|j: int| 0 <= j < batch.len() && (#[trigger] batch[j]).0@ == k,
    decreases batch.len(),
{
    if batch.len() > 0 {
        let rest = batch.drop_last();
        lemma_missing_only_adds(m, rest);
        assert forall|j: int| 0 <= j < batch.len() implies with_missing(m, batch).dom().contains((#[trigger] batch[j]).0@) by {
            if j < batch.len() - 1 {
                assert(rest[j] == batch[j]);
            }
        }
        assert forall|k: Seq<char>| #[trigger] with_missing(m, batch).dom().contains(k) implies
            m.dom().contains(k) || exists|j: int| 0 <= j < batch.len() && (#[trigger] batch[j]).0@ == k by {
            if with_missing(m, rest).dom().contains(k) {
                if !m.dom().contains(k) {
                    let j = choose|j: int| 0 <= j < rest.len() && (#[trigger] rest[j]).0@ == k;
                    assert(batch[j] == rest[j]);
                }
            } else {
                assert(batch[batch.len() - 1].0@ == k);
            }
        }
    }
}

} // verus!
