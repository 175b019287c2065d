//! A small keyed table: the map that the agent's components file their
//! entries in. Keys are compared by their identity, a plain value, and no
//! identity occurs twice.

use vstd::prelude::*;
use vstd::string::*;

verus! {

/// A value that can serve as a key: it has an identity, and two keys can be
/// compared and copied by it.
pub trait Key: Sized {
    /// The plain value that identifies the key.
    type Id;

    /// The key's identity.
    spec fn id(&self) -> Self::Id;

    /// Whether two keys have the same identity.
    fn same(&self, other: &Self) -> (r: bool)
        ensures
            r == (self.id() == other.id()),
    ;

    /// A second key with the same identity.
    fn duplicate(&self) -> (r: Self)
        ensures
            r.id() == self.id(),
    ;
}

impl Key for String {
    type Id = Seq<char>;

    open spec fn id(&self) -> Seq<char> {
        self@
    }

    fn same(&self, other: &Self) -> (r: bool) {
        *self == *other
    }

    fn duplicate(&self) -> (r: Self) {
        self.clone()
    }
}

/// A table from keys to values, in the order in which the keys were first
/// filed.
pub struct Table<K: Key, V> {
    entries: Vec<(K, V)>,
}

/// No identity occurs twice among the entries.
pub open spec fn distinct_ids<K: Key, V>(entries: Seq<(K, V)>) -> bool {
    forall|i: int, j: int|
        0 <= i < entries.len() && 0 <= j < entries.len() && i != j ==> (#[trigger] entries[i]).0.id()
            != (#[trigger] entries[j]).0.id()
}

/// Whether an entry of `entries` has the identity `id`.
pub open spec fn has_id<K: Key, V>(entries: Seq<(K, V)>, id: K::Id) -> bool {
    exists|i: int| 0 <= i < entries.len() && (#[trigger] entries[i]).0.id() == id
}

/// The place of an entry with the identity `id`.
pub open spec fn place_of<K: Key, V>(entries: Seq<(K, V)>, id: K::Id) -> int {
    choose|i: int| 0 <= i < entries.len() && (#[trigger] entries[i]).0.id() == id
}

/// The identities of `ids` but `id`, in their order.
pub open spec fn without<I>(ids: Seq<I>, id: I) -> Seq<I> {
    ids.filter(|x: I| x != id)
}

/// The map that a list of entries stands for.
pub open spec fn entries_map<K: Key, V>(entries: Seq<(K, V)>) -> Map<K::Id, V> {
    Map::new(|id: K::Id| has_id(entries, id), |id: K::Id| entries[place_of(entries, id)].1)
}

impl<K: Key, V> Table<K, V> {
    #[verifier::type_invariant]
    spec fn inv(self) -> bool {
        distinct_ids(self.entries@)
    }

    /// The entries in the order in which their keys were first filed.
    pub closed spec fn entries(&self) -> Seq<(K, V)> {
        self.entries@
    }

    /// The table as a map from identities to values.
    pub open spec fn view(&self) -> Map<K::Id, V> {
        entries_map(self.entries())
    }

    /// The identities in the order in which they were first filed.
    pub open spec fn ids(&self) -> Seq<K::Id> {
        self.entries().map_values(|e: (K, V)| e.0.id())
    }

    /// An empty table.
    pub fn new() -> (t: Self)
        ensures
            t.entries() == Seq::<(K, V)>::empty(),
            t@ == Map::<K::Id, V>::empty(),
    {
        let t = Table { entries: Vec::new() };
        assert(t@ =~= Map::<K::Id, V>::empty());
        t
    }

    /// The entries as a list, in their order.
    pub fn into_entries(self) -> (entries: Vec<(K, V)>)
        ensures
            entries@ == self.entries(),
            distinct_ids(entries@),
    {
        proof {
            use_type_invariant(&self);
        }
        self.entries
    }

    /// The table of a list of entries in which no identity occurs twice.
    pub fn from_entries(entries: Vec<(K, V)>) -> (t: Self)
        requires
            distinct_ids(entries@),
        ensures
            t.entries() == entries@,
    {
        Table { entries }
    }

    /// The number of entries.
    pub fn len(&self) -> (n: usize)
        ensures
            n == self.entries().len(),
            n == self.ids().len(),
            distinct_ids(self.entries()),
            self.ids().no_duplicates(),
    {
        proof {
            use_type_invariant(self);
            let ids = self.ids();
            assert forall|i: int, j: int| 0 <= i < ids.len() && 0 <= j < ids.len() && i != j implies ids[i]
                != ids[j] by {
                assert(ids[i] == self.entries@[i].0.id());
                assert(ids[j] == self.entries@[j].0.id());
            }
        }
        self.entries.len()
    }

    /// The place of the entry filed under `key`, if there is one.
    pub fn find(&self, key: &K) -> (found: Option<usize>)
        ensures
            match found {
                Some(i) => i < self.entries().len() && self.entries()[i as int].0.id() == key.id(),
                None => !has_id(self.entries(), key.id()),
            },
            found is Some == self@.contains_key(key.id()),
    {
        let mut i: usize = 0;
        while i < self.entries.len()
            invariant
                i <= self.entries@.len(),
                forall|j: int| 0 <= j < i ==> (#[trigger] self.entries@[j]).0.id() != key.id(),
            decreases self.entries@.len() - i,
        {
            if self.entries[i].0.same(key) {
                return Some(i);
            }
            i = i + 1;
        }
        None
    }

    /// Whether an entry is filed under `key`.
    pub fn contains_key(&self, key: &K) -> (r: bool)
        ensures
            r == self@.contains_key(key.id()),
    {
        self.find(key).is_some()
    }

    /// The value filed under `key`, if there is one.
    pub fn get(&self, key: &K) -> (r: Option<&V>)
        ensures
            match r {
                Some(v) => self@.contains_key(key.id()) && *v == self@[key.id()],
                None => !self@.contains_key(key.id()),
            },
    {
        match self.find(key) {
            Some(i) => {
                proof {
                    use_type_invariant(self);
                    lemma_place(self.entries@, i as int);
                }
                Some(&self.entries[i].1)
            },
            None => None,
        }
    }

    /// Files `value` under `key`. A value filed there before is replaced and
    /// handed back; the key keeps its place.
    pub fn insert(&mut self, key: K, value: V) -> (previous: Option<V>)
        ensures
            final(self)@ == old(self)@.insert(key.id(), value),
            match previous {
                Some(v) => old(self)@.contains_key(key.id()) && v == old(self)@[key.id()],
                None => !old(self)@.contains_key(key.id()),
            },
            final(self).ids() == if old(self)@.contains_key(key.id()) {
                old(self).ids()
            } else {
                old(self).ids().push(key.id())
            },
    {
        proof {
            use_type_invariant(&*self);
        }
        let ghost before = self.entries@;
        let found = self.find(&key);
        let mut entries: Vec<(K, V)> = Vec::new();
        core::mem::swap(&mut self.entries, &mut entries);
        match found {
            Some(i) => {
                proof {
                    lemma_place(before, i as int);
                }
                let (_k, v) = entries.remove(i);
                entries.insert(i, (key, value));
                proof {
                    assert(entries@ =~= before.update(i as int, (key, value)));
                    lemma_update_map(before, i as int, key, value);
                }
                core::mem::swap(&mut self.entries, &mut entries);
                assert(self.ids() =~= old(self).ids());
                Some(v)
            },
            None => {
                entries.push((key, value));
                proof {
                    lemma_push_map(before, key, value);
                }
                core::mem::swap(&mut self.entries, &mut entries);
                assert(self.ids() =~= old(self).ids().push(key.id()));
                None
            },
        }
    }

    /// Takes out the entry filed under `key`, if there is one, and hands its
    /// value back. The other entries keep their order.
    pub fn remove(&mut self, key: &K) -> (removed: Option<V>)
        ensures
            final(self)@ == old(self)@.remove(key.id()),
            match removed {
                Some(v) => old(self)@.contains_key(key.id()) && v == old(self)@[key.id()],
                None => !old(self)@.contains_key(key.id()),
            },
            final(self).ids() == without(old(self).ids(), key.id()),
    {
        proof {
            use_type_invariant(&*self);
        }
        let ghost before = self.entries@;
        match self.find(key) {
            Some(i) => {
                proof {
                    lemma_place(before, i as int);
                    lemma_remove_map(before, i as int);
                    lemma_remove_ids(before, i as int);
                }
                let mut entries: Vec<(K, V)> = Vec::new();
                core::mem::swap(&mut self.entries, &mut entries);
                let (_k, v) = entries.remove(i);
                core::mem::swap(&mut self.entries, &mut entries);
                Some(v)
            },
            None => {
                proof {
                    assert(self@ =~= old(self)@.remove(key.id()));
                    lemma_absent_ids(before, key.id());
                }
                None
            },
        }
    }

    /// The keys in the order in which they were first filed.
    pub fn keys(&self) -> (ks: Vec<K>)
        ensures
            ks@.map_values(|k: K| k.id()) == self.ids(),
    {
        let mut ks: Vec<K> = Vec::new();
        let mut i: usize = 0;
        while i < self.entries.len()
            invariant
                i <= self.entries@.len(),
                ks@.len() == i,
                forall|j: int| 0 <= j < i ==> (#[trigger] ks@[j]).id() == self.entries@[j].0.id(),
            decreases self.entries@.len() - i,
        {
            ks.push(self.entries[i].0.duplicate());
            i = i + 1;
        }
        assert(ks@.map_values(|k: K| k.id()) =~= self.ids());
        ks
    }
}

/// In a list without a repeated identity, the entry at place `i` is the one
/// that the map holds for its identity.
pub proof fn lemma_place<K: Key, V>(entries: Seq<(K, V)>, i: int)
    requires
        distinct_ids(entries),
        0 <= i < entries.len(),
    ensures
        has_id(entries, entries[i].0.id()),
        place_of(entries, entries[i].0.id()) == i,
        entries_map(entries).contains_key(entries[i].0.id()),
        entries_map(entries)[entries[i].0.id()] == entries[i].1,
{
    let id = entries[i].0.id();
    assert(has_id(entries, id));
    let p = place_of(entries, id);
    assert(0 <= p < entries.len() && entries[p].0.id() == id);
    if p != i {
        assert(entries[p].0.id() != entries[i].0.id());
    }
}

/// Replacing the entry at place `i` by one of the same identity keeps the
/// list free of repeats and changes the map at that identity alone.
pub proof fn lemma_update_map<K: Key, V>(entries: Seq<(K, V)>, i: int, key: K, value: V)
    requires
        distinct_ids(entries),
        0 <= i < entries.len(),
        entries[i].0.id() == key.id(),
    ensures
        distinct_ids(entries.update(i, (key, value))),
        entries_map(entries.update(i, (key, value))) == entries_map(entries).insert(
            key.id(),
            value,
        ),
{
    let after = entries.update(i, (key, value));
    assert(distinct_ids(after)) by {
        assert forall|a: int, b: int|
            0 <= a < after.len() && 0 <= b < after.len() && a != b implies (#[trigger] after[a]).0.id()
            != (#[trigger] after[b]).0.id() by {
            assert(after[a].0.id() == entries[a].0.id());
            assert(after[b].0.id() == entries[b].0.id());
        }
    }
    let m1 = entries_map(after);
    let m2 = entries_map(entries).insert(key.id(), value);
    assert forall|id: K::Id| m1.contains_key(id) == m2.contains_key(id) by {
        if has_id(after, id) {
            let p = place_of(after, id);
            assert(entries[p].0.id() == id);
        }
        if has_id(entries, id) {
            let p = place_of(entries, id);
            assert(after[p].0.id() == id);
        }
        if id == key.id() {
            assert(after[i].0.id() == id);
        }
    }
    assert forall|id: K::Id| m1.contains_key(id) implies m1[id] == m2[id] by {
        let p = place_of(after, id);
        lemma_place(after, p);
        if p == i {
        } else {
            assert(entries[p].0.id() == id);
            lemma_place(entries, p);
        }
    }
    assert(m1 =~= m2);
}

/// Adding an entry with a new identity at the end keeps the list free of
/// repeats and adds that identity to the map.
pub proof fn lemma_push_map<K: Key, V>(entries: Seq<(K, V)>, key: K, value: V)
    requires
        distinct_ids(entries),
        !has_id(entries, key.id()),
    ensures
        distinct_ids(entries.push((key, value))),
        entries_map(entries.push((key, value))) == entries_map(entries).insert(key.id(), value),
{
    let after = entries.push((key, value));
    let n = entries.len() as int;
    assert(distinct_ids(after)) by {
        assert forall|a: int, b: int|
            0 <= a < after.len() && 0 <= b < after.len() && a != b implies (#[trigger] after[a]).0.id()
            != (#[trigger] after[b]).0.id() by {
            if a < n && b < n {
                assert(after[a] == entries[a]);
                assert(after[b] == entries[b]);
            } else if a < n {
                assert(after[a] == entries[a]);
            } else {
                assert(after[b] == entries[b]);
            }
        }
    }
    let m1 = entries_map(after);
    let m2 = entries_map(entries).insert(key.id(), value);
    assert forall|id: K::Id| m1.contains_key(id) == m2.contains_key(id) by {
        if has_id(after, id) {
            let p = place_of(after, id);
            if p < n {
                assert(entries[p].0.id() == id);
            }
        }
        if has_id(entries, id) {
            let p = place_of(entries, id);
            assert(after[p].0.id() == id);
        }
        if id == key.id() {
            assert(after[n].0.id() == id);
        }
    }
    assert forall|id: K::Id| m1.contains_key(id) implies m1[id] == m2[id] by {
        let p = place_of(after, id);
        lemma_place(after, p);
        if p < n {
            assert(entries[p].0.id() == id);
            lemma_place(entries, p);
        }
    }
    assert(m1 =~= m2);
}

/// Taking out the entry at place `i` keeps the list free of repeats and
/// removes its identity from the map.
pub proof fn lemma_remove_map<K: Key, V>(entries: Seq<(K, V)>, i: int)
    requires
        distinct_ids(entries),
        0 <= i < entries.len(),
    ensures
        distinct_ids(entries.remove(i)),
        entries_map(entries.remove(i)) == entries_map(entries).remove(entries[i].0.id()),
{
    let after = entries.remove(i);
    let gone = entries[i].0.id();
    assert forall|a: int| 0 <= a < after.len() implies #[trigger] after[a] == entries[if a < i {
        a
    } else {
        a + 1
    }] by {}
    assert(distinct_ids(after)) by {
        assert forall|a: int, b: int|
            0 <= a < after.len() && 0 <= b < after.len() && a != b implies (#[trigger] after[a]).0.id()
            != (#[trigger] after[b]).0.id() by {
            let a2 = if a < i { a } else { a + 1 };
            let b2 = if b < i { b } else { b + 1 };
            assert(after[a] == entries[a2]);
            assert(after[b] == entries[b2]);
        }
    }
    let m1 = entries_map(after);
    let m2 = entries_map(entries).remove(gone);
    assert forall|id: K::Id| m1.contains_key(id) == m2.contains_key(id) by {
        if has_id(after, id) {
            let p = place_of(after, id);
            let shifted = if p < i { p } else { p + 1 };
            assert(after[p] == entries[shifted]);
            assert(entries[shifted].0.id() == id);
            if id == gone {
                assert(entries[shifted].0.id() != entries[i].0.id());
            }
        }
        if has_id(entries, id) && id != gone {
            let p = place_of(entries, id);
            let back = if p < i { p } else { p - 1 };
            assert(after[back] == entries[p]);
            assert(after[back].0.id() == id);
        }
    }
    assert forall|id: K::Id| m1.contains_key(id) implies m1[id] == m2[id] by {
        let p = place_of(after, id);
        lemma_place(after, p);
        let shifted = if p < i { p } else { p + 1 };
        assert(after[p] == entries[shifted]);
        lemma_place(entries, shifted);
    }
    assert(m1 =~= m2);
}

/// Taking out the entry at place `i` takes its identity, and no other, out of
/// the list of identities.
pub proof fn lemma_remove_ids<K: Key, V>(entries: Seq<(K, V)>, i: int)
    requires
        distinct_ids(entries),
        0 <= i < entries.len(),
    ensures
        entries.remove(i).map_values(|e: (K, V)| e.0.id()) == without(
            entries.map_values(|e: (K, V)| e.0.id()),
            entries[i].0.id(),
        ),
    decreases entries.len(),
{
    let gone = entries[i].0.id();
    let ids = entries.map_values(|e: (K, V)| e.0.id());
    let keep = |x: K::Id| x != gone;
    let n = entries.len() as int;
    let front = entries.drop_last();
    let front_ids = front.map_values(|e: (K, V)| e.0.id());
    assert(front_ids =~= ids.drop_last());
    reveal(Seq::filter);
    if i == n - 1 {
        assert(entries.remove(i) =~= front);
        assert forall|j: int| 0 <= j < front.len() implies (#[trigger] front[j]).0.id() != gone by {
            assert(front[j] == entries[j]);
            assert(entries[j].0.id() != entries[i].0.id());
        }
        lemma_absent_ids(front, gone);
        assert(ids.filter(keep) == ids.drop_last().filter(keep));
    } else {
        assert(distinct_ids(front)) by {
            assert forall|a: int, b: int|
                0 <= a < front.len() && 0 <= b < front.len() && a != b implies (
                #[trigger] front[a]).0.id() != (#[trigger] front[b]).0.id() by {
                assert(front[a] == entries[a]);
                assert(front[b] == entries[b]);
            }
        }
        lemma_remove_ids(front, i);
        assert(front[i] == entries[i]);
        assert(entries.remove(i) =~= front.remove(i).push(entries[n - 1]));
        assert(entries[n - 1].0.id() != entries[i].0.id());
        assert(entries.remove(i).map_values(|e: (K, V)| e.0.id()) =~= front.remove(i).map_values(
            |e: (K, V)| e.0.id(),
        ).push(ids[n - 1]));
        assert(ids.filter(keep) == ids.drop_last().filter(keep).push(ids[n - 1]));
    }
}

/// Where no entry has the identity `id`, filtering it out of the list of
/// identities changes nothing.
pub proof fn lemma_absent_ids<K: Key, V>(entries: Seq<(K, V)>, id: K::Id)
    requires
        forall|j: int| 0 <= j < entries.len() ==> (#[trigger] entries[j]).0.id() != id,
    ensures
        without(entries.map_values(|e: (K, V)| e.0.id()), id) == entries.map_values(
            |e: (K, V)| e.0.id(),
        ),
    decreases entries.len(),
{
    let ids = entries.map_values(|e: (K, V)| e.0.id());
    let keep = |x: K::Id| x != id;
    reveal(Seq::filter);
    if entries.len() > 0 {
        let front = entries.drop_last();
        assert forall|j: int| 0 <= j < front.len() implies (#[trigger] front[j]).0.id() != id by {
            assert(front[j] == entries[j]);
        }
        lemma_absent_ids(front, id);
        assert(front.map_values(|e: (K, V)| e.0.id()) =~= ids.drop_last());
        assert(entries[entries.len() - 1].0.id() != id);
        assert(ids.filter(keep) =~= ids);
    }
}

/// What stays after an identity is taken out: every other identity of the
/// list, and nothing twice that was not there twice.
pub proof fn lemma_without<I>(ids: Seq<I>, id: I)
    ensures
        forall|x: I| #[trigger] without(ids, id).contains(x) <==> (ids.contains(x) && x != id),
        ids.no_duplicates() ==> without(ids, id).no_duplicates(),
        !ids.contains(id) ==> without(ids, id) == ids,
        without(ids, id).len() <= ids.len(),
    decreases ids.len(),
{
    reveal(Seq::filter);
    if ids.len() > 0 {
        let front = ids.drop_last();
        let last = ids.last();
        lemma_without(front, id);
        let kept = without(front, id);
        assert(without(ids, id) == if last != id {
            kept.push(last)
        } else {
            kept
        });
        assert forall|x: I| without(ids, id).contains(x) <==> (ids.contains(x) && x != id) by {
            assert(without(front, id).contains(x) <==> (front.contains(x) && x != id));
            if without(ids, id).contains(x) {
                let j = choose|j: int| 0 <= j < without(ids, id).len() && without(ids, id)[j] == x;
                if j < kept.len() {
                    assert(kept[j] == x);
                    assert(kept.contains(x));
                    let m = choose|m: int| 0 <= m < front.len() && front[m] == x;
                    assert(ids[m] == x);
                } else {
                    assert(x == last);
                    assert(ids[ids.len() - 1] == x);
                }
            }
            if ids.contains(x) && x != id {
                let m = choose|m: int| 0 <= m < ids.len() && ids[m] == x;
                if m < front.len() {
                    assert(front[m] == x);
                    assert(kept.contains(x));
                    let j = choose|j: int| 0 <= j < kept.len() && kept[j] == x;
                    assert(without(ids, id)[j] == x);
                } else {
                    assert(without(ids, id)[kept.len() as int] == x);
                }
            }
        }
        if ids.no_duplicates() {
            assert(front.no_duplicates());
            if last != id {
                assert(!kept.contains(last)) by {
                    if kept.contains(last) {
                        let m = choose|m: int| 0 <= m < front.len() && front[m] == last;
                        assert(ids[m] == ids[ids.len() - 1]);
                    }
                }
                let out = kept.push(last);
                assert forall|a: int, b: int| 0 <= a < out.len() && 0 <= b < out.len() && a != b implies out[a]
                    != out[b] by {
                    if a < kept.len() && b < kept.len() {
                    } else if a < kept.len() {
                        assert(kept.contains(out[a]));
                    } else {
                        assert(kept.contains(out[b]));
                    }
                }
            }
        }
        if !ids.contains(id) {
            assert(!front.contains(id)) by {
                if front.contains(id) {
                    let m = choose|m: int| 0 <= m < front.len() && front[m] == id;
                    assert(ids[m] == id);
                }
            }
            assert(last != id) by {
                assert(ids[ids.len() - 1] == last);
            }
            assert(kept.push(last) =~= ids);
        }
    }
}

} // verus!
