//! The object store: a cache of cluster objects, filed by the type they are
//! asked for as and by their key. An object carries the schema it was made
//! as; asking for it as another type is an error, not a crash.

use vstd::prelude::*;
use vstd::string::*;

use crate::object::{option_text, ObjectKey, ObjectKeyView, TypeKey, TypeKeyView};
use crate::table::{Key, Table};

verus! {

/// An object whose type has been erased: the schema it was made as, and the
/// object.
pub struct Stored<V> {
    schema: TypeKey,
    value: V,
}

/// A stored object as a plain value.
pub struct StoredView<V> {
    pub schema: TypeKeyView,
    pub value: V,
}

impl<V> Stored<V> {
    /// The object as a plain value.
    pub closed spec fn view(&self) -> StoredView<V> {
        StoredView { schema: self.schema@, value: self.value }
    }

    /// Erases the type of an object that was made as `schema`.
    pub fn new(schema: TypeKey, value: V) -> (stored: Self)
        ensures
            stored@ == (StoredView { schema: schema@, value }),
    {
        Stored { schema, value }
    }

    /// The schema that the object was made as.
    pub fn schema(&self) -> (schema: &TypeKey)
        ensures
            schema@ == self@.schema,
    {
        &self.schema
    }

    /// The object, if it was made as `wanted`.
    pub fn downcast(&self, wanted: &TypeKey) -> (value: Option<&V>)
        ensures
            value == if self@.schema == wanted@ {
                Some(&self@.value)
            } else {
                None
            },
    {
        if self.schema.same(wanted) {
            Some(&self.value)
        } else {
            None
        }
    }
}

/// Why an object could not be handed out.
#[derive(Debug)]
pub enum StoreError {
    /// The object filed under the key was not made as the type it was asked
    /// for as; holds that type.
    TypeMismatch(TypeKey),
}

/// The text of the error.
pub open spec fn mismatch_text(wanted: TypeKeyView) -> Seq<char> {
    "Could not interpret interred object as type "@ + wanted.group + "/"@ + wanted.version + " "@
        + wanted.kind
}

impl StoreError {
    /// The error as a line for the log.
    pub fn message(&self) -> (text: String)
        ensures
            text@ == match self {
                StoreError::TypeMismatch(wanted) => mismatch_text(wanted@),
            },
    {
        match self {
            StoreError::TypeMismatch(wanted) => String::from_str(
                "Could not interpret interred object as type ",
            ).concat(wanted.group().as_str()).concat("/").concat(wanted.version().as_str()).concat(
                " ",
            ).concat(wanted.kind().as_str()),
        }
    }
}

/// Where an object is filed: the type it is asked for as, and its key.
pub type Place = (TypeKeyView, ObjectKeyView);

/// The key of the object with the given namespace and name.
pub open spec fn object_key(namespace: Option<String>, name: String) -> ObjectKeyView {
    ObjectKeyView { namespace: option_text(namespace), name: name@ }
}

/// The content of a store without the objects filed under one type.
pub open spec fn without_type<V>(objects: Map<Place, StoredView<V>>, gone: TypeKeyView) -> Map<
    Place,
    StoredView<V>,
> {
    objects.remove_keys(Set::new(|p: Place| p.0 == gone))
}

/// What a lookup gives: nothing where nothing is filed, the object where it
/// was made as the type asked for, a mismatch where it was made as another.
pub open spec fn looked_up<V>(objects: Map<Place, StoredView<V>>, place: Place) -> Result<
    Option<V>,
    TypeKeyView,
> {
    if !objects.contains_key(place) {
        Ok(None)
    } else if objects[place].schema == place.0 {
        Ok(Some(objects[place].value))
    } else {
        Err(place.0)
    }
}

/// The store.
pub struct Store<V> {
    objects: Table<TypeKey, Table<ObjectKey, Stored<V>>>,
}

impl<V> Store<V> {
    /// What the store holds, by place.
    pub closed spec fn view(&self) -> Map<Place, StoredView<V>> {
        Map::new(
            |p: Place| self.objects@.contains_key(p.0) && self.objects@[p.0]@.contains_key(p.1),
            |p: Place| self.objects@[p.0]@[p.1]@,
        )
    }

    /// An empty store.
    pub fn new() -> (store: Self)
        ensures
            store@ == Map::<Place, StoredView<V>>::empty(),
    {
        let store = Store { objects: Table::new() };
        assert(store@ =~= Map::<Place, StoredView<V>>::empty());
        store
    }

    /// Takes the objects of one type out of the store, to put them back
    /// changed.
    fn take_type(&mut self, type_key: &TypeKey) -> (objects: Table<ObjectKey, Stored<V>>)
        ensures
            final(self).objects@ == old(self).objects@.remove(type_key@),
            objects@ == if old(self).objects@.contains_key(type_key@) {
                old(self).objects@[type_key@]@
            } else {
                Map::<ObjectKeyView, Stored<V>>::empty()
            },
    {
        match self.objects.remove(type_key) {
            Some(objects) => objects,
            None => Table::new(),
        }
    }

    /// Files an object that was made as the type it is filed under. An
    /// object filed at the same place before is replaced.
    pub fn insert(&mut self, type_key: &TypeKey, namespace: Option<String>, name: String, object: V)
        ensures
            final(self)@ == old(self)@.insert(
                (type_key@, object_key(namespace, name)),
                StoredView { schema: type_key@, value: object },
            ),
    {
        self.insert_any(namespace, name, type_key, Stored::new(type_key.duplicate(), object));
    }

    /// Files an object whose type has been erased before, under the given
    /// type. An object filed at the same place before is replaced.
    pub fn insert_any(
        &mut self,
        namespace: Option<String>,
        name: String,
        type_key: &TypeKey,
        object: Stored<V>,
    )
        ensures
            final(self)@ == old(self)@.insert((type_key@, object_key(namespace, name)), object@),
    {
        let ghost place = (type_key@, object_key(namespace, name));
        let mut objects = self.take_type(type_key);
        objects.insert(ObjectKey::new(namespace, name), object);
        self.objects.insert(type_key.duplicate(), objects);
        assert(self@ =~= old(self)@.insert(place, object@));
    }

    /// Takes out the object filed at the place, if there is one.
    pub fn delete_any(&mut self, namespace: Option<String>, name: String, type_key: &TypeKey)
        ensures
            final(self)@ == old(self)@.remove((type_key@, object_key(namespace, name))),
    {
        let ghost place = (type_key@, object_key(namespace, name));
        let mut objects = self.take_type(type_key);
        let key = ObjectKey::new(namespace, name);
        objects.remove(&key);
        self.objects.insert(type_key.duplicate(), objects);
        assert(self@ =~= old(self)@.remove(place));
    }

    /// Takes out every object filed under the type.
    pub fn reset(&mut self, type_key: &TypeKey)
        ensures
            final(self)@ == without_type(old(self)@, type_key@),
    {
        let _ = self.take_type(type_key);
        self.objects.insert(type_key.duplicate(), Table::new());
        assert(self@ =~= without_type(old(self)@, type_key@));
    }

    /// The object filed at the place, asked for as the type it is filed
    /// under.
    pub fn get(&self, type_key: &TypeKey, namespace: Option<String>, name: String) -> (r: Result<
        Option<&V>,
        StoreError,
    >)
        ensures
            match r {
                Ok(Some(v)) => looked_up(self@, (type_key@, object_key(namespace, name))) == Ok::<
                    Option<V>,
                    TypeKeyView,
                >(Some(*v)),
                Ok(None) => looked_up(self@, (type_key@, object_key(namespace, name))) == Ok::<
                    Option<V>,
                    TypeKeyView,
                >(None),
                Err(StoreError::TypeMismatch(wanted)) => wanted@ == type_key@ && looked_up(
                    self@,
                    (type_key@, object_key(namespace, name)),
                ) == Err::<Option<V>, TypeKeyView>(type_key@),
            },
    {
        let key = ObjectKey::new(namespace, name);
        match self.objects.get(type_key) {
            Some(objects) => match objects.get(&key) {
                Some(stored) => match stored.downcast(type_key) {
                    Some(value) => Ok(Some(value)),
                    None => Err(StoreError::TypeMismatch(type_key.duplicate())),
                },
                None => Ok(None),
            },
            None => Ok(None),
        }
    }

    /// The object filed at the place, for a caller that treats a mismatch as
    /// a miss: nothing comes back where nothing is filed and where the object
    /// was made as another type.
    pub fn cached(&self, type_key: &TypeKey, namespace: Option<String>, name: String) -> (r: Option<
        &V,
    >)
        ensures
            r == match looked_up(self@, (type_key@, object_key(namespace, name))) {
                Ok(Some(v)) => Some(&v),
                _ => None,
            },
    {
        match self.get(type_key, namespace, name) {
            Ok(found) => found,
            Err(_) => None,
        }
    }
}

/// One operation on a store.
pub enum StoreOp<V> {
    /// File the object at the place.
    Insert(Place, StoredView<V>),
    /// Take out the object at the place.
    Delete(Place),
    /// Take out every object of the type.
    Reset(TypeKeyView),
    /// Look at the place.
    Get(Place),
}

/// What one operation does to the content of a store.
pub open spec fn applied<V>(objects: Map<Place, StoredView<V>>, op: StoreOp<V>) -> Map<
    Place,
    StoredView<V>,
> {
    match op {
        StoreOp::Insert(place, object) => objects.insert(place, object),
        StoreOp::Delete(place) => objects.remove(place),
        StoreOp::Reset(gone) => without_type(objects, gone),
        StoreOp::Get(_) => objects,
    }
}

/// What a run of operations leaves of an empty store.
pub open spec fn content_after<V>(ops: Seq<StoreOp<V>>) -> Map<Place, StoredView<V>>
    decreases ops.len(),
{
    if ops.len() == 0 {
        Map::empty()
    } else {
        applied(content_after(ops.drop_last()), ops.last())
    }
}

/// The objects that a run of operations writes to a place, oldest first.
pub open spec fn written<V>(ops: Seq<StoreOp<V>>, place: Place) -> Seq<StoredView<V>>
    decreases ops.len(),
{
    if ops.len() == 0 {
        Seq::empty()
    } else {
        let before = written(ops.drop_last(), place);
        match ops.last() {
            StoreOp::Insert(at, object) => if at == place {
                before.push(object)
            } else {
                before
            },
            _ => before,
        }
    }
}

/// What the lookups of a place in a run of operations observe, oldest first:
/// each lookup that finds an object gives that object and the number of the
/// write that it saw, counted from 0.
pub open spec fn observed<V>(ops: Seq<StoreOp<V>>, place: Place) -> Seq<(int, StoredView<V>)>
    decreases ops.len(),
{
    if ops.len() == 0 {
        Seq::empty()
    } else {
        let front = ops.drop_last();
        let before = observed(front, place);
        match ops.last() {
            StoreOp::Get(at) => if at == place && content_after(front).contains_key(place) {
                before.push((written(front, place).len() - 1, content_after(front)[place]))
            } else {
                before
            },
            _ => before,
        }
    }
}

/// Reads follow writes: in any run of operations on a store that began
/// empty, every object that a lookup of a place observes is one that was
/// written to that place, and a later lookup never observes an earlier write
/// than a lookup before it. Taken once for each write that they saw, the
/// observed objects are therefore a subsequence of the written ones.
pub proof fn lemma_reads_follow_writes<V>(ops: Seq<StoreOp<V>>, place: Place)
    ensures
        content_after(ops).contains_key(place) ==> written(ops, place).len() > 0
            && content_after(ops)[place] == written(ops, place).last(),
        forall|i: int|
            0 <= i < observed(ops, place).len() ==> 0 <= (#[trigger] observed(ops, place)[i]).0
                < written(ops, place).len() && observed(ops, place)[i].1 == written(
                ops,
                place,
            )[observed(ops, place)[i].0],
        forall|i: int, j: int|
            0 <= i <= j < observed(ops, place).len() ==> (#[trigger] observed(ops, place)[i]).0 <= (
            #[trigger] observed(ops, place)[j]).0,
    decreases ops.len(),
{
    if ops.len() > 0 {
        let front = ops.drop_last();
        lemma_reads_follow_writes(front, place);
        let seen = observed(ops, place);
        let seen0 = observed(front, place);
        let w = written(ops, place);
        let w0 = written(front, place);
        assert(w0.len() <= w.len());
        assert forall|n: int| 0 <= n < w0.len() implies w[n] == w0[n] by {}
        assert forall|i: int| 0 <= i < seen.len() implies 0 <= (#[trigger] seen[i]).0 < w.len()
            && seen[i].1 == w[seen[i].0] by {
            if i < seen0.len() {
                assert(seen[i] == seen0[i]);
            }
        }
        assert forall|i: int, j: int| 0 <= i <= j < seen.len() implies (#[trigger] seen[i]).0 <= (
        #[trigger] seen[j]).0 by {
            if j < seen0.len() {
                assert(seen[i] == seen0[i]);
                assert(seen[j] == seen0[j]);
            } else if i < seen0.len() {
                assert(seen[i] == seen0[i]);
            }
        }
    }
}

/// `part` is a subsequence of `whole`: its elements stand in `whole` at the
/// places `marks`, which rise.
pub open spec fn picks<V>(marks: Seq<int>, part: Seq<V>, whole: Seq<V>) -> bool {
    &&& marks.len() == part.len()
    &&& forall|i: int|
        0 <= i < part.len() ==> 0 <= #[trigger] marks[i] < whole.len() && part[i]
            == whole[marks[i]]
    &&& forall|i: int, j: int| 0 <= i < j < marks.len() ==> #[trigger] marks[i] < #[trigger] marks[j]
}

/// Linearizability per key: where no two lookups of a place see the same
/// write, the objects that the lookups observe are a subsequence of the
/// objects written to the place.
pub proof fn lemma_observed_subsequence<V>(ops: Seq<StoreOp<V>>, place: Place)
    requires
        forall|i: int, j: int|
            0 <= i < j < observed(ops, place).len() ==> (#[trigger] observed(ops, place)[i]).0 != (
            #[trigger] observed(ops, place)[j]).0,
    ensures
        picks(
            observed(ops, place).map_values(|o: (int, StoredView<V>)| o.0),
            observed(ops, place).map_values(|o: (int, StoredView<V>)| o.1),
            written(ops, place),
        ),
{
    lemma_reads_follow_writes(ops, place);
    let seen = observed(ops, place);
    let marks = seen.map_values(|o: (int, StoredView<V>)| o.0);
    assert forall|i: int, j: int| 0 <= i < j < marks.len() implies #[trigger] marks[i]
        < #[trigger] marks[j] by {
        assert(seen[i].0 <= seen[j].0);
        assert(seen[i].0 != seen[j].0);
    }
}

} // verus!
