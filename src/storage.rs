//! Columns, storage blocks and their builders.
use crate::slice::{Immutable, Mutable, RawSlice};
use core::marker::PhantomData;
use vstd::prelude::*;

verus! {

#[verifier::external_type_specification]
#[verifier::external_body]
pub struct ExTypeId(std::any::TypeId);

/// Identifies the component types that the builder hands out columns for.
pub type ComponentId = u32;

/// The identity of component type `C`. The field is private and set only by
/// `Key::of`, so the identity held is always that of `C` itself.
pub struct Key<C> {
    id: std::any::TypeId,
    marker: PhantomData<C>,
}

impl<C: 'static> Key<C> {
    /// Relies on std::any::TypeId::of: the identity of the type `C`.
    #[verifier::external_body]
    pub fn of() -> (r: Key<C>) {
        Key { id: std::any::TypeId::of::<C>(), marker: PhantomData }
    }
}

impl<C> Key<C> {
    pub closed spec fn id(&self) -> std::any::TypeId {
        self.id
    }

    /// The identity held by this key.
    pub fn type_id(&self) -> (r: std::any::TypeId)
        ensures
            r == self.id(),
    {
        self.id
    }
}

/// Relies on the `==` of std::any::TypeId: two identities compare equal
/// exactly when they are the same value.
#[verifier::external_body]
pub(crate) fn same_type(a: &std::any::TypeId, b: &std::any::TypeId) -> (r: bool)
    ensures
        r == (*a == *b),
{
    *a == *b
}

/// An append-only buffer of the values of one component type.
pub struct UnsafeStorage<T> {
    items: Vec<T>,
}

impl<T> View for UnsafeStorage<T> {
    type V = Seq<T>;

    closed spec fn view(&self) -> Seq<T> {
        self.items@
    }
}

impl<T> UnsafeStorage<T> {
    /// An empty column.
    pub fn new() -> (r: Self)
        ensures
            r@ == Seq::<T>::empty(),
    {
        UnsafeStorage { items: Vec::new() }
    }

    /// Replaces the value at `idx`.
    pub fn set(&mut self, idx: usize, t: T)
        requires
            idx < old(self)@.len(),
        ensures
            final(self)@ == old(self)@.update(idx as int, t),
    {
        self.items[idx] = t;
    }

    /// Appends one value at the end.
    pub fn push(&mut self, t: T)
        ensures
            final(self)@ == old(self)@.push(t),
    {
        self.items.push(t);
    }

    /// Whether nothing has been pushed yet.
    pub fn is_empty(&self) -> (r: bool)
        ensures
            r == (self@.len() == 0),
    {
        self.items.len() == 0
    }

    /// The number of values pushed.
    pub fn len(&self) -> (r: usize)
        ensures
            r == self@.len(),
    {
        self.items.len()
    }

    /// The values pushed so far, in push order.
    pub fn get_slice(&self) -> (r: &[T])
        ensures
            r@ == self@,
    {
        self.items.as_slice()
    }

    /// A read-only window over the whole column.
    pub fn as_slice(&self) -> (r: RawSlice<Immutable, T>)
        ensures
            r.wf(),
            r.start == 0,
            r.len == self@.len(),
    {
        RawSlice::<Immutable, T>::from_slice(self.items.as_slice())
    }

    /// A writable window over the whole column.
    pub fn as_mut_slice(&self) -> (r: RawSlice<Mutable, T>)
        ensures
            r.wf(),
            r.start == 0,
            r.len == self@.len(),
    {
        RawSlice::<Mutable, T>::from_raw(0, self.items.len())
    }

    /// A fresh column standing for a copy of this one; only an empty column
    /// may be copied.
    pub fn clone_empty(&self) -> (r: Self)
        requires
            self@.len() == 0,
        ensures
            r@ == self@,
    {
        UnsafeStorage::new()
    }
}

// anymap's map is keyed by `dyn Any`, a trait Verus cannot be told about, so
// the map is held behind this opaque struct and reached only through the
// methods below.
/// The columns of one block, one per component type, found by type identity.
#[verifier::external_body]
pub struct ColumnMap {
    map: anymap::AnyMap,
}

/// The length of each column of a `ColumnMap`, by the identity of its
/// component type.
pub uninterp spec fn column_lens(m: ColumnMap) -> Map<std::any::TypeId, nat>;

impl ColumnMap {
    /// Relies on anymap::Map::new: a map that holds no column.
    #[verifier::external_body]
    fn new() -> (r: ColumnMap)
        ensures
            column_lens(r).dom() == Set::<std::any::TypeId>::empty(),
    {
        ColumnMap { map: anymap::AnyMap::new() }
    }

    /// Relies on anymap::Map::insert: stores an empty column of `C` under the
    /// identity of `C`, replacing any column stored there.
    #[verifier::external_body]
    fn insert_empty<C: 'static>(&mut self, key: &Key<C>)
        ensures
            column_lens(*final(self)) == column_lens(*old(self)).insert(key.id(), 0),
    {
        self.map.insert(UnsafeStorage::<C> { items: Vec::new() });
    }

    /// Relies on anymap::Map::contains: whether a column of `C` is stored.
    #[verifier::external_body]
    fn contains<C: 'static>(&self, key: &Key<C>) -> (r: bool)
        ensures
            r == column_lens(*self).contains_key(key.id()),
    {
        self.map.contains::<UnsafeStorage<C>>()
    }

    /// Relies on anymap::Map::get: the column of `C`, if one is stored.
    #[verifier::external_body]
    fn get<C: 'static>(&self, key: &Key<C>) -> (r: Option<&UnsafeStorage<C>>)
        ensures
            r.is_some() == column_lens(*self).contains_key(key.id()),
            r.is_some() ==> r.unwrap()@.len() == column_lens(*self)[key.id()],
    {
        self.map.get::<UnsafeStorage<C>>()
    }

    /// Relies on anymap::Map::get_mut: the column of `C` for changing, if
    /// one is stored; the map then holds that column as the caller leaves it.
    #[verifier::external_body]
    fn get_mut<C: 'static>(&mut self, key: &Key<C>) -> (r: Option<&mut UnsafeStorage<C>>)
        ensures
            r.is_some() == column_lens(*old(self)).contains_key(key.id()),
            r.is_some() ==> (*r.unwrap())@.len() == column_lens(*old(self))[key.id()],
            r.is_some() ==> column_lens(*final(self)) == column_lens(*old(self)).insert(
                key.id(),
                (*final(r.unwrap()))@.len(),
            ),
            r.is_none() ==> column_lens(*final(self)) == column_lens(*old(self)),
    {
        self.map.get_mut::<UnsafeStorage<C>>()
    }
}

/// Whether `a` and `b` hold the same identities, regardless of order.
pub open spec fn same_type_set(a: Seq<std::any::TypeId>, b: Seq<std::any::TypeId>) -> bool {
    a.to_set() == b.to_set()
}

/// A storage block: one column per registered component type, all of the
/// same length, which is the number of entities in the block.
pub struct SoaStorage {
    types: Vec<std::any::TypeId>,
    columns: ColumnMap,
    len: usize,
}

impl SoaStorage {
    /// The registered component types, in registration order.
    pub closed spec fn type_seq(&self) -> Seq<std::any::TypeId> {
        self.types@
    }

    /// The length of each column, by component type.
    pub closed spec fn column_lengths(&self) -> Map<std::any::TypeId, nat> {
        column_lens(self.columns)
    }

    /// The number of entities in the block.
    pub closed spec fn entity_count(&self) -> nat {
        self.len as nat
    }

    /// Each type is registered once, there is a column for exactly the
    /// registered types, and every column holds one value per entity.
    pub open spec fn wf(&self) -> bool {
        &&& self.type_seq().no_duplicates()
        &&& forall|k: std::any::TypeId|
            #![trigger self.column_lengths().contains_key(k)]
            self.column_lengths().contains_key(k) <==> self.type_seq().contains(k)
        &&& forall|k: std::any::TypeId|
            #![trigger self.column_lengths()[k]]
            self.column_lengths().contains_key(k) ==> self.column_lengths()[k]
                == self.entity_count()
    }

    /// What a well-formed block says of the column of one type.
    pub proof fn lemma_column_of(&self, k: std::any::TypeId)
        requires
            self.wf(),
        ensures
            self.column_lengths().contains_key(k) <==> self.type_seq().contains(k),
            self.column_lengths().contains_key(k) ==> self.column_lengths()[k]
                == self.entity_count(),
    {
        assert(self.column_lengths().contains_key(k) <==> self.type_seq().contains(k));
        if self.column_lengths().contains_key(k) {
            assert(self.column_lengths()[k] == self.entity_count());
        }
    }

    /// A builder for a block with no registered type.
    pub fn empty() -> (r: EmptyStorage)
        ensures
            r.wf(),
            r.storage().type_seq() == Seq::<std::any::TypeId>::empty(),
    {
        let storage = SoaStorage { types: Vec::new(), columns: ColumnMap::new(), len: 0 };
        EmptyStorage { storage }
    }

    /// Whether a column of `C` is registered.
    pub fn contains<C: 'static>(&self, key: &Key<C>) -> (r: bool)
        requires
            self.wf(),
        ensures
            r == self.type_seq().contains(key.id()),
    {
        proof {
            self.lemma_column_of(key.id());
        }
        self.columns.contains(key)
    }

    /// The registered component types.
    pub fn types(&self) -> (r: &Vec<std::any::TypeId>)
        ensures
            r@ == self.type_seq(),
    {
        &self.types
    }

    /// The number of entities in the block.
    pub fn len(&self) -> (r: usize)
        ensures
            r == self.entity_count(),
    {
        self.len
    }

    /// The column of `C` in entity order, or `None` when `C` is not registered.
    pub fn component<C: 'static>(&self, key: &Key<C>) -> (r: Option<&[C]>)
        requires
            self.wf(),
        ensures
            r.is_some() == self.type_seq().contains(key.id()),
            r.is_some() ==> r.unwrap()@.len() == self.entity_count(),
    {
        proof {
            self.lemma_column_of(key.id());
        }
        match self.columns.get(key) {
            Some(column) => Some(column.get_slice()),
            None => None,
        }
    }

    /// A writable window over the column of `C`, or `None` when `C` is not
    /// registered.
    pub fn component_mut<C: 'static>(&self, key: &Key<C>) -> (r: Option<RawSlice<Mutable, C>>)
        requires
            self.wf(),
        ensures
            r.is_some() == self.type_seq().contains(key.id()),
            r.is_some() ==> r.unwrap().wf() && r.unwrap().start == 0 && r.unwrap().len
                == self.entity_count(),
    {
        proof {
            self.lemma_column_of(key.id());
        }
        match self.columns.get(key) {
            Some(column) => Some(column.as_mut_slice()),
            None => None,
        }
    }

    /// Writes `value` as the `C` component of entity `entity`, found through
    /// a window from `component_mut`.
    pub fn write_component<C: 'static>(&mut self, key: &Key<C>, entity: usize, value: C)
        requires
            old(self).wf(),
            old(self).type_seq().contains(key.id()),
            entity < old(self).entity_count(),
        ensures
            final(self).wf(),
            final(self).type_seq() == old(self).type_seq(),
            final(self).entity_count() == old(self).entity_count(),
    {
        proof {
            self.lemma_column_of(key.id());
        }
        match self.columns.get_mut(key) {
            Some(column) => column.set(entity, value),
            None => {},
        }
    }

    /// Appends one value to the column of `C`; the block is left with that
    /// column one value longer than the others until the entity is complete.
    fn push_component<C: 'static>(&mut self, key: &Key<C>, value: C)
        requires
            old(self).column_lengths().contains_key(key.id()),
        ensures
            final(self).type_seq() == old(self).type_seq(),
            final(self).entity_count() == old(self).entity_count(),
            final(self).column_lengths() == old(self).column_lengths().insert(
                key.id(),
                old(self).column_lengths()[key.id()] + 1,
            ),
    {
        match self.columns.get_mut(key) {
            Some(column) => column.push(value),
            None => {},
        }
    }
}

/// The identities in `ids` are those of the block's types.
pub proof fn lemma_type_in_set(types: Seq<std::any::TypeId>, ids: Seq<std::any::TypeId>, k: std::any::TypeId)
    requires
        same_type_set(types, ids),
    ensures
        types.contains(k) <==> ids.contains(k),
{
    assert(types.to_set().contains(k) == types.contains(k));
    assert(ids.to_set().contains(k) == ids.contains(k));
}

impl SoaStorage {
    /// Appends each pair of `items`, in order, as one entity: `a` to the
    /// column of `A` and `b` to the column of `B`. The block's types must be
    /// exactly `A` and `B`.
    pub fn append_components<A: 'static, B: 'static>(
        &mut self,
        ka: &Key<A>,
        kb: &Key<B>,
        items: Vec<(A, B)>,
    )
        requires
            old(self).wf(),
            ka.id() != kb.id(),
            same_type_set(old(self).type_seq(), seq![ka.id(), kb.id()]),
            old(self).entity_count() + items@.len() <= usize::MAX,
        ensures
            final(self).wf(),
            final(self).type_seq() == old(self).type_seq(),
            final(self).entity_count() == old(self).entity_count() + items@.len(),
    {
        let n = items.len();
        let mut items = items;
        let mut rev: Vec<(A, B)> = Vec::new();
        while items.len() > 0
            invariant
                rev@.len() + items@.len() == n,
            decreases items@.len(),
        {
            let item = items.pop().unwrap();
            rev.push(item);
        }
        while rev.len() > 0
            invariant
                self.wf(),
                self.type_seq() == old(self).type_seq(),
                self.entity_count() + rev@.len() == old(self).entity_count() + n,
                old(self).entity_count() + n <= usize::MAX,
                ka.id() != kb.id(),
                same_type_set(old(self).type_seq(), seq![ka.id(), kb.id()]),
            decreases rev@.len(),
        {
            let (a, b) = rev.pop().unwrap();
            proof {
                lemma_type_in_set(self.type_seq(), seq![ka.id(), kb.id()], ka.id());
                lemma_type_in_set(self.type_seq(), seq![ka.id(), kb.id()], kb.id());
                self.lemma_column_of(ka.id());
                self.lemma_column_of(kb.id());
            }
            let ghost before = *self;
            self.push_component(ka, a);
            self.push_component(kb, b);
            self.len = self.len + 1;
            proof {
                assert forall|k: std::any::TypeId|
                    #![trigger self.column_lengths().contains_key(k)]
                    self.column_lengths().contains_key(k) <==> self.type_seq().contains(k) by {
                    before.lemma_column_of(k);
                }
                assert forall|k: std::any::TypeId|
                    #![trigger self.column_lengths()[k]]
                    self.column_lengths().contains_key(k) implies self.column_lengths()[k]
                        == self.entity_count() by {
                    before.lemma_column_of(k);
                    lemma_type_in_set(self.type_seq(), seq![ka.id(), kb.id()], k);
                    assert(seq![ka.id(), kb.id()].contains(k) ==> k == ka.id() || k == kb.id()) by {
                        if seq![ka.id(), kb.id()].contains(k) {
                            let i = choose|i: int| 0 <= i < 2 && seq![ka.id(), kb.id()][i] == k;
                        }
                    }
                }
            }
        }
    }

    /// Appends each value of `items`, in order, as one entity. The block's
    /// only type must be `A`.
    pub fn append_single<A: 'static>(&mut self, ka: &Key<A>, items: Vec<(A,)>)
        requires
            old(self).wf(),
            same_type_set(old(self).type_seq(), seq![ka.id()]),
            old(self).entity_count() + items@.len() <= usize::MAX,
        ensures
            final(self).wf(),
            final(self).type_seq() == old(self).type_seq(),
            final(self).entity_count() == old(self).entity_count() + items@.len(),
    {
        let n = items.len();
        let mut items = items;
        let mut rev: Vec<(A,)> = Vec::new();
        while items.len() > 0
            invariant
                rev@.len() + items@.len() == n,
            decreases items@.len(),
        {
            let item = items.pop().unwrap();
            rev.push(item);
        }
        while rev.len() > 0
            invariant
                self.wf(),
                self.type_seq() == old(self).type_seq(),
                self.entity_count() + rev@.len() == old(self).entity_count() + n,
                old(self).entity_count() + n <= usize::MAX,
                same_type_set(old(self).type_seq(), seq![ka.id()]),
            decreases rev@.len(),
        {
            let (a,) = rev.pop().unwrap();
            proof {
                assert(seq![ka.id()][0] == ka.id());
                lemma_type_in_set(self.type_seq(), seq![ka.id()], ka.id());
                self.lemma_column_of(ka.id());
            }
            let ghost before = *self;
            self.push_component(ka, a);
            self.len = self.len + 1;
            proof {
                assert forall|k: std::any::TypeId|
                    #![trigger self.column_lengths().contains_key(k)]
                    self.column_lengths().contains_key(k) <==> self.type_seq().contains(k) by {
                    before.lemma_column_of(k);
                }
                assert forall|k: std::any::TypeId|
                    #![trigger self.column_lengths()[k]]
                    self.column_lengths().contains_key(k) implies self.column_lengths()[k]
                        == self.entity_count() by {
                    before.lemma_column_of(k);
                    lemma_type_in_set(self.type_seq(), seq![ka.id()], k);
                    assert(seq![ka.id()].contains(k) ==> k == ka.id()) by {
                        if seq![ka.id()].contains(k) {
                            let i = choose|i: int| 0 <= i < 1 && seq![ka.id()][i] == k;
                        }
                    }
                }
            }
        }
    }
}

/// A block under construction: types may be registered while it holds no entity.
pub struct EmptyStorage {
    storage: SoaStorage,
}

impl EmptyStorage {
    pub closed spec fn storage(&self) -> SoaStorage {
        self.storage
    }

    pub open spec fn wf(&self) -> bool {
        self.storage().wf() && self.storage().entity_count() == 0
    }

    /// Registers component type `C` with a fresh empty column; `C` must not
    /// be registered yet.
    pub fn register_component<C: 'static>(self, key: &Key<C>) -> (r: EmptyStorage)
        requires
            self.wf(),
            !self.storage().type_seq().contains(key.id()),
        ensures
            r.wf(),
            r.storage().type_seq() == self.storage().type_seq().push(key.id()),
    {
        let EmptyStorage { storage } = self;
        let SoaStorage { mut types, mut columns, len } = storage;
        columns.insert_empty(key);
        types.push(key.type_id());
        let storage = SoaStorage { types, columns, len };
        proof {
            let old_types = self.storage.type_seq();
            let id = key.id();
            assert(storage.type_seq() == old_types.push(id));
            assert forall|k: std::any::TypeId| #[trigger]
                storage.type_seq().contains(k) <==> (old_types.contains(k) || k == id) by {
                if storage.type_seq().contains(k) && k != id {
                    let i = choose|i: int|
                        0 <= i < storage.type_seq().len() && storage.type_seq()[i] == k;
                    assert(old_types[i] == k);
                }
                if old_types.contains(k) {
                    let i = choose|i: int| 0 <= i < old_types.len() && old_types[i] == k;
                    assert(storage.type_seq()[i] == k);
                }
                if k == id {
                    assert(storage.type_seq()[old_types.len() as int] == k);
                }
            }
            assert forall|i: int, j: int|
                0 <= i < storage.type_seq().len() && 0 <= j < storage.type_seq().len() && i
                    != j implies storage.type_seq()[i] != storage.type_seq()[j] by {
                if i < old_types.len() && j < old_types.len() {
                } else if i < old_types.len() {
                    assert(old_types.contains(storage.type_seq()[i]));
                } else if j < old_types.len() {
                    assert(old_types.contains(storage.type_seq()[j]));
                }
            }
            assert forall|k: std::any::TypeId|
                #![trigger storage.column_lengths().contains_key(k)]
                storage.column_lengths().contains_key(k) <==> storage.type_seq().contains(k) by {
                self.storage.lemma_column_of(k);
            }
            assert forall|k: std::any::TypeId|
                #![trigger storage.column_lengths()[k]]
                storage.column_lengths().contains_key(k) implies storage.column_lengths()[k]
                    == storage.entity_count() by {
                self.storage.lemma_column_of(k);
            }
        }
        EmptyStorage { storage }
    }

    /// The finished block, ready for entities.
    pub fn access(self) -> (r: SoaStorage)
        requires
            self.wf(),
        ensures
            r.wf(),
            r == self.storage(),
            r.entity_count() == 0,
    {
        self.storage
    }
}

/// Any type that lives as long as the program can be a component.
pub trait Component {}

impl<C: 'static> Component for C {}

/// Hands out consecutive component ids, starting at 1, and keeps the storage
/// registered under each.
pub struct StorageBuilder<S> {
    current_id: ComponentId,
    storage_register: std::collections::HashMap<ComponentId, S>,
}

impl<S> StorageBuilder<S> {
    /// The last id handed out; 0 before the first.
    pub closed spec fn last_id(&self) -> ComponentId {
        self.current_id
    }

    /// The storages registered so far, by id.
    pub closed spec fn register(&self) -> Map<ComponentId, S> {
        self.storage_register@
    }

    /// A builder that has handed out no id.
    pub fn new() -> (r: Self)
        ensures
            r.last_id() == 0,
            r.register() == Map::<ComponentId, S>::empty(),
    {
        StorageBuilder { current_id: 0, storage_register: std::collections::HashMap::new() }
    }

    /// Registers `storage` under the next id and returns that id.
    pub fn add_storage(&mut self, storage: S) -> (r: ComponentId)
        requires
            old(self).last_id() < ComponentId::MAX,
        ensures
            r == old(self).last_id() + 1,
            final(self).last_id() == r,
            final(self).register() == old(self).register().insert(r, storage),
    {
        broadcast use vstd::std_specs::hash::group_hash_axioms;

        let id = self.current_id + 1;
        self.storage_register.insert(id, storage);
        self.current_id = id;
        id
    }
}

} // verus!
