//! The registry of storage blocks: insertion by type set and queries across blocks.
use crate::query::{
    contains_all, lemma_exact_iff_same_set, lemma_extra_type_splits_policies, satisfies, types_match,
    All, Exact, Matcher, Read,
};
use crate::storage::{same_type, same_type_set, Key, SoaStorage};
use vstd::prelude::*;

verus! {

/// Why an insertion was refused; the world is left unchanged.
#[derive(Debug, PartialEq, Eq, Structural)]
pub enum AddError {
    /// The same component type occurs twice in one entity.
    DuplicateComponent,
    /// The block would hold more entities than a `usize` can count.
    CapacityExceeded,
}

/// The entities of all blocks that a query for `wanted` visits among the
/// first `n` blocks.
pub open spec fn matched_count(
    blocks: Seq<SoaStorage>,
    wanted: Seq<std::any::TypeId>,
    exact: bool,
    n: int,
) -> nat
    decreases n,
{
    if n <= 0 {
        0
    } else {
        matched_count(blocks, wanted, exact, n - 1) + if satisfies(
            blocks[n - 1].type_seq(),
            wanted,
            exact,
        ) {
            blocks[n - 1].entity_count()
        } else {
            0
        }
    }
}

/// Relies on itertools::multizip: walks both slices in lockstep, pairing the
/// elements of equal index, and stops at the end of the shorter one.
#[verifier::external_body]
fn zip_columns<'a, A, B>(a: &'a [A], b: &'a [B]) -> (r: Vec<(&'a A, &'a B)>)
    ensures
        r@.len() == if a@.len() <= b@.len() {
            a@.len()
        } else {
            b@.len()
        },
        forall|i: int| 0 <= i < r@.len() ==> *r@[i].0 == a@[i] && *r@[i].1 == b@[i],
{
    itertools::multizip((a.iter(), b.iter())).collect()
}

/// The storage blocks, in the order they were created.
pub struct World {
    storages: Vec<SoaStorage>,
}

impl World {
    pub closed spec fn blocks(&self) -> Seq<SoaStorage> {
        self.storages@
    }

    /// Every block is well formed and no two blocks hold the same set of types.
    pub open spec fn wf(&self) -> bool {
        &&& forall|i: int| 0 <= i < self.blocks().len() ==> (#[trigger] self.blocks()[i]).wf()
        &&& forall|i: int, j: int|
            0 <= i < self.blocks().len() && 0 <= j < self.blocks().len() && i != j
                ==> !same_type_set(
                #[trigger] self.blocks()[i].type_seq(),
                #[trigger] self.blocks()[j].type_seq(),
            )
    }

    /// A world with no block.
    pub fn new() -> (r: Self)
        ensures
            r.wf(),
            r.blocks().len() == 0,
    {
        World { storages: Vec::new() }
    }

    /// The number of blocks.
    pub fn block_count(&self) -> (r: usize)
        ensures
            r == self.blocks().len(),
    {
        self.storages.len()
    }

    /// The block at `i`, in creation order.
    pub fn block(&self, i: usize) -> (r: &SoaStorage)
        requires
            i < self.blocks().len(),
        ensures
            *r == self.blocks()[i as int],
    {
        &self.storages[i]
    }

    /// Index of the block whose types are exactly `wanted`, if there is one.
    fn find_exact(&self, wanted: &Vec<std::any::TypeId>) -> (r: Option<usize>)
        requires
            self.wf(),
            wanted@.no_duplicates(),
        ensures
            match r {
                Some(i) => i < self.blocks().len() && same_type_set(
                    self.blocks()[i as int].type_seq(),
                    wanted@,
                ),
                None => forall|j: int|
                    0 <= j < self.blocks().len() ==> !same_type_set(
                        #[trigger] self.blocks()[j].type_seq(),
                        wanted@,
                    ),
            },
    {
        let mut i: usize = 0;
        while i < self.storages.len()
            invariant
                self.wf(),
                wanted@.no_duplicates(),
                i <= self.blocks().len(),
                forall|j: int|
                    0 <= j < i ==> !same_type_set(
                        #[trigger] self.blocks()[j].type_seq(),
                        wanted@,
                    ),
            decreases self.blocks().len() - i,
        {
            let hit = types_match(self.storages[i].types(), wanted, true);
            proof {
                assert(self.blocks()[i as int].wf());
                lemma_exact_iff_same_set(self.blocks()[i as int].type_seq(), wanted@);
            }
            if hit {
                return Some(i);
            }
            i = i + 1;
        }
        None
    }

    /// Adds each pair of `items` as one entity of component types `A` and
    /// `B`, in order. The pairs go to the block whose types are exactly `A`
    /// and `B`; when there is none, such a block is created after all others.
    /// Returns the index of the block that received them.
    pub fn add_entity<A: 'static, B: 'static>(&mut self, items: Vec<(A, B)>) -> (r: Result<
        usize,
        AddError,
    >)
        requires
            old(self).wf(),
        ensures
            final(self).wf(),
            match r {
                Ok(i) => {
                    &&& i < final(self).blocks().len()
                    &&& final(self).blocks()[i as int].type_seq().len() == 2
                    &&& forall|j: int|
                        0 <= j < old(self).blocks().len() && j != i ==> final(self).blocks()[j]
                            == old(self).blocks()[j]
                    &&& if i < old(self).blocks().len() {
                        &&& final(self).blocks().len() == old(self).blocks().len()
                        &&& final(self).blocks()[i as int].type_seq() == old(
                            self,
                        ).blocks()[i as int].type_seq()
                        &&& final(self).blocks()[i as int].entity_count() == old(
                            self,
                        ).blocks()[i as int].entity_count() + items@.len()
                    } else {
                        &&& i == old(self).blocks().len()
                        &&& final(self).blocks().len() == old(self).blocks().len() + 1
                        &&& final(self).blocks()[i as int].entity_count() == items@.len()
                    }
                },
                Err(AddError::DuplicateComponent) => *final(self) == *old(self),
                Err(AddError::CapacityExceeded) => {
                    &&& *final(self) == *old(self)
                    &&& exists|j: int|
                        0 <= j < old(self).blocks().len() && (#[trigger] old(
                            self,
                        ).blocks()[j]).type_seq().len() == 2 && old(self).blocks()[j].entity_count()
                            + items@.len() > usize::MAX
                },
            },
    {
        let ka = Key::<A>::of();
        let kb = Key::<B>::of();
        self.add_entity_keyed(&ka, &kb, items)
    }

    /// Adds each pair of `items` as one entity of the component types that
    /// `ka` and `kb` identify, in order. The pairs go to the block whose types
    /// are exactly those two; when there is none, such a block is created
    /// after all others. Two equal identities are refused.
    /// Returns the index of the block that received them.
    pub fn add_entity_keyed<A: 'static, B: 'static>(
        &mut self,
        ka: &Key<A>,
        kb: &Key<B>,
        items: Vec<(A, B)>,
    ) -> (r: Result<
        usize,
        AddError,
    >)
        requires
            old(self).wf(),
        ensures
            final(self).wf(),
            (r == Err::<usize, AddError>(AddError::DuplicateComponent)) == (ka.id() == kb.id()),
            r.is_ok() ==> same_type_set(
                final(self).blocks()[r.unwrap() as int].type_seq(),
                seq![ka.id(), kb.id()],
            ),
            r.is_ok() && r.unwrap() == old(self).blocks().len() ==> forall|j: int|
                0 <= j < old(self).blocks().len() ==> !same_type_set(
                    #[trigger] old(self).blocks()[j].type_seq(),
                    seq![ka.id(), kb.id()],
                ),
            r == Err::<usize, AddError>(AddError::CapacityExceeded) ==> exists|j: int|
                0 <= j < old(self).blocks().len() && same_type_set(
                    #[trigger] old(self).blocks()[j].type_seq(),
                    seq![ka.id(), kb.id()],
                ) && old(self).blocks()[j].entity_count() + items@.len() > usize::MAX,
            match r {
                Ok(i) => {
                    &&& i < final(self).blocks().len()
                    &&& final(self).blocks()[i as int].type_seq().len() == 2
                    &&& forall|j: int|
                        0 <= j < old(self).blocks().len() && j != i ==> final(self).blocks()[j]
                            == old(self).blocks()[j]
                    &&& if i < old(self).blocks().len() {
                        &&& final(self).blocks().len() == old(self).blocks().len()
                        &&& final(self).blocks()[i as int].type_seq() == old(
                            self,
                        ).blocks()[i as int].type_seq()
                        &&& final(self).blocks()[i as int].entity_count() == old(
                            self,
                        ).blocks()[i as int].entity_count() + items@.len()
                    } else {
                        &&& i == old(self).blocks().len()
                        &&& final(self).blocks().len() == old(self).blocks().len() + 1
                        &&& final(self).blocks()[i as int].entity_count() == items@.len()
                    }
                },
                Err(AddError::DuplicateComponent) => *final(self) == *old(self),
                Err(AddError::CapacityExceeded) => {
                    &&& *final(self) == *old(self)
                    &&& exists|j: int|
                        0 <= j < old(self).blocks().len() && (#[trigger] old(
                            self,
                        ).blocks()[j]).type_seq().len() == 2 && old(self).blocks()[j].entity_count()
                            + items@.len() > usize::MAX
                },
            },
    {
        let ida = ka.type_id();
        let idb = kb.type_id();
        if same_type(&ida, &idb) {
            return Err(AddError::DuplicateComponent);
        }
        let wanted = vec![ida, idb];
        proof {
            assert(wanted@ =~= seq![ka.id(), kb.id()]);
            assert(wanted@.no_duplicates());
        }
        match self.find_exact(&wanted) {
            Some(i) => {
                proof {
                    assert(self.blocks()[i as int].wf());
                    self.blocks()[i as int].type_seq().unique_seq_to_set();
                    seq![ka.id(), kb.id()].unique_seq_to_set();
                }
                if self.storages[i].len() > usize::MAX - items.len() {
                    return Err(AddError::CapacityExceeded);
                }
                let mut block = self.storages.remove(i);
                block.append_components(ka, kb, items);
                self.storages.insert(i, block);
                proof {
                    assert(self.storages@ =~= old(self).storages@.update(i as int, block));
                    Self::lemma_replace_keeps_wf(old(self).blocks(), self.blocks(), i as int);
                    assert(block.type_seq().len() == 2);
                }
                Ok(i)
            },
            None => {
                let item_count: usize = items.len();
                let e = SoaStorage::empty();
                let e = e.register_component(ka);
                proof {
                    assert(e.storage().type_seq() =~= seq![ka.id()]);
                }
                let e = e.register_component(kb);
                let mut block = e.access();
                proof {
                    assert(block.type_seq() =~= seq![ka.id(), kb.id()]);
                }
                block.append_components(ka, kb, items);
                assert(block.entity_count() == item_count);
                let n = self.storages.len();
                self.storages.push(block);
                proof {
                    Self::lemma_push_keeps_wf(old(self).blocks(), block, wanted@);
                    assert(self.blocks() =~= old(self).blocks().push(block));
                }
                Ok(n)
            },
        }
    }

    /// Adds each value of `items` as one entity of the single component type
    /// `A`, in order. The values go to the block whose only type is `A`;
    /// when there is none, such a block is created after all others. Returns
    /// the index of the block that received them.
    pub fn add_entity_single<A: 'static>(&mut self, items: Vec<(A,)>) -> (r: Result<
        usize,
        AddError,
    >)
        requires
            old(self).wf(),
        ensures
            final(self).wf(),
            match r {
                Ok(i) => {
                    &&& i < final(self).blocks().len()
                    &&& final(self).blocks()[i as int].type_seq().len() == 1
                    &&& forall|j: int|
                        0 <= j < old(self).blocks().len() && j != i ==> final(self).blocks()[j]
                            == old(self).blocks()[j]
                    &&& if i < old(self).blocks().len() {
                        &&& final(self).blocks().len() == old(self).blocks().len()
                        &&& final(self).blocks()[i as int].type_seq() == old(
                            self,
                        ).blocks()[i as int].type_seq()
                        &&& final(self).blocks()[i as int].entity_count() == old(
                            self,
                        ).blocks()[i as int].entity_count() + items@.len()
                    } else {
                        &&& i == old(self).blocks().len()
                        &&& final(self).blocks().len() == old(self).blocks().len() + 1
                        &&& final(self).blocks()[i as int].entity_count() == items@.len()
                    }
                },
                Err(AddError::DuplicateComponent) => false,
                Err(AddError::CapacityExceeded) => {
                    &&& *final(self) == *old(self)
                    &&& exists|j: int|
                        0 <= j < old(self).blocks().len() && (#[trigger] old(
                            self,
                        ).blocks()[j]).type_seq().len() == 1 && old(self).blocks()[j].entity_count()
                            + items@.len() > usize::MAX
                },
            },
    {
        let ka = Key::<A>::of();
        self.add_entity_single_keyed(&ka, items)
    }

    /// Adds each value of `items` as one entity of the single component type
    /// that `ka` identifies, in order. The values go to the block whose only
    /// type is that one; when there is none, such a block is created after
    /// all others. Returns the index of the block that received them.
    pub fn add_entity_single_keyed<A: 'static>(
        &mut self,
        ka: &Key<A>,
        items: Vec<(A,)>,
    ) -> (r: Result<
        usize,
        AddError,
    >)
        requires
            old(self).wf(),
        ensures
            final(self).wf(),
            r.is_ok() ==> same_type_set(
                final(self).blocks()[r.unwrap() as int].type_seq(),
                seq![ka.id()],
            ),
            r.is_ok() && r.unwrap() == old(self).blocks().len() ==> forall|j: int|
                0 <= j < old(self).blocks().len() ==> !same_type_set(
                    #[trigger] old(self).blocks()[j].type_seq(),
                    seq![ka.id()],
                ),
            r == Err::<usize, AddError>(AddError::CapacityExceeded) ==> exists|j: int|
                0 <= j < old(self).blocks().len() && same_type_set(
                    #[trigger] old(self).blocks()[j].type_seq(),
                    seq![ka.id()],
                ) && old(self).blocks()[j].entity_count() + items@.len() > usize::MAX,
            match r {
                Ok(i) => {
                    &&& i < final(self).blocks().len()
                    &&& final(self).blocks()[i as int].type_seq().len() == 1
                    &&& forall|j: int|
                        0 <= j < old(self).blocks().len() && j != i ==> final(self).blocks()[j]
                            == old(self).blocks()[j]
                    &&& if i < old(self).blocks().len() {
                        &&& final(self).blocks().len() == old(self).blocks().len()
                        &&& final(self).blocks()[i as int].type_seq() == old(
                            self,
                        ).blocks()[i as int].type_seq()
                        &&& final(self).blocks()[i as int].entity_count() == old(
                            self,
                        ).blocks()[i as int].entity_count() + items@.len()
                    } else {
                        &&& i == old(self).blocks().len()
                        &&& final(self).blocks().len() == old(self).blocks().len() + 1
                        &&& final(self).blocks()[i as int].entity_count() == items@.len()
                    }
                },
                Err(AddError::DuplicateComponent) => false,
                Err(AddError::CapacityExceeded) => {
                    &&& *final(self) == *old(self)
                    &&& exists|j: int|
                        0 <= j < old(self).blocks().len() && (#[trigger] old(
                            self,
                        ).blocks()[j]).type_seq().len() == 1 && old(self).blocks()[j].entity_count()
                            + items@.len() > usize::MAX
                },
            },
    {
        let wanted = vec![ka.type_id()];
        proof {
            assert(wanted@ =~= seq![ka.id()]);
        }
        match self.find_exact(&wanted) {
            Some(i) => {
                proof {
                    assert(self.blocks()[i as int].wf());
                    self.blocks()[i as int].type_seq().unique_seq_to_set();
                    seq![ka.id()].unique_seq_to_set();
                }
                if self.storages[i].len() > usize::MAX - items.len() {
                    return Err(AddError::CapacityExceeded);
                }
                let mut block = self.storages.remove(i);
                block.append_single(ka, items);
                self.storages.insert(i, block);
                proof {
                    assert(self.storages@ =~= old(self).storages@.update(i as int, block));
                    Self::lemma_replace_keeps_wf(old(self).blocks(), self.blocks(), i as int);
                }
                Ok(i)
            },
            None => {
                let item_count: usize = items.len();
                let e = SoaStorage::empty();
                let e = e.register_component(ka);
                let mut block = e.access();
                proof {
                    assert(block.type_seq() =~= seq![ka.id()]);
                }
                block.append_single(ka, items);
                assert(block.entity_count() == item_count);
                let n = self.storages.len();
                self.storages.push(block);
                proof {
                    Self::lemma_push_keeps_wf(old(self).blocks(), block, wanted@);
                    assert(self.blocks() =~= old(self).blocks().push(block));
                }
                Ok(n)
            },
        }
    }

    /// Appending a well-formed block whose type set no block has yet keeps
    /// the world well formed.
    proof fn lemma_push_keeps_wf(
        old_w: Seq<SoaStorage>,
        block: SoaStorage,
        wanted: Seq<std::any::TypeId>,
    )
        requires
            block.wf(),
            block.type_seq() == wanted,
            forall|j: int| 0 <= j < old_w.len() ==> (#[trigger] old_w[j]).wf(),
            forall|j: int|
                0 <= j < old_w.len() ==> !same_type_set(#[trigger] old_w[j].type_seq(), wanted),
            forall|a: int, b: int|
                0 <= a < old_w.len() && 0 <= b < old_w.len() && a != b ==> !same_type_set(
                    #[trigger] old_w[a].type_seq(),
                    #[trigger] old_w[b].type_seq(),
                ),
        ensures
            forall|j: int|
                0 <= j < old_w.push(block).len() ==> (#[trigger] old_w.push(block)[j]).wf(),
            forall|a: int, b: int|
                0 <= a < old_w.push(block).len() && 0 <= b < old_w.push(block).len() && a != b
                    ==> !same_type_set(
                    #[trigger] old_w.push(block)[a].type_seq(),
                    #[trigger] old_w.push(block)[b].type_seq(),
                ),
    {
        let w = old_w.push(block);
        assert forall|j: int| 0 <= j < w.len() implies (#[trigger] w[j]).wf() by {
            if j < old_w.len() {
                assert(w[j] == old_w[j]);
            }
        }
        assert forall|a: int, b: int|
            0 <= a < w.len() && 0 <= b < w.len() && a != b implies !same_type_set(
                #[trigger] w[a].type_seq(),
                #[trigger] w[b].type_seq(),
            ) by {
            if a < old_w.len() && b < old_w.len() {
                assert(w[a] == old_w[a]);
                assert(w[b] == old_w[b]);
            } else if a < old_w.len() {
                assert(w[a] == old_w[a]);
                assert(!same_type_set(old_w[a].type_seq(), wanted));
            } else {
                assert(w[b] == old_w[b]);
                assert(!same_type_set(old_w[b].type_seq(), wanted));
            }
        }
    }

    /// For every entity of every block that holds `A` and `B` (and, when
    /// `exact` is set, no other type), its `A` and `B` values: blocks in
    /// creation order, entities of a block in the order they were added.
    pub fn query_pairs<'w, A: 'static, B: 'static>(
        &'w self,
        ka: &Key<A>,
        kb: &Key<B>,
        exact: bool,
    ) -> (r: Vec<(&'w A, &'w B)>)
        requires
            self.wf(),
        ensures
            r@.len() == matched_count(
                self.blocks(),
                seq![ka.id(), kb.id()],
                exact,
                self.blocks().len() as int,
            ),
    {
        let wanted = vec![ka.type_id(), kb.type_id()];
        proof {
            assert(wanted@ =~= seq![ka.id(), kb.id()]);
        }
        let mut out: Vec<(&'w A, &'w B)> = Vec::new();
        let mut i: usize = 0;
        while i < self.storages.len()
            invariant
                self.wf(),
                wanted@ == seq![ka.id(), kb.id()],
                i <= self.blocks().len(),
                out@.len() == matched_count(self.blocks(), wanted@, exact, i as int),
            decreases self.blocks().len() - i,
        {
            let block = &self.storages[i];
            if types_match(block.types(), &wanted, exact) {
                proof {
                    assert(self.blocks()[i as int].wf());
                    assert(wanted@[0] == ka.id() && wanted@[1] == kb.id());
                    assert(block.type_seq().contains(wanted@[0]));
                    assert(block.type_seq().contains(wanted@[1]));
                }
                let sa = block.component(ka).unwrap();
                let sb = block.component(kb).unwrap();
                let mut rows = zip_columns(sa, sb);
                out.append(&mut rows);
            }
            i = i + 1;
        }
        out
    }

    /// For every entity of every block that holds `A` (and, when `exact` is
    /// set, no other type), its `A` value: blocks in creation order, entities
    /// of a block in the order they were added.
    pub fn query_single<'w, A: 'static>(&'w self, ka: &Key<A>, exact: bool) -> (r: Vec<&'w A>)
        requires
            self.wf(),
        ensures
            r@.len() == matched_count(
                self.blocks(),
                seq![ka.id()],
                exact,
                self.blocks().len() as int,
            ),
    {
        let wanted = vec![ka.type_id()];
        proof {
            assert(wanted@ =~= seq![ka.id()]);
        }
        let mut out: Vec<&'w A> = Vec::new();
        let mut i: usize = 0;
        while i < self.storages.len()
            invariant
                self.wf(),
                wanted@ == seq![ka.id()],
                i <= self.blocks().len(),
                out@.len() == matched_count(self.blocks(), wanted@, exact, i as int),
            decreases self.blocks().len() - i,
        {
            let block = &self.storages[i];
            if types_match(block.types(), &wanted, exact) {
                proof {
                    assert(self.blocks()[i as int].wf());
                    assert(wanted@[0] == ka.id());
                    assert(block.type_seq().contains(wanted@[0]));
                }
                let sa = block.component(ka).unwrap();
                let base = out.len();
                let mut j: usize = 0;
                while j < sa.len()
                    invariant
                        sa@.len() == block.entity_count(),
                        j <= sa@.len(),
                        out@.len() == base + j,
                    decreases sa@.len() - j,
                {
                    out.push(&sa[j]);
                    j = j + 1;
                }
            }
            i = i + 1;
        }
        out
    }

    /// Writes `value` as the `A` component of entity `entity` of block
    /// `block`. Returns whether that component exists; when it does not,
    /// nothing changes.
    pub fn set_component<A: 'static>(
        &mut self,
        block: usize,
        key: &Key<A>,
        entity: usize,
        value: A,
    ) -> (r: bool)
        requires
            old(self).wf(),
        ensures
            final(self).wf(),
            r == (block < old(self).blocks().len() && old(self).blocks()[block as int].type_seq().contains(key.id())
                && entity < old(self).blocks()[block as int].entity_count()),
            final(self).blocks().len() == old(self).blocks().len(),
            forall|j: int|
                0 <= j < old(self).blocks().len() ==> (#[trigger] final(self).blocks()[j]).type_seq()
                    == old(self).blocks()[j].type_seq() && final(self).blocks()[j].entity_count()
                    == old(self).blocks()[j].entity_count(),
            !r ==> *final(self) == *old(self),
    {
        if block >= self.storages.len() {
            return false;
        }
        proof {
            assert(self.blocks()[block as int].wf());
        }
        if !self.storages[block].contains(key) || entity >= self.storages[block].len() {
            return false;
        }
        let mut b = self.storages.remove(block);
        b.write_component(key, entity, value);
        self.storages.insert(block, b);
        proof {
            assert(self.storages@ =~= old(self).storages@.update(block as int, b));
            Self::lemma_replace_keeps_wf(old(self).blocks(), self.blocks(), block as int);
        }
        true
    }

    /// Swapping the block at `i` for a well-formed one of the same types
    /// keeps the world well formed.
    proof fn lemma_replace_keeps_wf(old_w: Seq<SoaStorage>, new_w: Seq<SoaStorage>, i: int)
        requires
            0 <= i < old_w.len(),
            new_w.len() == old_w.len(),
            forall|j: int| 0 <= j < old_w.len() && j != i ==> new_w[j] == old_w[j],
            new_w[i].wf(),
            new_w[i].type_seq() == old_w[i].type_seq(),
            forall|j: int| 0 <= j < old_w.len() ==> (#[trigger] old_w[j]).wf(),
            forall|a: int, b: int|
                0 <= a < old_w.len() && 0 <= b < old_w.len() && a != b ==> !same_type_set(
                    #[trigger] old_w[a].type_seq(),
                    #[trigger] old_w[b].type_seq(),
                ),
        ensures
            forall|j: int| 0 <= j < new_w.len() ==> (#[trigger] new_w[j]).wf(),
            forall|a: int, b: int|
                0 <= a < new_w.len() && 0 <= b < new_w.len() && a != b ==> !same_type_set(
                    #[trigger] new_w[a].type_seq(),
                    #[trigger] new_w[b].type_seq(),
                ),
    {
        assert forall|a: int, b: int|
            0 <= a < new_w.len() && 0 <= b < new_w.len() && a != b implies !same_type_set(
                #[trigger] new_w[a].type_seq(),
                #[trigger] new_w[b].type_seq(),
            ) by {
            assert(new_w[a].type_seq() == old_w[a].type_seq());
            assert(new_w[b].type_seq() == old_w[b].type_seq());
        }
    }
}

impl<A: 'static, B: 'static> All<(Read<A>, Read<B>)> {
    /// The `A` and `B` values of every entity of every block of `world` that
    /// holds both types, whatever else it holds.
    pub fn query<'w>(&self, world: &'w World) -> (r: Vec<(&'w A, &'w B)>)
        requires
            world.wf(),
        ensures
            r@.len() == matched_count(
                world.blocks(),
                seq![self.0.0.spec_key().id(), self.0.1.spec_key().id()],
                false,
                world.blocks().len() as int,
            ),
    {
        world.query_pairs(self.0.0.key(), self.0.1.key(), Self::exact())
    }
}

impl<A: 'static, B: 'static> Exact<(Read<A>, Read<B>)> {
    /// The `A` and `B` values of every entity of every block of `world` whose
    /// types are `A` and `B` and nothing else.
    pub fn query<'w>(&self, world: &'w World) -> (r: Vec<(&'w A, &'w B)>)
        requires
            world.wf(),
        ensures
            r@.len() == matched_count(
                world.blocks(),
                seq![self.0.0.spec_key().id(), self.0.1.spec_key().id()],
                true,
                world.blocks().len() as int,
            ),
    {
        world.query_pairs(self.0.0.key(), self.0.1.key(), Self::exact())
    }
}

impl<A: 'static> All<(Read<A>,)> {
    /// The `A` value of every entity of every block of `world` that holds
    /// `A`, whatever else it holds.
    pub fn query<'w>(&self, world: &'w World) -> (r: Vec<&'w A>)
        requires
            world.wf(),
        ensures
            r@.len() == matched_count(
                world.blocks(),
                seq![self.0.0.spec_key().id()],
                false,
                world.blocks().len() as int,
            ),
    {
        world.query_single(self.0.0.key(), Self::exact())
    }
}

impl<A: 'static> Exact<(Read<A>,)> {
    /// The `A` value of every entity of every block of `world` whose only
    /// type is `A`.
    pub fn query<'w>(&self, world: &'w World) -> (r: Vec<&'w A>)
        requires
            world.wf(),
        ensures
            r@.len() == matched_count(
                world.blocks(),
                seq![self.0.0.spec_key().id()],
                true,
                world.blocks().len() as int,
            ),
    {
        world.query_single(self.0.0.key(), Self::exact())
    }
}

/// In every block of a well-formed world, all columns have the same length:
/// the number of entities in the block.
pub proof fn lemma_columns_equal_length(
    w: World,
    i: int,
    k1: std::any::TypeId,
    k2: std::any::TypeId,
)
    requires
        w.wf(),
        0 <= i < w.blocks().len(),
        w.blocks()[i].column_lengths().contains_key(k1),
        w.blocks()[i].column_lengths().contains_key(k2),
    ensures
        w.blocks()[i].column_lengths()[k1] == w.blocks()[i].column_lengths()[k2],
        w.blocks()[i].column_lengths()[k1] == w.blocks()[i].entity_count(),
{
    assert(w.blocks()[i].wf());
}

/// A well-formed world holds at most one block for any set of types.
pub proof fn lemma_one_block_per_type_set(w: World, i: int, j: int)
    requires
        w.wf(),
        0 <= i < w.blocks().len(),
        0 <= j < w.blocks().len(),
        same_type_set(w.blocks()[i].type_seq(), w.blocks()[j].type_seq()),
    ensures
        i == j,
{
}

/// A block that holds every requested type matches a query under the `All`
/// policy, and under the `Exact` policy only when it holds nothing more.
pub proof fn lemma_all_includes_exact_excludes_extra(
    b: SoaStorage,
    wanted: Seq<std::any::TypeId>,
    extra: std::any::TypeId,
)
    requires
        b.wf(),
        wanted.no_duplicates(),
        contains_all(b.type_seq(), wanted),
        b.type_seq().contains(extra),
        !wanted.contains(extra),
    ensures
        satisfies(b.type_seq(), wanted, false),
        !satisfies(b.type_seq(), wanted, true),
{
    lemma_extra_type_splits_policies(b.type_seq(), wanted, extra);
}

} // verus!
