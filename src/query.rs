//! Query descriptors and the rule that decides which blocks a query visits.
use crate::storage::{same_type, same_type_set, Key};
use vstd::prelude::*;
use vstd::seq_lib::seq_to_set_is_finite;
use vstd::set_lib::lemma_subset_equality;

verus! {

/// Asks for read access to the column of `C`.
pub struct Read<C> {
    key: Key<C>,
}

impl<C: 'static> Read<C> {
    pub fn new() -> (r: Self) {
        Read { key: Key::of() }
    }
}

impl<C> Read<C> {
    pub closed spec fn spec_key(&self) -> Key<C> {
        self.key
    }

    /// The identity of the component type asked for.
    pub fn key(&self) -> (r: &Key<C>)
        ensures
            *r == self.spec_key(),
    {
        &self.key
    }
}

/// Asks for write access to the column of `C`.
pub struct Write<C> {
    key: Key<C>,
}

impl<C: 'static> Write<C> {
    pub fn new() -> (r: Self) {
        Write { key: Key::of() }
    }
}

impl<C> Write<C> {
    pub closed spec fn spec_key(&self) -> Key<C> {
        self.key
    }

    /// The identity of the component type asked for.
    pub fn key(&self) -> (r: &Key<C>)
        ensures
            *r == self.spec_key(),
    {
        &self.key
    }
}

/// Visits every block that holds all of the requested types, whatever else it holds.
pub struct All<Tuple>(pub Tuple);

/// Visits every block whose types are precisely the requested ones.
pub struct Exact<Tuple>(pub Tuple);

/// The policy by which a query picks blocks.
pub trait Matcher {
    spec fn spec_exact() -> bool;

    /// Whether a block must hold no type beyond the requested ones.
    fn exact() -> (r: bool)
        ensures
            r == Self::spec_exact(),
    ;
}

impl<Tuple> Matcher for All<Tuple> {
    open spec fn spec_exact() -> bool {
        false
    }

    fn exact() -> (r: bool) {
        false
    }
}

impl<Tuple> Matcher for Exact<Tuple> {
    open spec fn spec_exact() -> bool {
        true
    }

    fn exact() -> (r: bool) {
        true
    }
}

/// Every requested type is among `types`.
pub open spec fn contains_all(types: Seq<std::any::TypeId>, wanted: Seq<std::any::TypeId>) -> bool {
    forall|i: int| 0 <= i < wanted.len() ==> types.contains(#[trigger] wanted[i])
}

/// Whether a block holding `types` satisfies a query for `wanted`: it holds
/// every requested type and, for an exact query, as many types as requested.
pub open spec fn satisfies(
    types: Seq<std::any::TypeId>,
    wanted: Seq<std::any::TypeId>,
    exact: bool,
) -> bool {
    contains_all(types, wanted) && (exact ==> types.len() == wanted.len())
}

/// Whether `types` holds `k`.
pub fn has_type(types: &Vec<std::any::TypeId>, k: &std::any::TypeId) -> (r: bool)
    ensures
        r == types@.contains(*k),
{
    let mut i: usize = 0;
    while i < types.len()
        invariant
            i <= types@.len(),
            forall|j: int| 0 <= j < i ==> types@[j] != *k,
        decreases types@.len() - i,
    {
        if same_type(&types[i], k) {
            return true;
        }
        i = i + 1;
    }
    false
}

/// Decides whether a block holding `types` satisfies a query for `wanted`.
pub fn types_match(
    types: &Vec<std::any::TypeId>,
    wanted: &Vec<std::any::TypeId>,
    exact: bool,
) -> (r: bool)
    ensures
        r == satisfies(types@, wanted@, exact),
{
    if exact && types.len() != wanted.len() {
        return false;
    }
    let mut i: usize = 0;
    while i < wanted.len()
        invariant
            i <= wanted@.len(),
            forall|j: int| 0 <= j < i ==> types@.contains(#[trigger] wanted@[j]),
        decreases wanted@.len() - i,
    {
        if !has_type(types, &wanted[i]) {
            return false;
        }
        i = i + 1;
    }
    true
}

/// When neither list repeats a type, an exact query matches a block exactly
/// when the block holds the same set of types as requested.
pub proof fn lemma_exact_iff_same_set(types: Seq<std::any::TypeId>, wanted: Seq<std::any::TypeId>)
    requires
        types.no_duplicates(),
        wanted.no_duplicates(),
    ensures
        satisfies(types, wanted, true) <==> same_type_set(types, wanted),
{
    seq_to_set_is_finite(types);
    seq_to_set_is_finite(wanted);
    types.unique_seq_to_set();
    wanted.unique_seq_to_set();
    if satisfies(types, wanted, true) {
        assert(wanted.to_set().subset_of(types.to_set())) by {
            assert forall|k: std::any::TypeId| wanted.to_set().contains(k) implies types.to_set().contains(k) by {
                let i = choose|i: int| 0 <= i < wanted.len() && wanted[i] == k;
                assert(types.contains(wanted[i]));
            }
        }
        lemma_subset_equality(wanted.to_set(), types.to_set());
        assert(types.to_set() =~= wanted.to_set());
    }
    if same_type_set(types, wanted) {
        assert forall|i: int| 0 <= i < wanted.len() implies types.contains(#[trigger] wanted[i]) by {
            assert(wanted.to_set().contains(wanted[i]));
        }
    }
}

/// An exact match is also a match of the same query under the `All` policy.
pub proof fn lemma_exact_implies_all(types: Seq<std::any::TypeId>, wanted: Seq<std::any::TypeId>)
    requires
        satisfies(types, wanted, true),
    ensures
        satisfies(types, wanted, false),
{
}

/// A block that holds every requested type and some type beyond them matches
/// under the `All` policy and not under the `Exact` one.
pub proof fn lemma_extra_type_splits_policies(
    types: Seq<std::any::TypeId>,
    wanted: Seq<std::any::TypeId>,
    extra: std::any::TypeId,
)
    requires
        types.no_duplicates(),
        wanted.no_duplicates(),
        contains_all(types, wanted),
        types.contains(extra),
        !wanted.contains(extra),
    ensures
        satisfies(types, wanted, false),
        !satisfies(types, wanted, true),
{
    lemma_exact_iff_same_set(types, wanted);
    assert(types.to_set().contains(extra));
    assert(!wanted.to_set().contains(extra));
}

/// A request to read one component type.
pub trait ReadComponent {
    type Component;
}

/// A request to write one component type.
pub trait WriteComponent {
    type Component;
}

impl<C> ReadComponent for Read<C> {
    type Component = C;
}

impl<C> WriteComponent for Write<C> {
    type Component = C;
}

/// A fixed tuple of component types, which knows how many it holds.
pub trait ComponentList {
    spec fn spec_size() -> nat;

    /// The number of component types in the tuple.
    fn size() -> (r: usize)
        ensures
            r == Self::spec_size(),
    ;
}

impl<A> ComponentList for (A,) {
    open spec fn spec_size() -> nat {
        1
    }

    fn size() -> (r: usize) {
        1
    }
}

impl<A, B> ComponentList for (A, B) {
    open spec fn spec_size() -> nat {
        2
    }

    fn size() -> (r: usize) {
        2
    }
}

} // verus!
