//! Index windows over a contiguous buffer, tagged with the access they grant.
use core::marker::PhantomData;
use vstd::prelude::*;

verus! {

/// Marks a view through which elements may be written.
pub enum Mutable {
    Marker,
}

/// Marks a read-only view.
pub enum Immutable {
    Marker,
}

/// Closes `Mutability` to the two markers of this module.
pub trait Sealed {}

/// The access a `RawSlice` grants: exactly one of `Mutable` or `Immutable`.
pub trait Mutability: Sealed {}

impl Sealed for Mutable {}

impl Sealed for Immutable {}

impl Mutability for Mutable {}

impl Mutability for Immutable {}

/// A window of `len` elements starting at element address `start`. The
/// address of element `i` is `start + i`; the window never reaches past the
/// largest address a `usize` can hold.
pub struct RawSlice<M, T> {
    pub start: usize,
    pub len: usize,
    pub marker: PhantomData<(M, T)>,
}

pub type SliceRef<T> = RawSlice<Immutable, T>;

pub type SliceMut<T> = RawSlice<Mutable, T>;

impl<M, T> RawSlice<M, T> {
    /// The window fits in the address space.
    pub open spec fn wf(&self) -> bool {
        self.start + self.len <= usize::MAX
    }

    /// The address of element `idx`.
    pub open spec fn addr(&self, idx: int) -> int {
        self.start + idx
    }

    /// The address of element `idx`, which the caller knows to be in the window.
    pub fn get_unchecked(&self, idx: usize) -> (r: usize)
        requires
            self.wf(),
            idx < self.len,
        ensures
            r == self.addr(idx as int),
    {
        self.start + idx
    }

    /// The address of element `idx`; an index outside the window is refused.
    pub fn get(&self, idx: usize) -> (r: usize)
        requires
            self.wf(),
            idx < self.len,
        ensures
            r == self.addr(idx as int),
    {
        self.get_unchecked(idx)
    }

    /// The address of element `idx`, or `None` when `idx` is outside the window.
    pub fn try_get(&self, idx: usize) -> (r: Option<usize>)
        requires
            self.wf(),
        ensures
            idx >= self.len ==> r.is_none(),
            idx < self.len ==> r == Some(self.addr(idx as int) as usize),
    {
        if idx >= self.len {
            return None;
        }
        Some(self.get_unchecked(idx))
    }
}

impl<T> RawSlice<Immutable, T> {
    /// Parts the window into the first `idx` elements and the rest.
    pub fn split_at(self, idx: usize) -> (r: (Self, Self))
        requires
            self.wf(),
            idx <= self.len,
        ensures
            r.0.wf() && r.1.wf(),
            r.0.start == self.start && r.0.len == idx,
            r.1.start == self.start + idx && r.1.len == self.len - idx,
    {
        let left = Self::from_raw(self.start, idx);
        let right = Self::from_raw(self.start + idx, self.len - idx);
        (left, right)
    }

    /// A read-only window over all of `slice`, whose first element has address 0.
    pub fn from_slice(slice: &[T]) -> (r: Self)
        ensures
            r.wf(),
            r.start == 0,
            r.len == slice@.len(),
    {
        Self::from_raw(0, slice.len())
    }

    /// A read-only window of `len` elements from address `start`.
    pub fn from_raw(start: usize, len: usize) -> (r: Self)
        requires
            start + len <= usize::MAX,
        ensures
            r.wf(),
            r.start == start,
            r.len == len,
    {
        RawSlice { start, len, marker: PhantomData }
    }
}

impl<T> RawSlice<Mutable, T> {
    /// The address of element `idx` for writing, which the caller knows to be in the window.
    pub fn get_unchecked_mut(&self, idx: usize) -> (r: usize)
        requires
            self.wf(),
            idx < self.len,
        ensures
            r == self.addr(idx as int),
    {
        self.start + idx
    }

    /// The address of element `idx` for writing; an index outside the window is refused.
    pub fn get_mut(&self, idx: usize) -> (r: usize)
        requires
            self.wf(),
            idx < self.len,
        ensures
            r == self.addr(idx as int),
    {
        self.get_unchecked_mut(idx)
    }

    /// The address of element `idx` for writing, or `None` when `idx` is outside the window.
    pub fn try_get_mut(&mut self, idx: usize) -> (r: Option<usize>)
        requires
            old(self).wf(),
        ensures
            *final(self) == *old(self),
            idx >= old(self).len ==> r.is_none(),
            idx < old(self).len ==> r == Some(old(self).addr(idx as int) as usize),
    {
        let len = self.len;
        if idx >= len {
            return None;
        }
        Some(self.get_unchecked_mut(idx))
    }

    /// A writable window over all of `slice`, whose first element has address 0.
    pub fn from_slice(slice: &mut [T]) -> (r: Self)
        ensures
            r.wf(),
            r.start == 0,
            r.len == old(slice)@.len(),
    {
        Self::from_raw(0, slice.len())
    }

    /// A writable window of `len` elements from address `start`.
    pub fn from_raw(start: usize, len: usize) -> (r: Self)
        requires
            start + len <= usize::MAX,
        ensures
            r.wf(),
            r.start == start,
            r.len == len,
    {
        RawSlice { start, len, marker: PhantomData }
    }

    /// Parts the window into two writable windows that do not overlap: the
    /// first `idx` elements and the rest.
    pub fn split_at_mut(self, idx: usize) -> (r: (Self, Self))
        requires
            self.wf(),
            idx <= self.len,
        ensures
            r.0.wf() && r.1.wf(),
            r.0.start == self.start && r.0.len == idx,
            r.1.start == self.start + idx && r.1.len == self.len - idx,
    {
        let left = Self::from_raw(self.start, idx);
        let right = Self::from_raw(self.start + idx, self.len - idx);
        (left, right)
    }
}

/// Something with a number of elements.
pub trait Slice {
    spec fn spec_len(&self) -> nat;

    fn len(&self) -> (r: usize)
        ensures
            r == self.spec_len(),
    ;
}

impl<M, T> Slice for RawSlice<M, T> {
    open spec fn spec_len(&self) -> nat {
        self.len as nat
    }

    fn len(&self) -> (r: usize) {
        self.len
    }
}

/// An element address that `try_get` hands out is the one `get` gives for
/// the same index, and it lies inside the window.
pub proof fn lemma_try_get_agrees_with_get<M, T>(s: RawSlice<M, T>, idx: usize)
    requires
        s.wf(),
        idx < s.len,
    ensures
        s.start <= s.addr(idx as int) < s.start + s.len,
        s.addr(idx as int) <= usize::MAX,
{
}

} // verus!
