//! The operations that arrays, views and slices offer under one name each.
//!
//! Every operation is fallible only through its precondition: a shape that
//! does not match, bounds that are out of range, or a layout that the
//! operation does not support are excluded by `requires`, never coerced.
//! Each trait names that precondition as a spec function, so that every
//! impl can say what it asks for; what the operation returns is stated by
//! the impl.

use vstd::prelude::*;
use crate::index::ArrayIndex;

verus! {

/// Reinterpretation as a rank-one view over all elements.
pub trait Flatten<'a, Target>: Sized {
    spec fn flatten_requires(self) -> bool;

    fn flatten(self) -> Target
        requires
            self.flatten_requires(),
    ;
}

/// Reinterpretation as a mutable rank-one view over all elements.
pub trait FlattenMut<'a, Target>: Sized {
    spec fn flatten_mut_requires(self) -> bool;

    fn flatten_mut(self) -> Target
        requires
            self.flatten_mut_requires(),
    ;
}

/// Reinterpretation of the same elements under another shape.
pub trait Reshape<'a, Idx, Target>: Sized where Idx: ArrayIndex {
    spec fn reshape_requires(self, dim: Idx) -> bool;

    fn reshape(self, dim: Idx) -> Target
        requires
            self.reshape_requires(dim),
    ;
}

/// Reinterpretation of the same elements under another shape, for writing.
pub trait ReshapeMut<'a, Idx, Target>: Sized where Idx: ArrayIndex {
    spec fn reshape_mut_requires(self, dim: Idx) -> bool;

    fn reshape_mut(self, dim: Idx) -> Target
        requires
            self.reshape_mut_requires(dim),
    ;
}

/// Borrowing a container as a view.
pub trait AsView<'a, Target> {
    spec fn as_view_requires(&self) -> bool;

    fn as_view(&'a self) -> Target
        requires
            self.as_view_requires(),
    ;
}

/// Borrowing a container as a mutable view.
pub trait AsViewMut<'a, Target> {
    spec fn as_view_mut_requires(&self) -> bool;

    fn as_view_mut(&'a mut self) -> Target
        requires
            old(self).as_view_mut_requires(),
    ;
}

/// Narrowing a view to the window from `lo` (inclusive) to `hi` (exclusive).
pub trait View<'a, Idx, Target>: Sized where Idx: ArrayIndex {
    spec fn view_requires(self, lo: Idx, hi: Idx) -> bool;

    fn view(self, lo: Idx, hi: Idx) -> Target
        requires
            self.view_requires(lo, hi),
    ;
}

/// Narrowing a mutable view to the window from `lo` to `hi`.
pub trait ViewMut<'a, Idx, Target>: Sized where Idx: ArrayIndex {
    spec fn view_mut_requires(self, lo: Idx, hi: Idx) -> bool;

    fn view_mut(self, lo: Idx, hi: Idx) -> Target
        requires
            self.view_mut_requires(lo, hi),
    ;
}

/// Reading a byte buffer as a buffer of fixed-size elements, or the
/// reverse, without copying.  The operation reinterprets raw memory: the
/// caller guarantees that the bytes are valid bit patterns of the target
/// type, and the byte length must be a multiple of the element size.
pub trait AliasBytes<'a, Target>: Sized {
    spec fn alias_bytes_requires(self) -> bool;

    fn alias_bytes(self) -> Target
        requires
            self.alias_bytes_requires(),
    ;
}

/// As [`AliasBytes`], for writing.
pub trait AliasBytesMut<'a, Target>: Sized {
    spec fn alias_bytes_mut_requires(self) -> bool;

    fn alias_bytes_mut(self) -> Target
        requires
            self.alias_bytes_mut_requires(),
    ;
}

/// Overwriting every element with one value.
pub trait SetConstant<'a, T> {
    spec fn set_constant_requires(&self) -> bool;

    fn set_constant(&'a mut self, c: T)
        requires
            old(self).set_constant_requires(),
    ;
}

/// Overwriting every element with one value, by a kernel that may spread
/// the work over threads.
pub trait ParallelSetConstant<'a, T> {
    spec fn parallel_set_constant_requires(&self) -> bool;

    fn parallel_set_constant(&'a mut self, c: T)
        requires
            old(self).parallel_set_constant_requires(),
    ;
}

/// Filling a buffer with the converted elements of another.
pub trait CastFrom<'a, Target>: Sized {
    spec fn cast_from_requires(self, target: Target) -> bool;

    fn cast_from(self, target: Target)
        requires
            self.cast_from_requires(target),
    ;
}

/// How many elements of `elem_size` bytes a buffer of `bytes_len` bytes
/// holds when it is read as such elements: the quotient, where the length
/// is an exact multiple of the element size, and nothing otherwise.
pub fn aliased_len(bytes_len: usize, elem_size: usize) -> (len: Option<usize>)
    ensures
        len.is_some() <==> elem_size > 0 && bytes_len % elem_size == 0,
        len matches Some(n) ==> n * elem_size == bytes_len,
{
    if elem_size == 0 || bytes_len % elem_size != 0 {
        None
    } else {
        let n: usize = bytes_len / elem_size;
        assert(n * elem_size == bytes_len) by (nonlinear_arith)
            requires
                elem_size > 0,
                bytes_len % elem_size == 0,
                n == bytes_len / elem_size,
        ;
        Some(n)
    }
}

} // verus!
