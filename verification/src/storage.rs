//! What an owned array needs from the buffer it holds.

use vstd::prelude::*;

verus! {

/// A buffer that can be read as one contiguous slice.
pub trait Storage<T> {
    /// The elements of the buffer, in order.
    spec fn contents(&self) -> Seq<T>;

    fn as_slice(&self) -> (s: &[T])
        ensures
            s@ == self.contents(),
    ;
}

/// A buffer whose owner may also write to it.
pub trait StorageMut<T>: Storage<T> {
    /// Lends the buffer for writing; what the borrower leaves in the slice
    /// is what the buffer then holds.
    fn as_mut_slice(&mut self) -> (s: &mut [T])
        ensures
            s@ == old(self).contents(),
            final(s)@ == final(self).contents(),
    ;
}

impl<T> Storage<T> for Vec<T> {
    open spec fn contents(&self) -> Seq<T> {
        self@
    }

    fn as_slice(&self) -> (s: &[T]) {
        Vec::as_slice(self)
    }
}

impl<T> StorageMut<T> for Vec<T> {
    fn as_mut_slice(&mut self) -> (s: &mut [T]) {
        Vec::as_mut_slice(self)
    }
}

} // verus!
