//! Rank-three arrays and views.

use vstd::prelude::*;
use std::marker::PhantomData;
use crate::index::ArrayIndex;
use crate::storage::{Storage, StorageMut};
use crate::strided::Strided;
use crate::zero::{zeroed, ZeroBits};

verus! {

/// An array of rank three that owns its buffer.  Its layout is always
/// dense: the stride is the least stride of the shape, and the buffer holds
/// exactly the elements of the shape.
pub struct Array3d<T, S = Vec<T>> where T: Copy, S: Storage<T> {
    buf: S,
    dim: (usize, usize, usize),
    stride: (usize, usize, usize),
    _marker: PhantomData<T>,
}

/// A borrowed window of rank three.
pub struct Array3dView<'a, T> where T: 'a + Copy {
    buf: &'a [T],
    dim: (usize, usize, usize),
    stride: (usize, usize, usize),
}

impl<'a, T: Copy> Clone for Array3dView<'a, T> {
    fn clone(&self) -> (v: Self)
        ensures
            v == *self,
    {
        Array3dView { buf: self.buf, dim: self.dim, stride: self.stride }
    }
}

impl<'a, T: Copy> Copy for Array3dView<'a, T> {
}

/// A borrowed window of rank three through which elements can be written.
pub struct Array3dViewMut<'a, T> where T: 'a + Copy {
    buf: &'a mut [T],
    dim: (usize, usize, usize),
    stride: (usize, usize, usize),
}

impl<T: Copy, S: Storage<T>> View for Array3d<T, S> {
    type V = Strided<(usize, usize, usize), T>;

    closed spec fn view(&self) -> Strided<(usize, usize, usize), T> {
        Strided { data: self.buf.contents(), dim: self.dim, stride: self.stride }
    }
}

impl<'a, T: Copy> View for Array3dView<'a, T> {
    type V = Strided<(usize, usize, usize), T>;

    closed spec fn view(&self) -> Strided<(usize, usize, usize), T> {
        Strided { data: self.buf@, dim: self.dim, stride: self.stride }
    }
}

impl<'a, T: Copy> View for Array3dViewMut<'a, T> {
    type V = Strided<(usize, usize, usize), T>;

    closed spec fn view(&self) -> Strided<(usize, usize, usize), T> {
        Strided { data: self.buf@, dim: self.dim, stride: self.stride }
    }
}

impl<T: Copy, S: Storage<T> + Clone> Clone for Array3d<T, S> {
    /// A second array over a clone of the buffer, with the same shape and
    /// stride.
    fn clone(&self) -> (a: Self)
        ensures
            a@.dim == self@.dim,
            a@.stride == self@.stride,
            cloned::<S>(self.spec_storage(), a.spec_storage()),
    {
        Array3d {
            buf: self.buf.clone(),
            dim: self.dim,
            stride: self.stride,
            _marker: PhantomData,
        }
    }
}

impl<T: ZeroBits> Array3d<T> {
    /// A fresh array of shape `dim` with every element zero.
    pub fn zeros(dim: (usize, usize, usize)) -> (a: Array3d<T>)
        requires
            dim.len_fits(),
        ensures
            a@.dense(),
            a@.dim == dim,
            a@.data == Seq::new(dim.spec_flat_len(), |i: int| T::spec_zero_bits()),
    {
        let len: usize = dim.flat_len();
        let data: Vec<T> = zeroed(len);
        Array3d { buf: data, dim: dim, stride: dim.least_stride(), _marker: PhantomData }
    }
}

impl<T: Copy, S: Storage<T>> Array3d<T, S> {
    /// Wraps a buffer that holds exactly the elements of shape `dim`.
    pub fn from_storage(dim: (usize, usize, usize), buf: S) -> (a: Array3d<T, S>)
        requires
            dim.len_fits(),
            dim.spec_flat_len() == buf.contents().len(),
        ensures
            a@.dense(),
            a@.dim == dim,
            a@.data == buf.contents(),
            a.spec_storage() == buf,
    {
        Array3d { buf: buf, dim: dim, stride: dim.least_stride(), _marker: PhantomData }
    }

    /// The buffer that the array holds.
    pub closed spec fn spec_storage(&self) -> S {
        self.buf
    }

    /// The buffer that the array holds.
    pub fn storage(&self) -> (s: &S)
        ensures
            *s == self.spec_storage(),
            s.contents() == self@.data,
    {
        &self.buf
    }

    /// Gives up the array for its buffer.
    pub fn into_storage(self) -> (s: S)
        ensures
            s == self.spec_storage(),
            s.contents() == self@.data,
    {
        self.buf
    }

    pub fn dim(&self) -> (d: (usize, usize, usize))
        ensures
            d == self@.dim,
    {
        self.dim
    }

    pub fn stride(&self) -> (s: (usize, usize, usize))
        ensures
            s == self@.stride,
    {
        self.stride
    }

    /// The elements in buffer order.
    pub fn as_slice(&self) -> (s: &[T])
        ensures
            s@ == self@.data,
    {
        self.buf.as_slice()
    }
}

impl<T: Copy, S: StorageMut<T>> Array3d<T, S> {
    /// Lends the elements for writing; shape and stride stay as they are.
    pub fn as_mut_slice(&mut self) -> (s: &mut [T])
        ensures
            s@ == old(self)@.data,
            final(self)@.data == final(s)@,
            final(self)@.dim == old(self)@.dim,
            final(self)@.stride == old(self)@.stride,
    {
        self.buf.as_mut_slice()
    }
}

impl<'a, T: Copy, S: Storage<T>> crate::traits::AsView<'a, Array3dView<'a, T>> for Array3d<T, S> {
    open spec fn as_view_requires(&self) -> bool {
        true
    }

    /// The view over the whole array.
    fn as_view(&'a self) -> (v: Array3dView<'a, T>)
        ensures
            v@ == self@,
    {
        Array3dView { buf: self.buf.as_slice(), dim: self.dim, stride: self.stride }
    }
}

impl<'a, T: Copy, S: StorageMut<T>> crate::traits::AsViewMut<'a, Array3dViewMut<'a, T>>
    for Array3d<T, S>
{
    open spec fn as_view_mut_requires(&self) -> bool {
        true
    }

    /// The mutable view over the whole array: what is written through it is
    /// what the array holds when the view is given up.
    fn as_view_mut(&'a mut self) -> (v: Array3dViewMut<'a, T>)
        ensures
            v@ == old(self)@,
            final(self)@.data == final(v.target())@,
            final(self)@.dim == old(self)@.dim,
            final(self)@.stride == old(self)@.stride,
    {
        let dim: (usize, usize, usize) = self.dim;
        let stride: (usize, usize, usize) = self.stride;
        Array3dViewMut { buf: self.buf.as_mut_slice(), dim: dim, stride: stride }
    }
}

impl<'a, T: Copy> Array3dView<'a, T> {
    /// The view of `buf` with the given shape and stride.
    pub(crate) fn from_parts(
        buf: &'a [T],
        dim: (usize, usize, usize),
        stride: (usize, usize, usize),
    ) -> (v: Self)
        ensures
            v@ == (Strided { data: buf@, dim: dim, stride: stride }),
    {
        Array3dView { buf: buf, dim: dim, stride: stride }
    }

    pub fn dim(&self) -> (d: (usize, usize, usize))
        ensures
            d == self@.dim,
    {
        self.dim
    }

    pub fn stride(&self) -> (s: (usize, usize, usize))
        ensures
            s == self@.stride,
    {
        self.stride
    }

    /// The stretch of the buffer that the view refers to, from its first
    /// element on.
    pub fn as_slice(&self) -> (s: &'a [T])
        ensures
            s@ == self@.data,
    {
        self.buf
    }

    /// Whether the view is densely packed.
    pub fn is_contiguous(&self) -> (b: bool)
        requires
            self@.dim.stride_fits(),
        ensures
            b == self@.contiguous(),
    {
        let least: (usize, usize, usize) = self.dim.least_stride();
        self.stride.0 == least.0 && self.stride.1 == least.1 && self.stride.2 == least.2
    }

    /// The number of elements of a densely packed view whose buffer holds
    /// them all; nothing for a view with any other stride, or with a shape
    /// whose length does not fit.
    pub fn dense_len(&self) -> (r: Option<usize>)
        ensures
            r.is_some() <==> self@.wf() && self@.contiguous(),
            r matches Some(n) ==> n == self@.dim.spec_flat_len(),
    {
        match self.dim.checked_flat_len() {
            None => None,
            Some(n) => {
                let least: (usize, usize, usize) = self.dim.least_stride();
                let packed: bool = self.stride.0 == least.0
                    && self.stride.1 == least.1
                    && self.stride.2 == least.2;
                if packed && n <= self.buf.len() {
                    Some(n)
                } else {
                    None
                }
            },
        }
    }
}

impl<'a, T: Copy> crate::traits::View<'a, (usize, usize, usize), Array3dView<'a, T>>
    for Array3dView<'a, T>
{
    open spec fn view_requires(self, lo: (usize, usize, usize), hi: (usize, usize, usize)) -> bool {
        View::view(&self).wf() && View::view(&self).window_fits(lo, hi)
    }

    /// The window from `lo` to `hi`.
    fn view(self, lo: (usize, usize, usize), hi: (usize, usize, usize)) -> (v: Array3dView<'a, T>)
        ensures
            View::view(&v) == View::view(&self).window(lo, hi),
            View::view(&v).wf(),
    {
        proof {
            self.dim.lemma_covered_len(hi.spec_diff(lo));
        }
        let buf_len: usize = self.buf.len();
        let new_dim: (usize, usize, usize) = hi.diff(lo);
        let new_offset: usize = lo.offset(self.stride);
        let new_offset_end: usize = new_offset + new_dim.flat_len();
        Array3dView {
            buf: vstd::slice::slice_subrange(self.buf, new_offset, new_offset_end),
            dim: new_dim,
            stride: self.stride,
        }
    }
}

impl<'a, T: Copy> Array3dViewMut<'a, T> {
    /// The borrowed buffer itself; `final(v.target())@` is what the buffer
    /// holds once the view has been given up.  Whoever lent the buffer
    /// learns from it what the view left behind; see `lemma_released`.
    pub closed spec fn target(self) -> &'a mut [T] {
        self.buf
    }

    /// The mutable view of `buf` with the given shape and stride.
    pub(crate) fn from_parts(
        buf: &'a mut [T],
        dim: (usize, usize, usize),
        stride: (usize, usize, usize),
    ) -> (v: Self)
        ensures
            v@ == (Strided { data: old(buf)@, dim: dim, stride: stride }),
            final(buf)@ == final(v.target())@,
    {
        Array3dViewMut { buf: buf, dim: dim, stride: stride }
    }

    /// Gives up the view for its buffer, shape and stride.
    pub(crate) fn into_parts(self) -> (parts: (
        &'a mut [T],
        (usize, usize, usize),
        (usize, usize, usize),
    ))
        ensures
            parts.0@ == self@.data,
            parts.1 == self@.dim,
            parts.2 == self@.stride,
            final(self.target())@ == final(parts.0)@,
    {
        (self.buf, self.dim, self.stride)
    }

    /// Once nothing more is written through the view, its buffer holds what
    /// the view shows.  A proof calls this where the view goes out of use,
    /// to carry what was written through it back to the array or slice
    /// that it was borrowed from.
    pub proof fn lemma_released(self)
        requires
            has_resolved(self),
        ensures
            final(self.target())@ == self@.data,
    {
    }

    pub fn dim(&self) -> (d: (usize, usize, usize))
        ensures
            d == self@.dim,
    {
        self.dim
    }

    pub fn stride(&self) -> (s: (usize, usize, usize))
        ensures
            s == self@.stride,
    {
        self.stride
    }

    /// The stretch of the buffer that the view refers to.
    pub fn as_slice(&self) -> (s: &[T])
        ensures
            s@ == self@.data,
    {
        &*self.buf
    }

    /// Lends the view's stretch of the buffer for writing.
    pub fn as_mut_slice(&mut self) -> (s: &mut [T])
        ensures
            s@ == old(self)@.data,
            final(self)@.data == final(s)@,
            final(self)@.dim == old(self)@.dim,
            final(self)@.stride == old(self)@.stride,
            final(final(self).target())@ == final(old(self).target())@,
    {
        &mut *self.buf
    }

    /// Whether the view is densely packed.
    pub fn is_contiguous(&self) -> (b: bool)
        requires
            self@.dim.stride_fits(),
        ensures
            b == self@.contiguous(),
    {
        let least: (usize, usize, usize) = self.dim.least_stride();
        self.stride.0 == least.0 && self.stride.1 == least.1 && self.stride.2 == least.2
    }

    /// The number of elements of a densely packed view whose buffer holds
    /// them all; nothing for a view with any other stride, or with a shape
    /// whose length does not fit.
    pub fn dense_len(&self) -> (r: Option<usize>)
        ensures
            r.is_some() <==> self@.wf() && self@.contiguous(),
            r matches Some(n) ==> n == self@.dim.spec_flat_len(),
    {
        match self.dim.checked_flat_len() {
            None => None,
            Some(n) => {
                let least: (usize, usize, usize) = self.dim.least_stride();
                let packed: bool = self.stride.0 == least.0
                    && self.stride.1 == least.1
                    && self.stride.2 == least.2;
                if packed && n <= self.buf.len() {
                    Some(n)
                } else {
                    None
                }
            },
        }
    }

    /// Overwrites the elements of the view with `c`; what lies in the
    /// buffer behind them stays as it is.  Only the densely packed layout
    /// is supported.
    pub fn set_constant(&'a mut self, c: T)
        requires
            old(self)@.wf(),
            old(self)@.contiguous(),
        ensures
            final(self)@.dim == old(self)@.dim,
            final(self)@.stride == old(self)@.stride,
            final(self)@.data == Seq::new(old(self)@.dim.spec_flat_len(), |i: int| c)
                + old(self)@.data.subrange(
                old(self)@.dim.spec_flat_len() as int,
                old(self)@.data.len() as int,
            ),
            final(final(self).target())@ == final(old(self).target())@,
    {
        let n: usize = self.dim.flat_len();
        let mut i: usize = 0;
        while i < n
            invariant
                i <= n,
                n <= self.buf@.len(),
                self.dim == old(self).dim,
                self.stride == old(self).stride,
                self.buf@.len() == old(self).buf@.len(),
                final(self.buf)@ == final(old(self).buf)@,
                forall|j: int| 0 <= j < i ==> self.buf@[j] == c,
                forall|j: int| i <= j < self.buf@.len() ==> self.buf@[j] == old(self).buf@[j],
            decreases n - i,
        {
            self.buf[i] = c;
            i += 1;
        }
        assert(self.buf@ =~= Seq::new(n as nat, |i: int| c) + old(self).buf@.subrange(
            n as int,
            old(self).buf@.len() as int,
        ));
    }
}

impl<'a, T: Copy> crate::traits::ViewMut<'a, (usize, usize, usize), Array3dViewMut<'a, T>>
    for Array3dViewMut<'a, T>
{
    open spec fn view_mut_requires(
        self,
        lo: (usize, usize, usize),
        hi: (usize, usize, usize),
    ) -> bool {
        self@.wf() && self@.window_fits(lo, hi)
    }

    /// The mutable window from `lo` to `hi`.  What lies before and after the
    /// window in the parent's buffer stays as it is.
    fn view_mut(
        self,
        lo: (usize, usize, usize),
        hi: (usize, usize, usize),
    ) -> (v: Array3dViewMut<'a, T>)
        ensures
            v@ == self@.window(lo, hi),
            v@.wf(),
            final(self.target())@ == self@.data.subrange(0, self@.window_start(lo) as int)
                + final(v.target())@ + self@.data.subrange(
                self@.window_end(lo, hi) as int,
                self@.data.len() as int,
            ),
    {
        proof {
            self.dim.lemma_covered_len(hi.spec_diff(lo));
        }
        let buf_len: usize = self.buf.len();
        let new_dim: (usize, usize, usize) = hi.diff(lo);
        let new_offset: usize = lo.offset(self.stride);
        let new_len: usize = new_dim.flat_len();
        let stride: (usize, usize, usize) = self.stride;
        let ghost whole = self.buf@;
        let (head, rest) = self.buf.split_at_mut(new_offset);
        let (mid, tail) = rest.split_at_mut(new_len);
        assert(mid@ =~= whole.subrange(new_offset as int, new_offset + new_len));
        assert(tail@ =~= whole.subrange(new_offset + new_len, whole.len() as int));
        Array3dViewMut { buf: mid, dim: new_dim, stride: stride }
    }
}

} // verus!
