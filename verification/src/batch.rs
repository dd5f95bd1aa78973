//! Batch containers: a fixed capacity of same-shaped elements behind one
//! view whose last axis is the batch in use.

use vstd::prelude::*;
use std::marker::PhantomData;
use std::ops::{Deref, DerefMut};
use crate::array2d::{Array2dView, Array2dViewMut};
use crate::array3d::{Array3dView, Array3dViewMut};
use crate::array4d::{Array4dView, Array4dViewMut};
use crate::index::{lemma_product_monotonic, ArrayIndex};
use crate::storage::{Storage, StorageMut};
use crate::strided::Strided;
use crate::zero::{zeroed, ZeroBits};

verus! {

/// A growable pool of elements of which the first `batch_size` are in use.
pub struct Batch<A> {
    elems: Vec<A>,
    batch_sz: usize,
}

impl<A> Batch<A> {
    /// The elements in use lie inside the pool.
    pub open spec fn wf(&self) -> bool {
        self.spec_batch_size() <= self.pool().len()
    }

    /// Every element the pool holds, in use or not.
    pub closed spec fn pool(&self) -> Seq<A> {
        self.elems@
    }

    /// How many elements are in use.
    pub closed spec fn spec_batch_size(&self) -> nat {
        self.batch_sz as nat
    }

    /// An empty pool.
    pub fn new() -> (b: Self)
        ensures
            b.wf(),
            b.pool() == Seq::<A>::empty(),
            b.spec_batch_size() == 0,
            b@ == Seq::<A>::empty(),
    {
        let b = Batch { elems: Vec::new(), batch_sz: 0 };
        assert(b@ =~= Seq::<A>::empty());
        b
    }

    pub fn batch_size(&self) -> (n: usize)
        ensures
            n == self.spec_batch_size(),
    {
        self.batch_sz
    }
}

impl<A> View for Batch<A> {
    type V = Seq<A>;

    /// The elements in use: the first `batch_size` of the pool.
    closed spec fn view(&self) -> Seq<A> {
        if self.batch_sz <= self.elems@.len() {
            self.elems@.subrange(0, self.batch_sz as int)
        } else {
            self.elems@
        }
    }
}

impl<A: Clone> Batch<A> {
    /// Sets how many elements are in use.  A pool that is too small grows
    /// to the new size by clones of `default_elem`; no element that the
    /// pool already holds is touched.
    pub fn set_batch_size(&mut self, new_batch_sz: usize, default_elem: A)
        ensures
            final(self).wf(),
            final(self).spec_batch_size() == new_batch_sz,
            new_batch_sz <= old(self).pool().len() ==> final(self).pool() == old(self).pool(),
            new_batch_sz > old(self).pool().len() ==> {
                &&& final(self).pool().len() == new_batch_sz
                &&& final(self).pool().subrange(0, old(self).pool().len() as int) == old(
                    self,
                ).pool()
                &&& forall|i: int|
                    old(self).pool().len() <= i < new_batch_sz ==> cloned::<A>(
                        default_elem,
                        #[trigger] final(self).pool()[i],
                    )
            },
            final(self)@ == final(self).pool().subrange(0, new_batch_sz as int),
    {
        if new_batch_sz > self.elems.len() {
            self.elems.resize(new_batch_sz, default_elem);
        }
        self.batch_sz = new_batch_sz;
    }
}

impl<A> Deref for Batch<A> {
    type Target = [A];

    /// The elements in use.
    fn deref(&self) -> (s: &[A])
        ensures
            s@ == self@,
    {
        if self.batch_sz <= self.elems.len() {
            vstd::slice::slice_subrange(self.elems.as_slice(), 0, self.batch_sz)
        } else {
            self.elems.as_slice()
        }
    }
}

impl<A> DerefMut for Batch<A> {
    /// The elements in use, for writing.  The pool behind them stays as it
    /// is.
    fn deref_mut(&mut self) -> (s: &mut [A])
        ensures
            s@ == old(self)@,
            final(self).spec_batch_size() == old(self).spec_batch_size(),
            final(self).pool() == final(s)@ + old(self).pool().skip(old(self)@.len() as int),
    {
        let n: usize = if self.batch_sz <= self.elems.len() {
            self.batch_sz
        } else {
            self.elems.len()
        };
        let (head, _tail) = self.elems.as_mut_slice().split_at_mut(n);
        head
    }
}

/// A batch of rank-one elements of one shape in one buffer.  The buffer
/// holds `max_batch_size` elements back to back; the view over the
/// container has one more axis, whose extent is the batch size in use and
/// whose stride is the flattened length of one element.
pub struct BatchArray1d<T, S = Vec<T>> where T: Copy, S: Storage<T> {
    buf: S,
    dim: usize,
    stride: usize,
    max_batch_sz: usize,
    batch_sz: usize,
    batch_stride: usize,
    _marker: PhantomData<T>,
}

impl<T: Copy, S: Storage<T>> View for BatchArray1d<T, S> {
    type V = Strided<(usize, usize), T>;

    /// The view that the container exposes.
    closed spec fn view(&self) -> Strided<(usize, usize), T> {
        Strided {
            data: self.buf.contents(),
            dim: (self.dim, self.batch_sz),
            stride: (self.stride, self.batch_stride),
        }
    }
}

impl<T: ZeroBits> BatchArray1d<T> {
    /// A container of `batch_cap` zeroed elements of shape `dim`.
    pub fn zeros(dim: usize, batch_cap: usize) -> (b: BatchArray1d<T>)
        requires
            dim.len_fits(),
            dim.spec_flat_len() * batch_cap <= usize::MAX,
        ensures
            b.wf(),
            b.spec_dim() == dim,
            b.spec_max_batch_size() == batch_cap,
            b.spec_batch_size() == batch_cap,
            b@.data == Seq::new(
                (dim.spec_flat_len() * batch_cap) as nat,
                |i: int| T::spec_zero_bits(),
            ),
    {
        let len: usize = dim.flat_len() * batch_cap;
        let data: Vec<T> = zeroed(len);
        Self::from_storage(dim, batch_cap, data)
    }
}

impl<T: Copy, S: Storage<T>> BatchArray1d<T, S> {
    /// The shape of one element.
    pub closed spec fn spec_dim(&self) -> usize {
        self.dim
    }

    /// The stride within one element.
    pub closed spec fn spec_stride(&self) -> usize {
        self.stride
    }

    /// How many elements the buffer holds.
    pub closed spec fn spec_max_batch_size(&self) -> usize {
        self.max_batch_sz
    }

    /// How many elements are in use.
    pub closed spec fn spec_batch_size(&self) -> usize {
        self.batch_sz
    }

    /// The distance in the buffer from one element to the next.
    pub closed spec fn spec_batch_stride(&self) -> usize {
        self.batch_stride
    }

    /// The layout every container has: elements densely packed back to
    /// back, the batch in use within the capacity, and the buffer exactly
    /// as long as the capacity needs.
    pub open spec fn wf(&self) -> bool {
        &&& self.spec_dim().len_fits()
        &&& self.spec_stride() == self.spec_dim().spec_least_stride()
        &&& self.spec_batch_stride() == self.spec_dim().spec_flat_len()
        &&& self.spec_batch_size() <= self.spec_max_batch_size()
        &&& self@.data.len() == self.spec_dim().spec_flat_len() * self.spec_max_batch_size()
        &&& self@.data.len() <= usize::MAX
        &&& self@.dim == (self.spec_dim(), self.spec_batch_size())
        &&& self@.wf()
        &&& self@.contiguous()
    }

    /// Wraps a buffer that holds exactly `batch_cap` elements of shape
    /// `dim`.  The whole capacity is in use at first.
    pub fn from_storage(dim: usize, batch_cap: usize, buf: S) -> (b: BatchArray1d<T, S>)
        requires
            dim.len_fits(),
            dim.spec_flat_len() * batch_cap == buf.contents().len(),
        ensures
            b.wf(),
            b.spec_dim() == dim,
            b.spec_max_batch_size() == batch_cap,
            b.spec_batch_size() == batch_cap,
            b@.data == buf.contents(),
    {
        let buf_len: usize = buf.as_slice().len();
        let b = BatchArray1d {
            buf: buf,
            dim: dim,
            stride: dim.least_stride(),
            max_batch_sz: batch_cap,
            batch_sz: batch_cap,
            batch_stride: dim.flat_len(),
            _marker: PhantomData,
        };
        proof {
            b.lemma_layout();
        }
        b
    }

    /// What the layout of the fields gives of the exposed view.
    proof fn lemma_layout(&self)
        requires
            self.dim.len_fits(),
            self.stride == self.dim.spec_least_stride(),
            self.batch_stride == self.dim.spec_flat_len(),
            self.batch_sz <= self.max_batch_sz,
            self.buf.contents().len() == self.dim.spec_flat_len() * self.max_batch_sz,
            self.buf.contents().len() <= usize::MAX,
        ensures
            self.wf(),
    {
        lemma_product_monotonic(
            self.dim.spec_flat_len() as int,
            self.dim.spec_flat_len() as int,
            self.batch_sz as int,
            self.max_batch_sz as int,
        );
    }

    pub fn dim(&self) -> (d: usize)
        ensures
            d == self.spec_dim(),
    {
        self.dim
    }

    pub fn stride(&self) -> (s: usize)
        ensures
            s == self.spec_stride(),
    {
        self.stride
    }

    pub fn batch_size(&self) -> (n: usize)
        ensures
            n == self.spec_batch_size(),
    {
        self.batch_sz
    }

    /// Sets how many elements are in use.  Nothing is moved or allocated:
    /// only the last extent of the exposed view changes.
    pub fn set_batch_size(&mut self, new_batch_sz: usize)
        requires
            old(self).wf(),
            new_batch_sz <= old(self).spec_max_batch_size(),
        ensures
            final(self).wf(),
            final(self).spec_batch_size() == new_batch_sz,
            final(self).spec_dim() == old(self).spec_dim(),
            final(self).spec_stride() == old(self).spec_stride(),
            final(self).spec_max_batch_size() == old(self).spec_max_batch_size(),
            final(self).spec_batch_stride() == old(self).spec_batch_stride(),
            final(self)@.data == old(self)@.data,
            final(self)@.stride == old(self)@.stride,
            final(self)@.dim == old(self)@.dim.spec_outer(new_batch_sz),
            final(self)@.dim.spec_last() == new_batch_sz,
    {
        self.batch_sz = new_batch_sz;
        proof {
            self.lemma_layout();
        }
    }
}

impl<'a, T: Copy, S: Storage<T>> crate::traits::AsView<'a, Array2dView<'a, T>>
    for BatchArray1d<T, S>
{
    open spec fn as_view_requires(&self) -> bool {
        true
    }

    /// The view over the batch in use.
    fn as_view(&'a self) -> (v: Array2dView<'a, T>)
        ensures
            v@ == self@,
    {
        Array2dView::from_parts(
            self.buf.as_slice(),
            (self.dim, self.batch_sz),
            (self.stride, self.batch_stride),
        )
    }
}

impl<'a, T: Copy, S: StorageMut<T>> crate::traits::AsViewMut<'a, Array2dViewMut<'a, T>>
    for BatchArray1d<T, S>
{
    open spec fn as_view_mut_requires(&self) -> bool {
        true
    }

    /// The mutable view over the batch in use.
    fn as_view_mut(&'a mut self) -> (v: Array2dViewMut<'a, T>)
        ensures
            v@ == old(self)@,
            final(self)@.data == final(v.target())@,
            final(self)@.dim == old(self)@.dim,
            final(self)@.stride == old(self)@.stride,
            final(self).spec_dim() == old(self).spec_dim(),
            final(self).spec_stride() == old(self).spec_stride(),
            final(self).spec_max_batch_size() == old(self).spec_max_batch_size(),
            final(self).spec_batch_size() == old(self).spec_batch_size(),
            final(self).spec_batch_stride() == old(self).spec_batch_stride(),
    {
        let dim: (usize, usize) = (self.dim, self.batch_sz);
        let stride: (usize, usize) = (self.stride, self.batch_stride);
        Array2dViewMut::from_parts(self.buf.as_mut_slice(), dim, stride)
    }
}

/// A batch of rank-two elements of one shape in one buffer.  The buffer
/// holds `max_batch_size` elements back to back; the view over the
/// container has one more axis, whose extent is the batch size in use and
/// whose stride is the flattened length of one element.
pub struct BatchArray2d<T, S = Vec<T>> where T: Copy, S: Storage<T> {
    buf: S,
    dim: (usize, usize),
    stride: (usize, usize),
    max_batch_sz: usize,
    batch_sz: usize,
    batch_stride: usize,
    _marker: PhantomData<T>,
}

impl<T: Copy, S: Storage<T>> View for BatchArray2d<T, S> {
    type V = Strided<(usize, usize, usize), T>;

    /// The view that the container exposes.
    closed spec fn view(&self) -> Strided<(usize, usize, usize), T> {
        Strided {
            data: self.buf.contents(),
            dim: (self.dim.0, self.dim.1, self.batch_sz),
            stride: (self.stride.0, self.stride.1, self.batch_stride),
        }
    }
}

impl<T: ZeroBits> BatchArray2d<T> {
    /// A container of `batch_cap` zeroed elements of shape `dim`.
    pub fn zeros(dim: (usize, usize), batch_cap: usize) -> (b: BatchArray2d<T>)
        requires
            dim.len_fits(),
            dim.spec_flat_len() * batch_cap <= usize::MAX,
        ensures
            b.wf(),
            b.spec_dim() == dim,
            b.spec_max_batch_size() == batch_cap,
            b.spec_batch_size() == batch_cap,
            b@.data == Seq::new(
                (dim.spec_flat_len() * batch_cap) as nat,
                |i: int| T::spec_zero_bits(),
            ),
    {
        let len: usize = dim.flat_len() * batch_cap;
        let data: Vec<T> = zeroed(len);
        Self::from_storage(dim, batch_cap, data)
    }
}

impl<T: Copy, S: Storage<T>> BatchArray2d<T, S> {
    /// The shape of one element.
    pub closed spec fn spec_dim(&self) -> (usize, usize) {
        self.dim
    }

    /// The stride within one element.
    pub closed spec fn spec_stride(&self) -> (usize, usize) {
        self.stride
    }

    /// How many elements the buffer holds.
    pub closed spec fn spec_max_batch_size(&self) -> usize {
        self.max_batch_sz
    }

    /// How many elements are in use.
    pub closed spec fn spec_batch_size(&self) -> usize {
        self.batch_sz
    }

    /// The distance in the buffer from one element to the next.
    pub closed spec fn spec_batch_stride(&self) -> usize {
        self.batch_stride
    }

    /// The layout every container has: elements densely packed back to
    /// back, the batch in use within the capacity, and the buffer exactly
    /// as long as the capacity needs.
    pub open spec fn wf(&self) -> bool {
        &&& self.spec_dim().len_fits()
        &&& self.spec_stride() == self.spec_dim().spec_least_stride()
        &&& self.spec_batch_stride() == self.spec_dim().spec_flat_len()
        &&& self.spec_batch_size() <= self.spec_max_batch_size()
        &&& self@.data.len() == self.spec_dim().spec_flat_len() * self.spec_max_batch_size()
        &&& self@.data.len() <= usize::MAX
        &&& self@.dim == (self.spec_dim().0, self.spec_dim().1, self.spec_batch_size())
        &&& self@.wf()
        &&& self@.contiguous()
    }

    /// Wraps a buffer that holds exactly `batch_cap` elements of shape
    /// `dim`.  The whole capacity is in use at first.
    pub fn from_storage(dim: (usize, usize), batch_cap: usize, buf: S) -> (b: BatchArray2d<T, S>)
        requires
            dim.len_fits(),
            dim.spec_flat_len() * batch_cap == buf.contents().len(),
        ensures
            b.wf(),
            b.spec_dim() == dim,
            b.spec_max_batch_size() == batch_cap,
            b.spec_batch_size() == batch_cap,
            b@.data == buf.contents(),
    {
        let buf_len: usize = buf.as_slice().len();
        let b = BatchArray2d {
            buf: buf,
            dim: dim,
            stride: dim.least_stride(),
            max_batch_sz: batch_cap,
            batch_sz: batch_cap,
            batch_stride: dim.flat_len(),
            _marker: PhantomData,
        };
        proof {
            b.lemma_layout();
        }
        b
    }

    /// What the layout of the fields gives of the exposed view.
    proof fn lemma_layout(&self)
        requires
            self.dim.len_fits(),
            self.stride == self.dim.spec_least_stride(),
            self.batch_stride == self.dim.spec_flat_len(),
            self.batch_sz <= self.max_batch_sz,
            self.buf.contents().len() == self.dim.spec_flat_len() * self.max_batch_sz,
            self.buf.contents().len() <= usize::MAX,
        ensures
            self.wf(),
    {
        lemma_product_monotonic(
            self.dim.spec_flat_len() as int,
            self.dim.spec_flat_len() as int,
            self.batch_sz as int,
            self.max_batch_sz as int,
        );
    }

    pub fn dim(&self) -> (d: (usize, usize))
        ensures
            d == self.spec_dim(),
    {
        self.dim
    }

    pub fn stride(&self) -> (s: (usize, usize))
        ensures
            s == self.spec_stride(),
    {
        self.stride
    }

    pub fn batch_size(&self) -> (n: usize)
        ensures
            n == self.spec_batch_size(),
    {
        self.batch_sz
    }

    /// Sets how many elements are in use.  Nothing is moved or allocated:
    /// only the last extent of the exposed view changes.
    pub fn set_batch_size(&mut self, new_batch_sz: usize)
        requires
            old(self).wf(),
            new_batch_sz <= old(self).spec_max_batch_size(),
        ensures
            final(self).wf(),
            final(self).spec_batch_size() == new_batch_sz,
            final(self).spec_dim() == old(self).spec_dim(),
            final(self).spec_stride() == old(self).spec_stride(),
            final(self).spec_max_batch_size() == old(self).spec_max_batch_size(),
            final(self).spec_batch_stride() == old(self).spec_batch_stride(),
            final(self)@.data == old(self)@.data,
            final(self)@.stride == old(self)@.stride,
            final(self)@.dim == old(self)@.dim.spec_outer(new_batch_sz),
            final(self)@.dim.spec_last() == new_batch_sz,
    {
        self.batch_sz = new_batch_sz;
        proof {
            self.lemma_layout();
        }
    }
}

impl<'a, T: Copy, S: Storage<T>> crate::traits::AsView<'a, Array3dView<'a, T>>
    for BatchArray2d<T, S>
{
    open spec fn as_view_requires(&self) -> bool {
        true
    }

    /// The view over the batch in use.
    fn as_view(&'a self) -> (v: Array3dView<'a, T>)
        ensures
            v@ == self@,
    {
        Array3dView::from_parts(
            self.buf.as_slice(),
            (self.dim.0, self.dim.1, self.batch_sz),
            (self.stride.0, self.stride.1, self.batch_stride),
        )
    }
}

impl<'a, T: Copy, S: StorageMut<T>> crate::traits::AsViewMut<'a, Array3dViewMut<'a, T>>
    for BatchArray2d<T, S>
{
    open spec fn as_view_mut_requires(&self) -> bool {
        true
    }

    /// The mutable view over the batch in use.
    fn as_view_mut(&'a mut self) -> (v: Array3dViewMut<'a, T>)
        ensures
            v@ == old(self)@,
            final(self)@.data == final(v.target())@,
            final(self)@.dim == old(self)@.dim,
            final(self)@.stride == old(self)@.stride,
            final(self).spec_dim() == old(self).spec_dim(),
            final(self).spec_stride() == old(self).spec_stride(),
            final(self).spec_max_batch_size() == old(self).spec_max_batch_size(),
            final(self).spec_batch_size() == old(self).spec_batch_size(),
            final(self).spec_batch_stride() == old(self).spec_batch_stride(),
    {
        let dim: (usize, usize, usize) = (self.dim.0, self.dim.1, self.batch_sz);
        let stride: (usize, usize, usize) = (self.stride.0, self.stride.1, self.batch_stride);
        Array3dViewMut::from_parts(self.buf.as_mut_slice(), dim, stride)
    }
}

/// A batch of rank-three elements of one shape in one buffer.  The buffer
/// holds `max_batch_size` elements back to back; the view over the
/// container has one more axis, whose extent is the batch size in use and
/// whose stride is the flattened length of one element.
pub struct BatchArray3d<T, S = Vec<T>> where T: Copy, S: Storage<T> {
    buf: S,
    dim: (usize, usize, usize),
    stride: (usize, usize, usize),
    max_batch_sz: usize,
    batch_sz: usize,
    batch_stride: usize,
    _marker: PhantomData<T>,
}

impl<T: Copy, S: Storage<T>> View for BatchArray3d<T, S> {
    type V = Strided<(usize, usize, usize, usize), T>;

    /// The view that the container exposes.
    closed spec fn view(&self) -> Strided<(usize, usize, usize, usize), T> {
        Strided {
            data: self.buf.contents(),
            dim: (self.dim.0, self.dim.1, self.dim.2, self.batch_sz),
            stride: (self.stride.0, self.stride.1, self.stride.2, self.batch_stride),
        }
    }
}

impl<T: ZeroBits> BatchArray3d<T> {
    /// A container of `batch_cap` zeroed elements of shape `dim`.
    pub fn zeros(dim: (usize, usize, usize), batch_cap: usize) -> (b: BatchArray3d<T>)
        requires
            dim.len_fits(),
            dim.spec_flat_len() * batch_cap <= usize::MAX,
        ensures
            b.wf(),
            b.spec_dim() == dim,
            b.spec_max_batch_size() == batch_cap,
            b.spec_batch_size() == batch_cap,
            b@.data == Seq::new(
                (dim.spec_flat_len() * batch_cap) as nat,
                |i: int| T::spec_zero_bits(),
            ),
    {
        let len: usize = dim.flat_len() * batch_cap;
        let data: Vec<T> = zeroed(len);
        Self::from_storage(dim, batch_cap, data)
    }
}

impl<T: Copy, S: Storage<T>> BatchArray3d<T, S> {
    /// The shape of one element.
    pub closed spec fn spec_dim(&self) -> (usize, usize, usize) {
        self.dim
    }

    /// The stride within one element.
    pub closed spec fn spec_stride(&self) -> (usize, usize, usize) {
        self.stride
    }

    /// How many elements the buffer holds.
    pub closed spec fn spec_max_batch_size(&self) -> usize {
        self.max_batch_sz
    }

    /// How many elements are in use.
    pub closed spec fn spec_batch_size(&self) -> usize {
        self.batch_sz
    }

    /// The distance in the buffer from one element to the next.
    pub closed spec fn spec_batch_stride(&self) -> usize {
        self.batch_stride
    }

    /// The layout every container has: elements densely packed back to
    /// back, the batch in use within the capacity, and the buffer exactly
    /// as long as the capacity needs.
    pub open spec fn wf(&self) -> bool {
        &&& self.spec_dim().len_fits()
        &&& self.spec_stride() == self.spec_dim().spec_least_stride()
        &&& self.spec_batch_stride() == self.spec_dim().spec_flat_len()
        &&& self.spec_batch_size() <= self.spec_max_batch_size()
        &&& self@.data.len() == self.spec_dim().spec_flat_len() * self.spec_max_batch_size()
        &&& self@.data.len() <= usize::MAX
        &&& self@.dim == (
            self.spec_dim().0,
            self.spec_dim().1,
            self.spec_dim().2,
            self.spec_batch_size(),
        )
        &&& self@.wf()
        &&& self@.contiguous()
    }

    /// Wraps a buffer that holds exactly `batch_cap` elements of shape
    /// `dim`.  The whole capacity is in use at first.
    pub fn from_storage(
        dim: (usize, usize, usize),
        batch_cap: usize,
        buf: S,
    ) -> (b: BatchArray3d<T, S>)
        requires
            dim.len_fits(),
            dim.spec_flat_len() * batch_cap == buf.contents().len(),
        ensures
            b.wf(),
            b.spec_dim() == dim,
            b.spec_max_batch_size() == batch_cap,
            b.spec_batch_size() == batch_cap,
            b@.data == buf.contents(),
    {
        let buf_len: usize = buf.as_slice().len();
        let b = BatchArray3d {
            buf: buf,
            dim: dim,
            stride: dim.least_stride(),
            max_batch_sz: batch_cap,
            batch_sz: batch_cap,
            batch_stride: dim.flat_len(),
            _marker: PhantomData,
        };
        proof {
            b.lemma_layout();
        }
        b
    }

    /// What the layout of the fields gives of the exposed view.
    proof fn lemma_layout(&self)
        requires
            self.dim.len_fits(),
            self.stride == self.dim.spec_least_stride(),
            self.batch_stride == self.dim.spec_flat_len(),
            self.batch_sz <= self.max_batch_sz,
            self.buf.contents().len() == self.dim.spec_flat_len() * self.max_batch_sz,
            self.buf.contents().len() <= usize::MAX,
        ensures
            self.wf(),
    {
        lemma_product_monotonic(
            self.dim.spec_flat_len() as int,
            self.dim.spec_flat_len() as int,
            self.batch_sz as int,
            self.max_batch_sz as int,
        );
    }

    pub fn dim(&self) -> (d: (usize, usize, usize))
        ensures
            d == self.spec_dim(),
    {
        self.dim
    }

    pub fn stride(&self) -> (s: (usize, usize, usize))
        ensures
            s == self.spec_stride(),
    {
        self.stride
    }

    pub fn batch_size(&self) -> (n: usize)
        ensures
            n == self.spec_batch_size(),
    {
        self.batch_sz
    }

    /// Sets how many elements are in use.  Nothing is moved or allocated:
    /// only the last extent of the exposed view changes.
    pub fn set_batch_size(&mut self, new_batch_sz: usize)
        requires
            old(self).wf(),
            new_batch_sz <= old(self).spec_max_batch_size(),
        ensures
            final(self).wf(),
            final(self).spec_batch_size() == new_batch_sz,
            final(self).spec_dim() == old(self).spec_dim(),
            final(self).spec_stride() == old(self).spec_stride(),
            final(self).spec_max_batch_size() == old(self).spec_max_batch_size(),
            final(self).spec_batch_stride() == old(self).spec_batch_stride(),
            final(self)@.data == old(self)@.data,
            final(self)@.stride == old(self)@.stride,
            final(self)@.dim == old(self)@.dim.spec_outer(new_batch_sz),
            final(self)@.dim.spec_last() == new_batch_sz,
    {
        self.batch_sz = new_batch_sz;
        proof {
            self.lemma_layout();
        }
    }
}

impl<'a, T: Copy, S: Storage<T>> crate::traits::AsView<'a, Array4dView<'a, T>>
    for BatchArray3d<T, S>
{
    open spec fn as_view_requires(&self) -> bool {
        true
    }

    /// The view over the batch in use.
    fn as_view(&'a self) -> (v: Array4dView<'a, T>)
        ensures
            v@ == self@,
    {
        Array4dView::from_parts(
            self.buf.as_slice(),
            (self.dim.0, self.dim.1, self.dim.2, self.batch_sz),
            (self.stride.0, self.stride.1, self.stride.2, self.batch_stride),
        )
    }
}

impl<'a, T: Copy, S: StorageMut<T>> crate::traits::AsViewMut<'a, Array4dViewMut<'a, T>>
    for BatchArray3d<T, S>
{
    open spec fn as_view_mut_requires(&self) -> bool {
        true
    }

    /// The mutable view over the batch in use.
    fn as_view_mut(&'a mut self) -> (v: Array4dViewMut<'a, T>)
        ensures
            v@ == old(self)@,
            final(self)@.data == final(v.target())@,
            final(self)@.dim == old(self)@.dim,
            final(self)@.stride == old(self)@.stride,
            final(self).spec_dim() == old(self).spec_dim(),
            final(self).spec_stride() == old(self).spec_stride(),
            final(self).spec_max_batch_size() == old(self).spec_max_batch_size(),
            final(self).spec_batch_size() == old(self).spec_batch_size(),
            final(self).spec_batch_stride() == old(self).spec_batch_stride(),
    {
        let dim: (usize, usize, usize, usize) = (self.dim.0, self.dim.1, self.dim.2, self.batch_sz);
        let stride: (usize, usize, usize, usize) = (
            self.stride.0,
            self.stride.1,
            self.stride.2,
            self.batch_stride,
        );
        Array4dViewMut::from_parts(self.buf.as_mut_slice(), dim, stride)
    }
}

} // verus!
