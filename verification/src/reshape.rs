//! Reshaping and flattening: the same elements under another shape.
//!
//! No operation here moves or copies an element.  Changing the rank of a
//! view asks that the view be densely packed; a view with any other stride
//! is excluded by the precondition.  The one exception joins a unit axis to
//! a rank-one view of any stride, which keeps the view's stride.

use vstd::prelude::*;
use crate::array1d::{Array1dView, Array1dViewMut};
use crate::array2d::{Array2dView, Array2dViewMut};
use crate::array3d::{Array3dView, Array3dViewMut};
use crate::array4d::{Array4dView, Array4dViewMut};
use crate::index::ArrayIndex;
use crate::strided::packed;
use crate::traits::{Flatten, FlattenMut, Reshape, ReshapeMut};

verus! {

impl<'a, T: Copy> Flatten<'a, Array1dView<'a, T>> for &'a [T] {
    open spec fn flatten_requires(self) -> bool {
        true
    }

    /// The slice as a rank-one view of all its elements.
    fn flatten(self) -> (v: Array1dView<'a, T>)
        ensures
            v@ == packed(self@, self@.len() as usize),
            v@.wf(),
    {
        let len: usize = self.len();
        self.reshape(len)
    }
}

impl<'a, T: Copy> Reshape<'a, usize, Array1dView<'a, T>> for &'a [T] {
    open spec fn reshape_requires(self, dim: usize) -> bool {
        dim.spec_flat_len() <= self@.len()
    }

    /// The slice, taken as densely packed, as a view of shape `dim`.
    fn reshape(self, dim: usize) -> (v: Array1dView<'a, T>)
        ensures
            v@ == packed(self@, dim),
            v@.wf(),
    {
        Array1dView::from_parts(self, dim, dim.least_stride())
    }
}

impl<'a, T: Copy> FlattenMut<'a, Array1dViewMut<'a, T>> for &'a mut [T] {
    open spec fn flatten_mut_requires(self) -> bool {
        true
    }

    fn flatten_mut(self) -> (v: Array1dViewMut<'a, T>)
        ensures
            v@ == packed(old(self)@, old(self)@.len() as usize),
            v@.wf(),
            final(self)@ == final(v.target())@,
    {
        let len: usize = self.len();
        self.reshape_mut(len)
    }
}

impl<'a, T: Copy> ReshapeMut<'a, usize, Array1dViewMut<'a, T>> for &'a mut [T] {
    open spec fn reshape_mut_requires(self, dim: usize) -> bool {
        dim.spec_flat_len() <= self@.len()
    }

    fn reshape_mut(self, dim: usize) -> (v: Array1dViewMut<'a, T>)
        ensures
            v@ == packed(old(self)@, dim),
            v@.wf(),
            final(self)@ == final(v.target())@,
    {
        Array1dViewMut::from_parts(self, dim, dim.least_stride())
    }
}

impl<'a, T: Copy> Reshape<'a, (usize, usize), Array2dView<'a, T>> for &'a [T] {
    open spec fn reshape_requires(self, dim: (usize, usize)) -> bool {
        dim.len_fits() && dim.spec_flat_len() <= self@.len()
    }

    fn reshape(self, dim: (usize, usize)) -> (v: Array2dView<'a, T>)
        ensures
            v@ == packed(self@, dim),
            v@.wf(),
    {
        Array2dView::from_parts(self, dim, dim.least_stride())
    }
}

impl<'a, T: Copy> ReshapeMut<'a, (usize, usize), Array2dViewMut<'a, T>> for &'a mut [T] {
    open spec fn reshape_mut_requires(self, dim: (usize, usize)) -> bool {
        dim.len_fits() && dim.spec_flat_len() <= self@.len()
    }

    fn reshape_mut(self, dim: (usize, usize)) -> (v: Array2dViewMut<'a, T>)
        ensures
            v@ == packed(old(self)@, dim),
            v@.wf(),
            final(self)@ == final(v.target())@,
    {
        Array2dViewMut::from_parts(self, dim, dim.least_stride())
    }
}

impl<'a, T: Copy> Reshape<'a, (usize, usize, usize), Array3dView<'a, T>> for &'a [T] {
    open spec fn reshape_requires(self, dim: (usize, usize, usize)) -> bool {
        dim.len_fits() && dim.spec_flat_len() <= self@.len()
    }

    fn reshape(self, dim: (usize, usize, usize)) -> (v: Array3dView<'a, T>)
        ensures
            v@ == packed(self@, dim),
            v@.wf(),
    {
        Array3dView::from_parts(self, dim, dim.least_stride())
    }
}

impl<'a, T: Copy> ReshapeMut<'a, (usize, usize, usize), Array3dViewMut<'a, T>> for &'a mut [T] {
    open spec fn reshape_mut_requires(self, dim: (usize, usize, usize)) -> bool {
        dim.len_fits() && dim.spec_flat_len() <= self@.len()
    }

    fn reshape_mut(self, dim: (usize, usize, usize)) -> (v: Array3dViewMut<'a, T>)
        ensures
            v@ == packed(old(self)@, dim),
            v@.wf(),
            final(self)@ == final(v.target())@,
    {
        Array3dViewMut::from_parts(self, dim, dim.least_stride())
    }
}

impl<'a, T: Copy> Reshape<'a, (usize, usize, usize, usize), Array4dView<'a, T>> for &'a [T] {
    open spec fn reshape_requires(self, dim: (usize, usize, usize, usize)) -> bool {
        dim.len_fits() && dim.spec_flat_len() <= self@.len()
    }

    fn reshape(self, dim: (usize, usize, usize, usize)) -> (v: Array4dView<'a, T>)
        ensures
            v@ == packed(self@, dim),
            v@.wf(),
    {
        Array4dView::from_parts(self, dim, dim.least_stride())
    }
}

impl<'a, T: Copy> ReshapeMut<
    'a,
    (usize, usize, usize, usize),
    Array4dViewMut<'a, T>,
> for &'a mut [T] {
    open spec fn reshape_mut_requires(self, dim: (usize, usize, usize, usize)) -> bool {
        dim.len_fits() && dim.spec_flat_len() <= self@.len()
    }

    fn reshape_mut(self, dim: (usize, usize, usize, usize)) -> (v: Array4dViewMut<'a, T>)
        ensures
            v@ == packed(old(self)@, dim),
            v@.wf(),
            final(self)@ == final(v.target())@,
    {
        Array4dViewMut::from_parts(self, dim, dim.least_stride())
    }
}

impl<'a, T: Copy> Reshape<'a, (usize, usize), Array2dView<'a, T>> for Array1dView<'a, T> {
    /// A densely packed view takes every shape of as many elements.  A
    /// view with another stride takes only a unit axis, before or behind
    /// its own.
    open spec fn reshape_requires(self, dim: (usize, usize)) -> bool {
        &&& self@.wf()
        &&& (self@.contiguous() && dim.len_fits() && dim.spec_flat_len()
            == self@.dim.spec_flat_len()) || (self@.promotes_to(dim) && (dim.1 == 1
            ==> self@.stride * self@.dim <= usize::MAX))
    }

    /// The same elements as a rank-two view.  A densely packed view comes
    /// out densely packed in the new shape; a view with another stride
    /// keeps its stride on the axis that carries the elements.
    fn reshape(self, dim: (usize, usize)) -> (v: Array2dView<'a, T>)
        ensures
            v@.wf(),
            v@.dim == dim,
            v@.data == self@.data,
            self@.contiguous() ==> v@ == self@.repacked(dim),
            !self@.contiguous() ==> v@ == self@.promoted(dim),
    {
        proof {
            if self@.promotes_to(dim) {
                lemma_unit_axis_len(self@.dim, dim);
            }
        }
        if self.stride() == 1 {
            Array2dView::from_parts(self.as_slice(), dim, dim.least_stride())
        } else if dim.1 == 1 {
            Array2dView::from_parts(
                self.as_slice(),
                dim,
                (self.stride(), self.stride() * self.dim()),
            )
        } else {
            Array2dView::from_parts(self.as_slice(), dim, (1, self.stride()))
        }
    }
}

impl<'a, T: Copy> ReshapeMut<'a, (usize, usize), Array2dViewMut<'a, T>> for Array1dViewMut<
    'a,
    T,
> {
    open spec fn reshape_mut_requires(self, dim: (usize, usize)) -> bool {
        &&& self@.wf()
        &&& (self@.contiguous() && dim.len_fits() && dim.spec_flat_len()
            == self@.dim.spec_flat_len()) || (self@.promotes_to(dim) && (dim.1 == 1
            ==> self@.stride * self@.dim <= usize::MAX))
    }

    fn reshape_mut(self, dim: (usize, usize)) -> (v: Array2dViewMut<'a, T>)
        ensures
            v@.wf(),
            v@.dim == dim,
            v@.data == self@.data,
            self@.contiguous() ==> v@ == self@.repacked(dim),
            !self@.contiguous() ==> v@ == self@.promoted(dim),
            final(self.target())@ == final(v.target())@,
    {
        proof {
            if self@.promotes_to(dim) {
                lemma_unit_axis_len(self@.dim, dim);
            }
        }
        let (buf, n, stride) = self.into_parts();
        if stride == 1 {
            Array2dViewMut::from_parts(buf, dim, dim.least_stride())
        } else if dim.1 == 1 {
            Array2dViewMut::from_parts(buf, dim, (stride, stride * n))
        } else {
            Array2dViewMut::from_parts(buf, dim, (1, stride))
        }
    }
}

impl<'a, T: Copy> Reshape<'a, (usize, usize, usize), Array3dView<'a, T>> for Array1dView<'a, T> {
    open spec fn reshape_requires(self, dim: (usize, usize, usize)) -> bool {
        &&& self@.wf()
        &&& self@.contiguous()
        &&& dim.len_fits()
        &&& dim.spec_flat_len() == self@.dim.spec_flat_len()
    }

    /// The densely packed rank-one view as a densely packed view of as
    /// many elements in shape `dim`.
    fn reshape(self, dim: (usize, usize, usize)) -> (v: Array3dView<'a, T>)
        ensures
            v@ == self@.repacked(dim),
            v@.wf(),
    {
        Array3dView::from_parts(self.as_slice(), dim, dim.least_stride())
    }
}

impl<'a, T: Copy> ReshapeMut<'a, (usize, usize, usize), Array3dViewMut<'a, T>>
    for Array1dViewMut<'a, T>
{
    open spec fn reshape_mut_requires(self, dim: (usize, usize, usize)) -> bool {
        &&& self@.wf()
        &&& self@.contiguous()
        &&& dim.len_fits()
        &&& dim.spec_flat_len() == self@.dim.spec_flat_len()
    }

    fn reshape_mut(self, dim: (usize, usize, usize)) -> (v: Array3dViewMut<'a, T>)
        ensures
            v@ == self@.repacked(dim),
            v@.wf(),
            final(self.target())@ == final(v.target())@,
    {
        let (buf, _n, _stride) = self.into_parts();
        Array3dViewMut::from_parts(buf, dim, dim.least_stride())
    }
}

impl<'a, T: Copy> Reshape<'a, (usize, usize, usize, usize), Array4dView<'a, T>>
    for Array1dView<'a, T>
{
    open spec fn reshape_requires(self, dim: (usize, usize, usize, usize)) -> bool {
        &&& self@.wf()
        &&& self@.contiguous()
        &&& dim.len_fits()
        &&& dim.spec_flat_len() == self@.dim.spec_flat_len()
    }

    /// The densely packed rank-one view as a densely packed view of as
    /// many elements in shape `dim`.
    fn reshape(self, dim: (usize, usize, usize, usize)) -> (v: Array4dView<'a, T>)
        ensures
            v@ == self@.repacked(dim),
            v@.wf(),
    {
        Array4dView::from_parts(self.as_slice(), dim, dim.least_stride())
    }
}

impl<'a, T: Copy> ReshapeMut<'a, (usize, usize, usize, usize), Array4dViewMut<'a, T>>
    for Array1dViewMut<'a, T>
{
    open spec fn reshape_mut_requires(self, dim: (usize, usize, usize, usize)) -> bool {
        &&& self@.wf()
        &&& self@.contiguous()
        &&& dim.len_fits()
        &&& dim.spec_flat_len() == self@.dim.spec_flat_len()
    }

    fn reshape_mut(self, dim: (usize, usize, usize, usize)) -> (v: Array4dViewMut<'a, T>)
        ensures
            v@ == self@.repacked(dim),
            v@.wf(),
            final(self.target())@ == final(v.target())@,
    {
        let (buf, _n, _stride) = self.into_parts();
        Array4dViewMut::from_parts(buf, dim, dim.least_stride())
    }
}

impl<'a, T: Copy> Flatten<'a, Array1dView<'a, T>> for Array2dView<'a, T> {
    open spec fn flatten_requires(self) -> bool {
        self@.wf() && self@.contiguous()
    }

    /// The densely packed view as a rank-one view of all its elements.
    fn flatten(self) -> (v: Array1dView<'a, T>)
        ensures
            v@ == self@.repacked(self@.dim.spec_flat_len() as usize),
            v@.wf(),
    {
        let len: usize = self.dim().flat_len();
        self.reshape(len)
    }
}

impl<'a, T: Copy> Reshape<'a, usize, Array1dView<'a, T>> for Array2dView<'a, T> {
    open spec fn reshape_requires(self, dim: usize) -> bool {
        &&& self@.wf()
        &&& self@.contiguous()
        &&& self@.dim.spec_flat_len() == dim.spec_flat_len()
    }

    fn reshape(self, dim: usize) -> (v: Array1dView<'a, T>)
        ensures
            v@ == self@.repacked(dim),
            v@.wf(),
    {
        Array1dView::from_parts(self.as_slice(), dim, 1)
    }
}

impl<'a, T: Copy> FlattenMut<'a, Array1dViewMut<'a, T>> for Array2dViewMut<'a, T> {
    open spec fn flatten_mut_requires(self) -> bool {
        self@.wf() && self@.contiguous()
    }

    fn flatten_mut(self) -> (v: Array1dViewMut<'a, T>)
        ensures
            v@ == self@.repacked(self@.dim.spec_flat_len() as usize),
            v@.wf(),
            final(self.target())@ == final(v.target())@,
    {
        let len: usize = self.dim().flat_len();
        self.reshape_mut(len)
    }
}

impl<'a, T: Copy> ReshapeMut<'a, usize, Array1dViewMut<'a, T>> for Array2dViewMut<'a, T> {
    open spec fn reshape_mut_requires(self, dim: usize) -> bool {
        &&& self@.wf()
        &&& self@.contiguous()
        &&& self@.dim.spec_flat_len() == dim.spec_flat_len()
    }

    fn reshape_mut(self, dim: usize) -> (v: Array1dViewMut<'a, T>)
        ensures
            v@ == self@.repacked(dim),
            v@.wf(),
            final(self.target())@ == final(v.target())@,
    {
        let (buf, _dim, _stride) = self.into_parts();
        Array1dViewMut::from_parts(buf, dim, 1)
    }
}

impl<'a, T: Copy> Flatten<'a, Array1dView<'a, T>> for Array3dView<'a, T> {
    open spec fn flatten_requires(self) -> bool {
        self@.wf() && self@.contiguous()
    }

    /// The densely packed view as a rank-one view of all its elements.
    fn flatten(self) -> (v: Array1dView<'a, T>)
        ensures
            v@ == self@.repacked(self@.dim.spec_flat_len() as usize),
            v@.wf(),
    {
        let len: usize = self.dim().flat_len();
        self.reshape(len)
    }
}

impl<'a, T: Copy> Reshape<'a, usize, Array1dView<'a, T>> for Array3dView<'a, T> {
    open spec fn reshape_requires(self, dim: usize) -> bool {
        &&& self@.wf()
        &&& self@.contiguous()
        &&& self@.dim.spec_flat_len() == dim.spec_flat_len()
    }

    fn reshape(self, dim: usize) -> (v: Array1dView<'a, T>)
        ensures
            v@ == self@.repacked(dim),
            v@.wf(),
    {
        Array1dView::from_parts(self.as_slice(), dim, 1)
    }
}

impl<'a, T: Copy> FlattenMut<'a, Array1dViewMut<'a, T>> for Array3dViewMut<'a, T> {
    open spec fn flatten_mut_requires(self) -> bool {
        self@.wf() && self@.contiguous()
    }

    fn flatten_mut(self) -> (v: Array1dViewMut<'a, T>)
        ensures
            v@ == self@.repacked(self@.dim.spec_flat_len() as usize),
            v@.wf(),
            final(self.target())@ == final(v.target())@,
    {
        let len: usize = self.dim().flat_len();
        self.reshape_mut(len)
    }
}

impl<'a, T: Copy> ReshapeMut<'a, usize, Array1dViewMut<'a, T>> for Array3dViewMut<'a, T> {
    open spec fn reshape_mut_requires(self, dim: usize) -> bool {
        &&& self@.wf()
        &&& self@.contiguous()
        &&& self@.dim.spec_flat_len() == dim.spec_flat_len()
    }

    fn reshape_mut(self, dim: usize) -> (v: Array1dViewMut<'a, T>)
        ensures
            v@ == self@.repacked(dim),
            v@.wf(),
            final(self.target())@ == final(v.target())@,
    {
        let (buf, _dim, _stride) = self.into_parts();
        Array1dViewMut::from_parts(buf, dim, 1)
    }
}

impl<'a, T: Copy> Flatten<'a, Array1dView<'a, T>> for Array4dView<'a, T> {
    open spec fn flatten_requires(self) -> bool {
        self@.wf() && self@.contiguous()
    }

    /// The densely packed view as a rank-one view of all its elements.
    fn flatten(self) -> (v: Array1dView<'a, T>)
        ensures
            v@ == self@.repacked(self@.dim.spec_flat_len() as usize),
            v@.wf(),
    {
        let len: usize = self.dim().flat_len();
        self.reshape(len)
    }
}

impl<'a, T: Copy> Reshape<'a, usize, Array1dView<'a, T>> for Array4dView<'a, T> {
    open spec fn reshape_requires(self, dim: usize) -> bool {
        &&& self@.wf()
        &&& self@.contiguous()
        &&& self@.dim.spec_flat_len() == dim.spec_flat_len()
    }

    fn reshape(self, dim: usize) -> (v: Array1dView<'a, T>)
        ensures
            v@ == self@.repacked(dim),
            v@.wf(),
    {
        Array1dView::from_parts(self.as_slice(), dim, 1)
    }
}

impl<'a, T: Copy> FlattenMut<'a, Array1dViewMut<'a, T>> for Array4dViewMut<'a, T> {
    open spec fn flatten_mut_requires(self) -> bool {
        self@.wf() && self@.contiguous()
    }

    fn flatten_mut(self) -> (v: Array1dViewMut<'a, T>)
        ensures
            v@ == self@.repacked(self@.dim.spec_flat_len() as usize),
            v@.wf(),
            final(self.target())@ == final(v.target())@,
    {
        let len: usize = self.dim().flat_len();
        self.reshape_mut(len)
    }
}

impl<'a, T: Copy> ReshapeMut<'a, usize, Array1dViewMut<'a, T>> for Array4dViewMut<'a, T> {
    open spec fn reshape_mut_requires(self, dim: usize) -> bool {
        &&& self@.wf()
        &&& self@.contiguous()
        &&& self@.dim.spec_flat_len() == dim.spec_flat_len()
    }

    fn reshape_mut(self, dim: usize) -> (v: Array1dViewMut<'a, T>)
        ensures
            v@ == self@.repacked(dim),
            v@.wf(),
            final(self.target())@ == final(v.target())@,
    {
        let (buf, _dim, _stride) = self.into_parts();
        Array1dViewMut::from_parts(buf, dim, 1)
    }
}

impl<'a, T: Copy> Reshape<'a, (usize, usize), Array2dView<'a, T>> for Array4dView<'a, T> {
    open spec fn reshape_requires(self, dim: (usize, usize)) -> bool {
        &&& self@.wf()
        &&& self@.contiguous()
        &&& self@.dim.spec_flat_len() == dim.spec_flat_len()
    }

    /// The densely packed rank-four view as a rank-two view of as many
    /// elements.
    fn reshape(self, dim: (usize, usize)) -> (v: Array2dView<'a, T>)
        ensures
            v@ == self@.repacked(dim),
            v@.wf(),
    {
        Array2dView::from_parts(self.as_slice(), dim, dim.least_stride())
    }
}

impl<'a, T: Copy> ReshapeMut<'a, (usize, usize), Array2dViewMut<'a, T>> for Array4dViewMut<
    'a,
    T,
> {
    open spec fn reshape_mut_requires(self, dim: (usize, usize)) -> bool {
        &&& self@.wf()
        &&& self@.contiguous()
        &&& self@.dim.spec_flat_len() == dim.spec_flat_len()
    }

    fn reshape_mut(self, dim: (usize, usize)) -> (v: Array2dViewMut<'a, T>)
        ensures
            v@ == self@.repacked(dim),
            v@.wf(),
            final(self.target())@ == final(v.target())@,
    {
        let (buf, _dim, _stride) = self.into_parts();
        Array2dViewMut::from_parts(buf, dim, dim.least_stride())
    }
}

/// A shape made of `n` and a unit axis has `n` elements.
proof fn lemma_unit_axis_len(n: usize, dim: (usize, usize))
    by (nonlinear_arith)
    requires
        dim == (n, 1usize) || dim == (1usize, n),
    ensures
        dim.0 * dim.1 == n,
{
}

} // verus!
