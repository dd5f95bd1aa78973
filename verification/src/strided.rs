//! The mathematical model shared by arrays and views of every rank.

use vstd::prelude::*;
use crate::index::ArrayIndex;

verus! {

/// What an array or a view is, mathematically: the elements of the buffer
/// it refers to, a shape, and a stride.
pub struct Strided<I, T> {
    pub data: Seq<T>,
    pub dim: I,
    pub stride: I,
}

impl<I: ArrayIndex, T> Strided<I, T> {
    /// The shape's flattened length can be computed and the buffer holds at
    /// least that many elements.
    pub open spec fn wf(self) -> bool {
        &&& self.dim.len_fits()
        &&& self.dim.stride_fits()
        &&& self.dim.spec_flat_len() <= self.data.len()
    }

    /// Densely packed: the stride is the least stride of the shape.
    pub open spec fn contiguous(self) -> bool {
        self.stride == self.dim.spec_least_stride()
    }

    /// The layout of an owned array: densely packed, and the buffer holds
    /// exactly the elements of the shape.
    pub open spec fn dense(self) -> bool {
        &&& self.wf()
        &&& self.contiguous()
        &&& self.data.len() == self.dim.spec_flat_len()
    }

    /// The element at coordinate `at`.
    pub open spec fn at(self, at: I) -> T {
        self.data[at.spec_offset(self.stride) as int]
    }

    /// Where the window from `lo` to `hi` starts in the buffer.
    pub open spec fn window_start(self, lo: I) -> nat {
        lo.spec_offset(self.stride)
    }

    /// Where the window from `lo` to `hi` ends in the buffer.
    pub open spec fn window_end(self, lo: I, hi: I) -> nat {
        lo.spec_offset(self.stride) + hi.spec_diff(lo).spec_flat_len()
    }

    /// The bounds `lo <= hi <= dim` hold on every axis, and the stretch of
    /// the buffer that the window takes lies inside the buffer.
    pub open spec fn window_fits(self, lo: I, hi: I) -> bool {
        &&& hi.spec_covers(lo)
        &&& self.dim.spec_covers(hi)
        &&& self.window_end(lo, hi) <= self.data.len()
    }

    /// The sub-view from `lo` (inclusive) to `hi` (exclusive): its shape is
    /// `hi - lo`, its stride is inherited, and its buffer is the stretch of
    /// the parent's buffer that starts at the position of `lo` and is as
    /// long as the new shape's flattened length.
    pub open spec fn window(self, lo: I, hi: I) -> Self {
        Strided {
            data: self.data.subrange(
                self.window_start(lo) as int,
                self.window_end(lo, hi) as int,
            ),
            dim: hi.spec_diff(lo),
            stride: self.stride,
        }
    }

    /// Every coordinate inside the shape lies inside the buffer.
    pub open spec fn spans(self) -> bool {
        forall|at: I| #[trigger]
            self.dim.spec_contains(at) ==> at.spec_offset(self.stride) < self.data.len()
    }

    /// The axes do not run into each other: the first axis steps by at
    /// least one element, and every further axis steps over at least the
    /// whole extent of the axis before it.  Densely packed views are
    /// layered, and so are views whose outermost axis alone steps further
    /// than the least stride, as the view over a batch or over a range of
    /// the outermost axis does.
    pub open spec fn layered(self) -> bool {
        self.dim.spec_layered(self.stride)
    }

    /// The same buffer seen as densely packed with shape `dim`.
    pub open spec fn repacked<J: ArrayIndex>(self, dim: J) -> Strided<J, T> {
        Strided { data: self.data, dim: dim, stride: dim.spec_least_stride() }
    }
}

/// A buffer seen as densely packed with shape `dim`.
pub open spec fn packed<I: ArrayIndex, T>(data: Seq<T>, dim: I) -> Strided<I, T> {
    Strided { data: data, dim: dim, stride: dim.spec_least_stride() }
}

impl<T> Strided<usize, T> {
    /// A rank-one view of extent `n` can become a rank-two view of shape
    /// `(n, 1)` or `(1, n)`.
    pub open spec fn promotes_to(self, dim: (usize, usize)) -> bool {
        dim == (self.dim, 1usize) || dim == (1usize, self.dim)
    }

    /// The rank-two view that a unit axis joins: the stride of the axis
    /// that carries the elements is kept, the unit axis gets a stride of
    /// its own.
    pub open spec fn promoted(self, dim: (usize, usize)) -> Strided<(usize, usize), T> {
        Strided {
            data: self.data,
            dim: dim,
            stride: if dim.1 == 1 {
                (self.stride, (self.stride * self.dim) as usize)
            } else {
                (1usize, self.stride)
            },
        }
    }
}

/// Flattening a densely packed view and reshaping the result to the
/// shape it had gives back the view it was.
pub proof fn lemma_flatten_reshape_round_trip<I: ArrayIndex, T>(v: Strided<I, T>)
    requires
        v.wf(),
        v.contiguous(),
    ensures
        v.repacked(v.dim.spec_flat_len() as usize).wf(),
        v.repacked(v.dim.spec_flat_len() as usize).contiguous(),
        v.repacked(v.dim.spec_flat_len() as usize).repacked(v.dim) == v,
{
}

/// A densely packed rank-one view that is given a unit axis and squeezed
/// again is the view it was; and a densely packed rank-two view with a unit
/// axis that is flattened and given its unit axis again is the view it was.
pub proof fn lemma_unit_axis_round_trip<T>(v: Strided<usize, T>, dim: (usize, usize))
    requires
        v.wf(),
        v.contiguous(),
        v.promotes_to(dim),
    ensures
        v.promoted(dim).wf(),
        v.promoted(dim).contiguous(),
        v.promoted(dim).repacked(v.dim) == v,
        packed(v.data, dim).repacked(v.dim).promoted(dim) == packed(v.data, dim),
{
    assert(dim.0 * dim.1 == v.dim) by (nonlinear_arith)
        requires
            dim == (v.dim, 1usize) || dim == (1usize, v.dim),
    ;
    assert(1 * v.dim == v.dim) by (nonlinear_arith);
}

/// The window over a range of the last axis of a densely packed view, over
/// the full extent of every other axis, lies inside the view and is itself
/// densely packed.
pub proof fn lemma_outer_window<I: ArrayIndex, T>(v: Strided<I, T>, from: usize, to: usize)
    requires
        v.wf(),
        v.contiguous(),
        from <= to <= v.dim.spec_last(),
    ensures
        v.window_fits(I::spec_origin().spec_outer(from), v.dim.spec_outer(to)),
        v.window(I::spec_origin().spec_outer(from), v.dim.spec_outer(to)).dim
            == v.dim.spec_outer((to - from) as usize),
        v.window(I::spec_origin().spec_outer(from), v.dim.spec_outer(to)).wf(),
        v.window(I::spec_origin().spec_outer(from), v.dim.spec_outer(to)).contiguous(),
{
    v.dim.lemma_outer_range(from, to);
    v.dim.lemma_covered_len(v.dim.spec_outer(to));
    v.dim.lemma_covered_len(v.dim.spec_outer((to - from) as usize));
}

/// The elements of a window are those of its parent: the element at
/// coordinate `at` of the window from `lo` to `hi` is the parent's element
/// at `lo + at`, wherever it lies inside the window's stretch of the
/// buffer.
pub proof fn lemma_window_elements<I: ArrayIndex, T>(v: Strided<I, T>, lo: I, hi: I, at: I)
    requires
        v.window_fits(lo, hi),
        hi.spec_diff(lo).spec_contains(at),
        at.spec_offset(v.stride) < hi.spec_diff(lo).spec_flat_len(),
    ensures
        v.dim.spec_contains(lo.spec_sum(at)),
        v.window(lo, hi).at(at) == v.at(lo.spec_sum(at)),
{
    lo.lemma_offset_sum(at, v.stride, hi);
    hi.lemma_contains_within(lo.spec_sum(at), v.dim);
}

/// In a view that reaches every one of its elements, and whose axes do not
/// run into each other, every window within the shape that is empty on no
/// axis lies inside the buffer: its shape is the difference of its bounds,
/// its stride is the view's, and its axes do not run into each other.
pub proof fn lemma_window_in_range<I: ArrayIndex, T>(v: Strided<I, T>, lo: I, hi: I)
    requires
        v.spans(),
        v.layered(),
        v.dim.spec_covers(hi),
        hi.spec_contains(lo),
    ensures
        v.window_fits(lo, hi),
        v.window(lo, hi).dim == hi.spec_diff(lo),
        v.window(lo, hi).stride == v.stride,
        v.window(lo, hi).layered(),
        v.dim.len_fits() ==> v.window(lo, hi).wf(),
{
    v.dim.lemma_window_stretch(v.stride, lo, hi);
    if v.dim.len_fits() {
        v.dim.lemma_covered_len(hi.spec_diff(lo));
    }
}

/// In a rank-one view of unit stride every window within the extent lies
/// inside the buffer, the empty ones as well.
pub proof fn lemma_window_unit_stride<T>(v: Strided<usize, T>, lo: usize, hi: usize)
    requires
        v.wf(),
        v.stride == 1,
        lo <= hi <= v.dim,
    ensures
        v.window_fits(lo, hi),
        v.window(lo, hi).dim == hi - lo,
        v.window(lo, hi).stride == 1,
        v.window(lo, hi).wf(),
{
    assert(1 * lo == lo) by (nonlinear_arith);
}

/// A window that is empty lies inside the buffer wherever its lower bound
/// does.
pub proof fn lemma_empty_window_in_range<I: ArrayIndex, T>(v: Strided<I, T>, lo: I, hi: I)
    requires
        hi.spec_covers(lo),
        v.dim.spec_covers(hi),
        hi.spec_diff(lo).spec_flat_len() == 0,
        lo.spec_offset(v.stride) <= v.data.len(),
    ensures
        v.window_fits(lo, hi),
        v.window(lo, hi).dim == hi.spec_diff(lo),
        v.window(lo, hi).stride == v.stride,
{
}

/// A densely packed view reaches every one of its elements, and its axes
/// do not run into each other.
pub proof fn lemma_contiguous_spans<I: ArrayIndex, T>(v: Strided<I, T>)
    requires
        v.wf(),
        v.contiguous(),
    ensures
        v.spans(),
        v.layered(),
{
    v.dim.lemma_least_stride_layered();
    assert forall|at: I| #[trigger] v.dim.spec_contains(at) implies at.spec_offset(v.stride)
        < v.data.len() by {
        v.dim.lemma_offset_in_range(at);
    }
}

/// The shape of a window is the difference of its bounds, and its stride is
/// the parent's.
pub proof fn lemma_window_shape<I: ArrayIndex, T>(v: Strided<I, T>, lo: I, hi: I)
    ensures
        v.window(lo, hi).dim == hi.spec_diff(lo),
        v.window(lo, hi).stride == v.stride,
{
}

/// The window over a view's full extent has the view's own shape and
/// stride, starts where the view starts, and holds the first
/// `flat_len` elements of its buffer; for a buffer of exactly that length
/// it is the view itself.
pub proof fn lemma_window_full_extent<I: ArrayIndex, T>(v: Strided<I, T>)
    requires
        v.wf(),
    ensures
        v.window_fits(I::spec_origin(), v.dim),
        v.window_start(I::spec_origin()) == 0,
        v.window(I::spec_origin(), v.dim).dim == v.dim,
        v.window(I::spec_origin(), v.dim).stride == v.stride,
        v.window(I::spec_origin(), v.dim).data == v.data.subrange(
            0,
            v.dim.spec_flat_len() as int,
        ),
        v.data.len() == v.dim.spec_flat_len() ==> v.window(I::spec_origin(), v.dim) == v,
{
    v.dim.lemma_origin(v.stride);
    if v.data.len() == v.dim.spec_flat_len() {
        assert(v.data.subrange(0, v.dim.spec_flat_len() as int) =~= v.data);
    }
}

} // verus!
