//! Shape and stride arithmetic for ranks one to four.
//!
//! A shape is a tuple of per-axis extents; a stride is a tuple of the same
//! rank giving, per axis, the number of elements to skip in the backing
//! buffer for one step along that axis.  Everything here is pure arithmetic
//! on such tuples.  The mathematical meaning of each operation is given by a
//! `spec_*` function over unbounded naturals; the executable operations
//! compute the same values in `usize` and say on which inputs they fit.

use vstd::prelude::*;

verus! {

/// Marks a choice of axes of a given index type.
#[derive(Clone, Copy, PartialEq, Eq)]
pub struct Axes<T>(pub T);

/// A shape, stride or coordinate of fixed rank.
pub trait ArrayIndex: Sized {
    type Axes;

    /// The product of the extents.
    spec fn spec_flat_len(self) -> nat;

    /// The linear position of coordinate `self` under `stride`:
    /// the sum over the axes of `stride[k] * self[k]`.
    spec fn spec_offset(self, stride: Self) -> nat;

    /// The column-major stride of shape `self`: one on the first axis, and on
    /// every further axis the product of the extents before it.
    spec fn spec_least_stride(self) -> Self;

    /// Axis by axis, `self[k] - rhs[k]`.
    spec fn spec_diff(self, rhs: Self) -> Self;

    /// Axis by axis, `self[k] + rhs[k]`.
    spec fn spec_sum(self, rhs: Self) -> Self;

    /// Axis by axis, `rhs[k] <= self[k]`.
    spec fn spec_covers(self, rhs: Self) -> bool;

    /// Axis by axis, `at[k] < self[k]`: `at` is a coordinate inside shape `self`.
    spec fn spec_contains(self, at: Self) -> bool;

    /// Every product that `flat_len` forms fits in `usize`.
    spec fn len_fits(self) -> bool;

    /// Every product that `least_stride` forms fits in `usize`.
    spec fn stride_fits(self) -> bool;

    /// The axes of shape `self` do not run into each other under
    /// `stride`: the first axis steps by at least one element, and every
    /// further axis steps over at least the whole extent of the axis
    /// before it.
    spec fn spec_layered(self, stride: Self) -> bool;

    /// The coordinate that is zero on every axis.
    spec fn spec_origin() -> Self;

    /// The index that is one on every axis.
    spec fn spec_unit() -> Self;

    /// The entry for the first axis.
    spec fn spec_first(self) -> usize;

    /// The entry for the last axis.
    spec fn spec_last(self) -> usize;

    /// `self` with the entry for the last axis replaced by `last`.
    spec fn spec_outer(self, last: usize) -> Self;

    fn least_stride(self) -> (s: Self)
        requires
            self.stride_fits(),
        ensures
            s == self.spec_least_stride(),
    ;

    fn flat_len(self) -> (n: usize)
        requires
            self.len_fits(),
        ensures
            n == self.spec_flat_len(),
    ;

    /// The flattened length, where every product on the way to it fits in
    /// `usize`, and nothing otherwise.
    fn checked_flat_len(self) -> (r: Option<usize>)
        ensures
            r.is_some() <==> self.len_fits(),
            r matches Some(n) ==> n == self.spec_flat_len(),
    ;

    fn offset(self, stride: Self) -> (n: usize)
        requires
            self.spec_offset(stride) <= usize::MAX,
        ensures
            n == self.spec_offset(stride),
    ;

    /// Axis-wise difference.  The caller guarantees that no axis underflows.
    fn diff(self, rhs: Self) -> (d: Self)
        requires
            self.spec_covers(rhs),
        ensures
            d == self.spec_diff(rhs),
    ;

    /// The least stride always advances by one element along the first axis.
    proof fn lemma_least_stride_first(self)
        ensures
            self.spec_least_stride().spec_first() == 1,
    ;

    /// In a shape without an empty axis, the last coordinate lies, under the
    /// least stride, at the last position of the flattened array.
    proof fn lemma_last_offset(self)
        requires
            self.spec_covers(Self::spec_unit()),
            self.stride_fits(),
        ensures
            self.spec_diff(Self::spec_unit()).spec_offset(self.spec_least_stride()) + 1
                == self.spec_flat_len(),
    ;

    /// Under the least stride, every coordinate inside a shape lies before
    /// the shape's flattened length.
    proof fn lemma_offset_in_range(self, at: Self)
        requires
            self.stride_fits(),
            self.spec_contains(at),
        ensures
            at.spec_offset(self.spec_least_stride()) < self.spec_flat_len(),
    ;

    /// A shape that is covered by one whose length fits has a length that
    /// fits, and no more elements.
    proof fn lemma_covered_len(self, inner: Self)
        requires
            self.len_fits(),
            self.spec_covers(inner),
        ensures
            inner.len_fits(),
            inner.stride_fits(),
            inner.spec_flat_len() <= self.spec_flat_len(),
    ;

    /// A range along the last axis of a densely packed shape, over the full
    /// extent of every other axis, is itself densely packed and lies, as
    /// one stretch, inside the shape's flattened length.
    proof fn lemma_outer_range(self, from: usize, to: usize)
        requires
            self.len_fits(),
            from <= to <= self.spec_last(),
        ensures
            self.spec_outer(to).spec_covers(Self::spec_origin().spec_outer(from)),
            self.spec_covers(self.spec_outer(to)),
            self.spec_covers(self.spec_outer((to - from) as usize)),
            self.spec_outer(to).spec_diff(Self::spec_origin().spec_outer(from))
                == self.spec_outer((to - from) as usize),
            self.spec_outer((to - from) as usize).spec_least_stride()
                == self.spec_least_stride(),
            Self::spec_origin().spec_outer(from).spec_offset(self.spec_least_stride())
                + self.spec_outer((to - from) as usize).spec_flat_len()
                == self.spec_outer(to).spec_flat_len(),
            self.spec_outer(to).spec_flat_len() <= self.spec_flat_len(),
    ;

    /// Positions add up: a coordinate below `hi` that is moved by `by`, with
    /// `by` inside `hi - self`, stays inside `hi`, and its position moves by
    /// the position of `by`.
    proof fn lemma_offset_sum(self, by: Self, stride: Self, hi: Self)
        requires
            hi.spec_covers(self),
            hi.spec_diff(self).spec_contains(by),
        ensures
            self.spec_sum(by).spec_offset(stride) == self.spec_offset(stride) + by.spec_offset(
                stride,
            ),
            hi.spec_contains(self.spec_sum(by)),
    ;

    /// The least stride keeps the axes apart.
    proof fn lemma_least_stride_layered(self)
        requires
            self.stride_fits(),
        ensures
            self.spec_layered(self.spec_least_stride()),
    ;

    /// Under a stride that keeps the axes of shape `self` apart, a window
    /// from `lo` to `hi` that is empty on no axis takes no more positions,
    /// from the position of `lo` on, than lie up to its last element; that
    /// element lies inside the shape, and the stride keeps the window's
    /// axes apart as well.
    proof fn lemma_window_stretch(self, stride: Self, lo: Self, hi: Self)
        requires
            self.spec_layered(stride),
            self.spec_covers(hi),
            hi.spec_contains(lo),
        ensures
            hi.spec_covers(lo),
            hi.spec_covers(Self::spec_unit()),
            self.spec_contains(hi.spec_diff(Self::spec_unit())),
            lo.spec_offset(stride) + hi.spec_diff(lo).spec_flat_len() <= hi.spec_diff(
                Self::spec_unit(),
            ).spec_offset(stride) + 1,
            hi.spec_diff(lo).spec_layered(stride),
            self.spec_covers(hi.spec_diff(lo)),
    ;

    /// A coordinate inside a shape is inside every shape that covers it.
    proof fn lemma_contains_within(self, at: Self, outer: Self)
        requires
            self.spec_contains(at),
            outer.spec_covers(self),
        ensures
            outer.spec_contains(at),
    ;

    /// Subtracting the origin changes nothing, the origin lies at position
    /// zero under every stride, and every index covers the origin and itself.
    proof fn lemma_origin(self, stride: Self)
        ensures
            self.spec_diff(Self::spec_origin()) == self,
            Self::spec_origin().spec_offset(stride) == 0,
            self.spec_covers(Self::spec_origin()),
            self.spec_covers(self),
    ;
}

impl ArrayIndex for usize {
    type Axes = Axes<usize>;

    open spec fn spec_flat_len(self) -> nat {
        self as nat
    }

    open spec fn spec_offset(self, stride: Self) -> nat {
        (stride * self) as nat
    }

    open spec fn spec_least_stride(self) -> Self {
        1
    }

    open spec fn spec_diff(self, rhs: Self) -> Self {
        (self - rhs) as usize
    }

    open spec fn spec_sum(self, rhs: Self) -> Self {
        (self + rhs) as usize
    }

    open spec fn spec_covers(self, rhs: Self) -> bool {
        rhs <= self
    }

    open spec fn len_fits(self) -> bool {
        true
    }

    open spec fn stride_fits(self) -> bool {
        true
    }

    open spec fn spec_layered(self, stride: Self) -> bool {
        stride >= 1
    }

    open spec fn spec_origin() -> Self {
        0
    }

    open spec fn spec_unit() -> Self {
        1
    }

    open spec fn spec_first(self) -> usize {
        self
    }

    open spec fn spec_last(self) -> usize {
        self
    }

    open spec fn spec_outer(self, last: usize) -> Self {
        last
    }

    open spec fn spec_contains(self, at: Self) -> bool {
        at < self
    }

    fn least_stride(self) -> (s: Self) {
        1
    }

    fn flat_len(self) -> (n: usize) {
        self
    }

    fn checked_flat_len(self) -> (r: Option<usize>) {
        Some(self)
    }

    fn offset(self, stride: Self) -> (n: usize) {
        assert(self * stride == stride * self) by (nonlinear_arith);
        self * stride
    }

    fn diff(self, rhs: Self) -> (d: Self) {
        self - rhs
    }

    proof fn lemma_least_stride_first(self) {
    }

    proof fn lemma_last_offset(self) {
    }

    proof fn lemma_offset_in_range(self, at: Self) {
    }

    proof fn lemma_covered_len(self, inner: Self) {
    }

    proof fn lemma_outer_range(self, from: usize, to: usize) {
        assert(1 * from + (to - from) == to) by (nonlinear_arith);
    }

    proof fn lemma_offset_sum(self, by: Self, stride: Self, hi: Self) {
        lemma_step_sum(stride as int, self as int, by as int);
    }

    proof fn lemma_least_stride_layered(self) {
    }

    proof fn lemma_window_stretch(self, stride: Self, lo: Self, hi: Self) {
        lemma_stretch_axis(1, 1, stride as int, lo as int, hi as int, self as int);
        lemma_step_sum(stride as int, lo as int, hi - 1 - lo);
    }

    proof fn lemma_contains_within(self, at: Self, outer: Self) {
    }

    proof fn lemma_origin(self, stride: Self) {
    }
}


impl ArrayIndex for (usize, usize) {
    type Axes = Axes<(usize, usize)>;

    open spec fn spec_flat_len(self) -> nat {
        (self.0 * self.1) as nat
    }

    open spec fn spec_offset(self, stride: Self) -> nat {
        (stride.0 * self.0 + stride.1 * self.1) as nat
    }

    open spec fn spec_least_stride(self) -> Self {
        (1, self.0)
    }

    open spec fn spec_diff(self, rhs: Self) -> Self {
        ((self.0 - rhs.0) as usize, (self.1 - rhs.1) as usize)
    }

    open spec fn spec_sum(self, rhs: Self) -> Self {
        ((self.0 + rhs.0) as usize, (self.1 + rhs.1) as usize)
    }

    open spec fn spec_covers(self, rhs: Self) -> bool {
        rhs.0 <= self.0 && rhs.1 <= self.1
    }

    open spec fn spec_contains(self, at: Self) -> bool {
        at.0 < self.0 && at.1 < self.1
    }

    open spec fn len_fits(self) -> bool {
        self.0 * self.1 <= usize::MAX
    }

    open spec fn stride_fits(self) -> bool {
        true
    }

    open spec fn spec_layered(self, stride: Self) -> bool {
        stride.0 >= 1 && stride.1 >= stride.0 * self.0
    }

    open spec fn spec_origin() -> Self {
        (0, 0)
    }

    open spec fn spec_unit() -> Self {
        (1, 1)
    }

    open spec fn spec_first(self) -> usize {
        self.0
    }

    open spec fn spec_last(self) -> usize {
        self.1
    }

    open spec fn spec_outer(self, last: usize) -> Self {
        (self.0, last)
    }

    fn least_stride(self) -> (s: Self) {
        (1, self.0)
    }

    fn flat_len(self) -> (n: usize) {
        self.0 * self.1
    }

    fn checked_flat_len(self) -> (r: Option<usize>) {
        self.0.checked_mul(self.1)
    }

    fn offset(self, stride: Self) -> (n: usize) {
        proof {
            lemma_product_nonnegative(stride.0 as int, self.0 as int);
            lemma_product_nonnegative(stride.1 as int, self.1 as int);
        }
        stride.0 * self.0 + stride.1 * self.1
    }

    fn diff(self, rhs: Self) -> (d: Self) {
        (self.0 - rhs.0, self.1 - rhs.1)
    }

    proof fn lemma_least_stride_first(self) {
    }

    proof fn lemma_last_offset(self) {
        let (a, b) = (self.0 as int, self.1 as int);
        assert(1 * (a - 1) + a * (b - 1) + 1 == a * b) by (nonlinear_arith);
    }

    proof fn lemma_offset_in_range(self, at: Self) {
        lemma_mixed_radix_step(at.0 as int, self.0 as int, at.1 as int, self.1 as int);
    }

    proof fn lemma_covered_len(self, inner: Self) {
        lemma_product_monotonic(inner.0 as int, self.0 as int, inner.1 as int, self.1 as int);
    }

    proof fn lemma_outer_range(self, from: usize, to: usize) {
        lemma_outer_stretch(self.0 as int, from as int, to as int, self.1 as int);
    }

    proof fn lemma_offset_sum(self, by: Self, stride: Self, hi: Self) {
        lemma_step_sum(stride.0 as int, self.0 as int, by.0 as int);
        lemma_step_sum(stride.1 as int, self.1 as int, by.1 as int);
    }

    proof fn lemma_least_stride_layered(self) {
        assert(1 * self.0 == self.0) by (nonlinear_arith);
    }

    proof fn lemma_window_stretch(self, stride: Self, lo: Self, hi: Self) {
        let w0 = hi.0 - lo.0;
        lemma_stretch_axis(1, 1, stride.0 as int, lo.0 as int, hi.0 as int, self.0 as int);
        lemma_layer_below(stride.0 as int, w0, self.0 as int, stride.1 as int);
        lemma_stretch_axis(
            w0,
            stride.0 * (hi.0 - 1 - lo.0) + 1,
            stride.1 as int,
            lo.1 as int,
            hi.1 as int,
            self.1 as int,
        );
        lemma_step_sum(stride.0 as int, lo.0 as int, hi.0 - 1 - lo.0);
        lemma_step_sum(stride.1 as int, lo.1 as int, hi.1 - 1 - lo.1);
    }

    proof fn lemma_contains_within(self, at: Self, outer: Self) {
    }

    proof fn lemma_origin(self, stride: Self) {
    }
}

impl ArrayIndex for (usize, usize, usize) {
    type Axes = (usize, usize, usize);

    open spec fn spec_flat_len(self) -> nat {
        (self.0 * self.1 * self.2) as nat
    }

    open spec fn spec_offset(self, stride: Self) -> nat {
        (stride.0 * self.0 + stride.1 * self.1 + stride.2 * self.2) as nat
    }

    open spec fn spec_least_stride(self) -> Self {
        (1, self.0, (self.0 * self.1) as usize)
    }

    open spec fn spec_diff(self, rhs: Self) -> Self {
        ((self.0 - rhs.0) as usize, (self.1 - rhs.1) as usize, (self.2 - rhs.2) as usize)
    }

    open spec fn spec_sum(self, rhs: Self) -> Self {
        ((self.0 + rhs.0) as usize, (self.1 + rhs.1) as usize, (self.2 + rhs.2) as usize)
    }

    open spec fn spec_covers(self, rhs: Self) -> bool {
        rhs.0 <= self.0 && rhs.1 <= self.1 && rhs.2 <= self.2
    }

    open spec fn spec_contains(self, at: Self) -> bool {
        at.0 < self.0 && at.1 < self.1 && at.2 < self.2
    }

    open spec fn len_fits(self) -> bool {
        self.0 * self.1 <= usize::MAX && self.0 * self.1 * self.2 <= usize::MAX
    }

    open spec fn stride_fits(self) -> bool {
        self.0 * self.1 <= usize::MAX
    }

    open spec fn spec_layered(self, stride: Self) -> bool {
        stride.0 >= 1 && stride.1 >= stride.0 * self.0 && stride.2 >= stride.1 * self.1
    }

    open spec fn spec_origin() -> Self {
        (0, 0, 0)
    }

    open spec fn spec_unit() -> Self {
        (1, 1, 1)
    }

    open spec fn spec_first(self) -> usize {
        self.0
    }

    open spec fn spec_last(self) -> usize {
        self.2
    }

    open spec fn spec_outer(self, last: usize) -> Self {
        (self.0, self.1, last)
    }

    fn least_stride(self) -> (s: Self) {
        (1, self.0, self.0 * self.1)
    }

    fn flat_len(self) -> (n: usize) {
        self.0 * self.1 * self.2
    }

    fn checked_flat_len(self) -> (r: Option<usize>) {
        match self.0.checked_mul(self.1) {
            None => None,
            Some(n) => n.checked_mul(self.2),
        }
    }

    fn offset(self, stride: Self) -> (n: usize) {
        proof {
            lemma_product_nonnegative(stride.0 as int, self.0 as int);
            lemma_product_nonnegative(stride.1 as int, self.1 as int);
            lemma_product_nonnegative(stride.2 as int, self.2 as int);
        }
        stride.0 * self.0 + stride.1 * self.1 + stride.2 * self.2
    }

    fn diff(self, rhs: Self) -> (d: Self) {
        (self.0 - rhs.0, self.1 - rhs.1, self.2 - rhs.2)
    }

    proof fn lemma_least_stride_first(self) {
    }

    proof fn lemma_last_offset(self) {
        let (a, b, c) = (self.0 as int, self.1 as int, self.2 as int);
        assert(1 * (a - 1) + a * (b - 1) + (a * b) * (c - 1) + 1 == a * b * c)
            by (nonlinear_arith);
    }

    proof fn lemma_offset_in_range(self, at: Self) {
        let (a, b, c) = (self.0 as int, self.1 as int, self.2 as int);
        lemma_mixed_radix_step(at.0 as int, a, at.1 as int, b);
        lemma_mixed_radix_step(1 * at.0 + a * at.1, a * b, at.2 as int, c);
    }

    proof fn lemma_covered_len(self, inner: Self) {
        lemma_product_monotonic(inner.0 as int, self.0 as int, inner.1 as int, self.1 as int);
        lemma_product_monotonic(inner.0 * inner.1, self.0 * self.1, inner.2 as int, self.2 as int);
    }

    proof fn lemma_outer_range(self, from: usize, to: usize) {
        lemma_outer_stretch(self.0 * self.1, from as int, to as int, self.2 as int);
    }

    proof fn lemma_offset_sum(self, by: Self, stride: Self, hi: Self) {
        lemma_step_sum(stride.0 as int, self.0 as int, by.0 as int);
        lemma_step_sum(stride.1 as int, self.1 as int, by.1 as int);
        lemma_step_sum(stride.2 as int, self.2 as int, by.2 as int);
    }

    proof fn lemma_least_stride_layered(self) {
        assert(1 * self.0 == self.0) by (nonlinear_arith);
    }

    proof fn lemma_window_stretch(self, stride: Self, lo: Self, hi: Self) {
        let w0 = hi.0 - lo.0;
        let w1 = hi.1 - lo.1;
        lemma_stretch_axis(1, 1, stride.0 as int, lo.0 as int, hi.0 as int, self.0 as int);
        lemma_layer_below(stride.0 as int, w0, self.0 as int, stride.1 as int);
        lemma_stretch_axis(
            w0,
            stride.0 * (hi.0 - 1 - lo.0) + 1,
            stride.1 as int,
            lo.1 as int,
            hi.1 as int,
            self.1 as int,
        );
        lemma_layer_below(stride.1 as int, w1, self.1 as int, stride.2 as int);
        lemma_product_monotonic(w0, stride.1 as int, w1, w1);
        lemma_stretch_axis(
            w0 * w1,
            stride.0 * (hi.0 - 1 - lo.0) + stride.1 * (hi.1 - 1 - lo.1) + 1,
            stride.2 as int,
            lo.2 as int,
            hi.2 as int,
            self.2 as int,
        );
        lemma_step_sum(stride.0 as int, lo.0 as int, hi.0 - 1 - lo.0);
        lemma_step_sum(stride.1 as int, lo.1 as int, hi.1 - 1 - lo.1);
        lemma_step_sum(stride.2 as int, lo.2 as int, hi.2 - 1 - lo.2);
    }

    proof fn lemma_contains_within(self, at: Self, outer: Self) {
    }

    proof fn lemma_origin(self, stride: Self) {
    }
}

impl ArrayIndex for (usize, usize, usize, usize) {
    type Axes = (usize, usize, usize, usize);

    open spec fn spec_flat_len(self) -> nat {
        (self.0 * self.1 * self.2 * self.3) as nat
    }

    open spec fn spec_offset(self, stride: Self) -> nat {
        (stride.0 * self.0 + stride.1 * self.1 + stride.2 * self.2 + stride.3 * self.3) as nat
    }

    open spec fn spec_least_stride(self) -> Self {
        (1, self.0, (self.0 * self.1) as usize, (self.0 * self.1 * self.2) as usize)
    }

    open spec fn spec_diff(self, rhs: Self) -> Self {
        (
            (self.0 - rhs.0) as usize,
            (self.1 - rhs.1) as usize,
            (self.2 - rhs.2) as usize,
            (self.3 - rhs.3) as usize,
        )
    }

    open spec fn spec_sum(self, rhs: Self) -> Self {
        (
            (self.0 + rhs.0) as usize,
            (self.1 + rhs.1) as usize,
            (self.2 + rhs.2) as usize,
            (self.3 + rhs.3) as usize,
        )
    }

    open spec fn spec_covers(self, rhs: Self) -> bool {
        rhs.0 <= self.0 && rhs.1 <= self.1 && rhs.2 <= self.2 && rhs.3 <= self.3
    }

    open spec fn spec_contains(self, at: Self) -> bool {
        at.0 < self.0 && at.1 < self.1 && at.2 < self.2 && at.3 < self.3
    }

    open spec fn len_fits(self) -> bool {
        &&& self.0 * self.1 <= usize::MAX
        &&& self.0 * self.1 * self.2 <= usize::MAX
        &&& self.0 * self.1 * self.2 * self.3 <= usize::MAX
    }

    open spec fn stride_fits(self) -> bool {
        self.0 * self.1 <= usize::MAX && self.0 * self.1 * self.2 <= usize::MAX
    }

    open spec fn spec_layered(self, stride: Self) -> bool {
        &&& stride.0 >= 1
        &&& stride.1 >= stride.0 * self.0
        &&& stride.2 >= stride.1 * self.1
        &&& stride.3 >= stride.2 * self.2
    }

    open spec fn spec_origin() -> Self {
        (0, 0, 0, 0)
    }

    open spec fn spec_unit() -> Self {
        (1, 1, 1, 1)
    }

    open spec fn spec_first(self) -> usize {
        self.0
    }

    open spec fn spec_last(self) -> usize {
        self.3
    }

    open spec fn spec_outer(self, last: usize) -> Self {
        (self.0, self.1, self.2, last)
    }

    fn least_stride(self) -> (s: Self) {
        (1, self.0, self.0 * self.1, self.0 * self.1 * self.2)
    }

    fn flat_len(self) -> (n: usize) {
        self.0 * self.1 * self.2 * self.3
    }

    fn checked_flat_len(self) -> (r: Option<usize>) {
        match self.0.checked_mul(self.1) {
            None => None,
            Some(n) => match n.checked_mul(self.2) {
                None => None,
                Some(n) => n.checked_mul(self.3),
            },
        }
    }

    fn offset(self, stride: Self) -> (n: usize) {
        proof {
            lemma_product_nonnegative(stride.0 as int, self.0 as int);
            lemma_product_nonnegative(stride.1 as int, self.1 as int);
            lemma_product_nonnegative(stride.2 as int, self.2 as int);
            lemma_product_nonnegative(stride.3 as int, self.3 as int);
        }
        stride.0 * self.0 + stride.1 * self.1 + stride.2 * self.2 + stride.3 * self.3
    }

    fn diff(self, rhs: Self) -> (d: Self) {
        (self.0 - rhs.0, self.1 - rhs.1, self.2 - rhs.2, self.3 - rhs.3)
    }

    proof fn lemma_least_stride_first(self) {
    }

    proof fn lemma_last_offset(self) {
        let (a, b, c, d) = (self.0 as int, self.1 as int, self.2 as int, self.3 as int);
        assert(1 * (a - 1) + a * (b - 1) + (a * b) * (c - 1) + (a * b * c) * (d - 1) + 1 == a
            * b * c * d) by (nonlinear_arith);
    }

    proof fn lemma_offset_in_range(self, at: Self) {
        let (a, b, c, d) = (self.0 as int, self.1 as int, self.2 as int, self.3 as int);
        lemma_mixed_radix_step(at.0 as int, a, at.1 as int, b);
        lemma_mixed_radix_step(1 * at.0 + a * at.1, a * b, at.2 as int, c);
        lemma_mixed_radix_step(1 * at.0 + a * at.1 + (a * b) * at.2, a * b * c, at.3 as int, d);
    }

    proof fn lemma_covered_len(self, inner: Self) {
        lemma_product_monotonic(inner.0 as int, self.0 as int, inner.1 as int, self.1 as int);
        lemma_product_monotonic(inner.0 * inner.1, self.0 * self.1, inner.2 as int, self.2 as int);
        lemma_product_monotonic(
            inner.0 * inner.1 * inner.2,
            self.0 * self.1 * self.2,
            inner.3 as int,
            self.3 as int,
        );
    }

    proof fn lemma_outer_range(self, from: usize, to: usize) {
        lemma_outer_stretch(self.0 * self.1 * self.2, from as int, to as int, self.3 as int);
    }

    proof fn lemma_offset_sum(self, by: Self, stride: Self, hi: Self) {
        lemma_step_sum(stride.0 as int, self.0 as int, by.0 as int);
        lemma_step_sum(stride.1 as int, self.1 as int, by.1 as int);
        lemma_step_sum(stride.2 as int, self.2 as int, by.2 as int);
        lemma_step_sum(stride.3 as int, self.3 as int, by.3 as int);
    }

    proof fn lemma_least_stride_layered(self) {
        assert(1 * self.0 == self.0) by (nonlinear_arith);
    }

    proof fn lemma_window_stretch(self, stride: Self, lo: Self, hi: Self) {
        let w0 = hi.0 - lo.0;
        let w1 = hi.1 - lo.1;
        let w2 = hi.2 - lo.2;
        lemma_stretch_axis(1, 1, stride.0 as int, lo.0 as int, hi.0 as int, self.0 as int);
        lemma_layer_below(stride.0 as int, w0, self.0 as int, stride.1 as int);
        lemma_stretch_axis(
            w0,
            stride.0 * (hi.0 - 1 - lo.0) + 1,
            stride.1 as int,
            lo.1 as int,
            hi.1 as int,
            self.1 as int,
        );
        lemma_layer_below(stride.1 as int, w1, self.1 as int, stride.2 as int);
        lemma_product_monotonic(w0, stride.1 as int, w1, w1);
        lemma_stretch_axis(
            w0 * w1,
            stride.0 * (hi.0 - 1 - lo.0) + stride.1 * (hi.1 - 1 - lo.1) + 1,
            stride.2 as int,
            lo.2 as int,
            hi.2 as int,
            self.2 as int,
        );
        lemma_layer_below(stride.2 as int, w2, self.2 as int, stride.3 as int);
        lemma_product_monotonic(w0 * w1, stride.2 as int, w2, w2);
        lemma_stretch_axis(
            w0 * w1 * w2,
            stride.0 * (hi.0 - 1 - lo.0) + stride.1 * (hi.1 - 1 - lo.1) + stride.2 * (hi.2 - 1
                - lo.2) + 1,
            stride.3 as int,
            lo.3 as int,
            hi.3 as int,
            self.3 as int,
        );
        lemma_step_sum(stride.0 as int, lo.0 as int, hi.0 - 1 - lo.0);
        lemma_step_sum(stride.1 as int, lo.1 as int, hi.1 - 1 - lo.1);
        lemma_step_sum(stride.2 as int, lo.2 as int, hi.2 - 1 - lo.2);
        lemma_step_sum(stride.3 as int, lo.3 as int, hi.3 - 1 - lo.3);
    }

    proof fn lemma_contains_within(self, at: Self, outer: Self) {
    }

    proof fn lemma_origin(self, stride: Self) {
    }
}

/// A product of two naturals is a natural.
pub proof fn lemma_product_nonnegative(x: int, y: int)
    by (nonlinear_arith)
    requires
        0 <= x,
        0 <= y,
    ensures
        0 <= x * y,
{
}

/// Products of naturals grow with their factors.
pub proof fn lemma_product_monotonic(x: int, x_max: int, y: int, y_max: int)
    by (nonlinear_arith)
    requires
        0 <= x <= x_max,
        0 <= y <= y_max,
    ensures
        0 <= x * y <= x_max * y_max,
{
}

/// Stretches of whole layers: `from` layers of `layer` elements, followed
/// by `to - from` more, are `to` layers, and no more than `all` layers.
pub proof fn lemma_outer_stretch(layer: int, from: int, to: int, all: int)
    by (nonlinear_arith)
    requires
        0 <= layer,
        0 <= from <= to <= all,
    ensures
        layer * from + layer * (to - from) == layer * to,
        0 <= layer * from,
        0 <= layer * (to - from) <= layer * to <= layer * all,
{
}

/// One more axis of a window: where the window so far takes `taken`
/// positions, no more than lie up to its last element (`reach`), and the
/// next axis steps by at least `taken`, the window with that axis takes no
/// more positions than lie up to its last element.
pub proof fn lemma_stretch_axis(taken: int, reach: int, stride: int, lo: int, hi: int, dim: int)
    by (nonlinear_arith)
    requires
        0 <= taken <= reach,
        taken <= stride,
        0 <= lo < hi <= dim,
    ensures
        taken * (hi - lo) <= stride * (hi - 1 - lo) + reach,
        0 <= taken * (hi - lo),
        0 <= stride * (hi - 1 - lo),
        1 * (hi - lo) == hi - lo,
{
}

/// An axis that steps over the whole extent of the axis before it steps
/// over every window of that axis, and keeps doing so under the window's
/// smaller extent.
pub proof fn lemma_layer_below(below: int, window: int, extent: int, stride: int)
    by (nonlinear_arith)
    requires
        1 <= below,
        0 <= window <= extent,
        stride >= below * extent,
    ensures
        stride >= below * window,
        below * window >= window,
        stride >= window,
{
}

/// Steps along one axis add up.
pub proof fn lemma_step_sum(stride: int, at: int, by: int)
    by (nonlinear_arith)
    requires
        0 <= stride,
        0 <= at,
        0 <= by,
    ensures
        stride * (at + by) == stride * at + stride * by,
        0 <= stride * at,
        0 <= stride * by,
{
}

/// One more digit of a mixed-radix number: a position below `span`, extended
/// by digit `digit < radix` of weight `span`, stays below `span * radix`.
pub proof fn lemma_mixed_radix_step(low: int, span: int, digit: int, radix: int)
    by (nonlinear_arith)
    requires
        0 <= low < span,
        0 <= digit < radix,
    ensures
        0 <= low + span * digit < span * radix,
{
}

} // verus!
