//! What the linear-algebra and element-wise kernels are handed.
//!
//! The kernels themselves are outside collaborators that work on raw
//! buffers of numbers.  What is decided here is whether the operands of an
//! operation fit together, and with which extents and leading dimensions
//! the kernel is to be called.  Every operation that hands a matrix to a
//! kernel asks that the matrix step by one along its first axis.

use vstd::prelude::*;
use crate::array1d::Array1dViewMut;
use crate::array2d::Array2dView;
use crate::index::ArrayIndex;

verus! {

/// Whether a matrix operand is taken as it is or transposed.
#[derive(Clone, Copy, Debug, PartialEq, Eq, Structural)]
pub enum Transpose {
    N,
    T,
}

/// Why an operation cannot be handed to its kernel.
#[derive(Clone, Copy, Debug, PartialEq, Eq, Structural)]
pub enum LinalgError {
    /// The extents of the operands do not fit together.
    DimMismatch,
    /// An operand that must step by one along its first axis does not.
    NonUnitStride,
    /// The layout is one that the operation does not support.
    Unsupported,
    /// An extent or a stride does not fit the kernel's 32-bit integers.
    TooLarge,
}

/// The largest extent or stride that a kernel takes.
pub const KERNEL_INT_MAX: usize = 0x7fff_ffff;

/// The shape of a matrix operand as the operation sees it.
pub open spec fn spec_transposed(dim: (usize, usize), trans: Transpose) -> (usize, usize) {
    match trans {
        Transpose::N => dim,
        Transpose::T => (dim.1, dim.0),
    }
}

/// The shape of a matrix operand as the operation sees it.
pub fn transposed(dim: (usize, usize), trans: Transpose) -> (d: (usize, usize))
    ensures
        d == spec_transposed(dim, trans),
{
    match trans {
        Transpose::N => dim,
        Transpose::T => (dim.1, dim.0),
    }
}

/// How far into its buffer a vector of `n` elements with stride `stride`
/// reaches: one position behind its last element, and nothing for an empty
/// vector.
pub open spec fn spec_vector_reach(n: usize, stride: usize) -> nat {
    if n == 0 {
        0
    } else {
        ((n - 1) * stride + 1) as nat
    }
}

/// How far into its buffer a vector reaches; nothing where that does not
/// fit in `usize`.
pub fn vector_reach(n: usize, stride: usize) -> (r: Option<usize>)
    ensures
        match r {
            Some(len) => len == spec_vector_reach(n, stride),
            None => spec_vector_reach(n, stride) > usize::MAX,
        },
{
    if n == 0 {
        return Some(0);
    }
    match (n - 1).checked_mul(stride) {
        None => None,
        Some(last) => last.checked_add(1),
    }
}

/// How far into its buffer a matrix with first-axis stride one and leading
/// dimension `lda` reaches: behind the last element of its last column,
/// and nothing for an empty matrix.
pub open spec fn spec_matrix_reach(dim: (usize, usize), lda: usize) -> nat {
    if dim.0 == 0 || dim.1 == 0 {
        0
    } else {
        ((dim.1 - 1) * lda + dim.0) as nat
    }
}

/// How far into its buffer a matrix reaches; nothing where that does not
/// fit in `usize`.
pub fn matrix_reach(dim: (usize, usize), lda: usize) -> (r: Option<usize>)
    ensures
        match r {
            Some(len) => len == spec_matrix_reach(dim, lda),
            None => spec_matrix_reach(dim, lda) > usize::MAX,
        },
{
    if dim.0 == 0 || dim.1 == 0 {
        return Some(0);
    }
    match (dim.1 - 1).checked_mul(lda) {
        None => None,
        Some(last) => last.checked_add(dim.0),
    }
}

/// Whether a vector of `n` elements with stride `stride` lies inside a
/// buffer of `len` elements.
pub fn vector_fits(n: usize, stride: usize, len: usize) -> (b: bool)
    ensures
        b == (spec_vector_reach(n, stride) <= len),
{
    match vector_reach(n, stride) {
        Some(reach) => reach <= len,
        None => false,
    }
}

/// Whether a matrix with first-axis stride one lies inside a buffer of
/// `len` elements, with columns that do not run into each other.
pub fn matrix_fits(dim: (usize, usize), stride: (usize, usize), len: usize) -> (b: bool)
    ensures
        b == ((dim.1 <= 1 || stride.1 >= dim.0) && spec_matrix_reach(dim, stride.1) <= len),
{
    if dim.1 > 1 && stride.1 < dim.0 {
        return false;
    }
    match matrix_reach(dim, stride.1) {
        Some(reach) => reach <= len,
        None => false,
    }
}

/// A vector that reaches no further than its buffer has every one of its
/// elements inside the buffer.
pub proof fn lemma_vector_reach_spans<T>(v: crate::strided::Strided<usize, T>)
    requires
        spec_vector_reach(v.dim, v.stride) <= v.data.len(),
    ensures
        v.spans(),
{
    assert forall|at: usize| #[trigger] v.dim.spec_contains(at) implies at.spec_offset(v.stride)
        < v.data.len() by {
        assert(v.stride * at <= v.stride * (v.dim - 1)) by (nonlinear_arith)
            requires
                at <= v.dim - 1,
                0 <= v.stride,
        ;
        assert((v.dim - 1) * v.stride == v.stride * (v.dim - 1)) by (nonlinear_arith);
    }
}

/// A matrix with first-axis stride one that reaches no further than its
/// buffer has every one of its elements inside the buffer.
pub proof fn lemma_matrix_reach_spans<T>(m: crate::strided::Strided<(usize, usize), T>)
    requires
        m.stride.0 == 1,
        spec_matrix_reach(m.dim, m.stride.1) <= m.data.len(),
    ensures
        m.spans(),
{
    assert forall|at: (usize, usize)| #[trigger] m.dim.spec_contains(at) implies at.spec_offset(
        m.stride,
    ) < m.data.len() by {
        assert(m.stride.1 * at.1 <= m.stride.1 * (m.dim.1 - 1)) by (nonlinear_arith)
            requires
                at.1 <= m.dim.1 - 1,
                0 <= m.stride.1,
        ;
        assert((m.dim.1 - 1) * m.stride.1 == m.stride.1 * (m.dim.1 - 1)) by (nonlinear_arith);
        assert(1 * at.0 == at.0) by (nonlinear_arith);
    }
}

/// The arguments of a vector kernel on one operand of unit stride.
pub open spec fn spec_elementwise(dim: usize, stride: usize) -> Result<usize, LinalgError> {
    if stride != 1 {
        Err(LinalgError::Unsupported)
    } else {
        Ok(dim)
    }
}

/// An element-wise kernel on one vector: the number of elements to work
/// on.  Only the unit stride is supported.
pub fn elementwise_plan(dim: usize, stride: usize) -> (r: Result<usize, LinalgError>)
    ensures
        r == spec_elementwise(dim, stride),
{
    if stride != 1 {
        Err(LinalgError::Unsupported)
    } else {
        Ok(dim)
    }
}

/// An element-wise kernel on a destination and a source vector of the same
/// extent: the number of elements to work on, `DimMismatch` where the
/// extents differ, and `Unsupported` where the destination does not have
/// unit stride.
pub fn elementwise_pair_plan(dst_dim: usize, dst_stride: usize, src_dim: usize) -> (r: Result<
    usize,
    LinalgError,
>)
    ensures
        r == if dst_dim != src_dim {
            Err::<usize, LinalgError>(LinalgError::DimMismatch)
        } else {
            spec_elementwise(dst_dim, dst_stride)
        },
{
    if dst_dim != src_dim {
        Err(LinalgError::DimMismatch)
    } else {
        elementwise_plan(dst_dim, dst_stride)
    }
}

/// The arguments of a kernel on two vectors.
#[derive(Clone, Copy, Debug, PartialEq, Eq, Structural)]
pub struct DotPlan {
    pub n: i32,
    pub incx: i32,
    pub incy: i32,
}

/// What a two-vector kernel is called with.
pub open spec fn spec_dot(x_dim: usize, x_stride: usize, y_dim: usize, y_stride: usize) -> Result<
    DotPlan,
    LinalgError,
> {
    if x_dim != y_dim {
        Err(LinalgError::DimMismatch)
    } else if x_dim > KERNEL_INT_MAX || x_stride > KERNEL_INT_MAX || y_stride > KERNEL_INT_MAX {
        Err(LinalgError::TooLarge)
    } else {
        Ok(DotPlan { n: x_dim as i32, incx: x_stride as i32, incy: y_stride as i32 })
    }
}

/// The inner product of two vectors: they must have the same extent.
pub fn inner_prod_plan(x_dim: usize, x_stride: usize, y_dim: usize, y_stride: usize) -> (r: Result<
    DotPlan,
    LinalgError,
>)
    ensures
        r == spec_dot(x_dim, x_stride, y_dim, y_stride),
{
    if x_dim != y_dim {
        return Err(LinalgError::DimMismatch);
    }
    if x_dim > KERNEL_INT_MAX || x_stride > KERNEL_INT_MAX || y_stride > KERNEL_INT_MAX {
        return Err(LinalgError::TooLarge);
    }
    Ok(DotPlan { n: x_dim as i32, incx: x_stride as i32, incy: y_stride as i32 })
}

/// What adding a matrix to a matrix is called with.
pub open spec fn spec_matrix_add(
    y_dim: (usize, usize),
    y_stride: (usize, usize),
    x_dim: (usize, usize),
    x_stride: (usize, usize),
) -> Result<DotPlan, LinalgError> {
    if x_dim != y_dim {
        Err(LinalgError::DimMismatch)
    } else if x_dim.1 != 1 {
        Err(LinalgError::Unsupported)
    } else if x_dim.0 > KERNEL_INT_MAX || x_stride.0 > KERNEL_INT_MAX || y_stride.0
        > KERNEL_INT_MAX {
        Err(LinalgError::TooLarge)
    } else {
        Ok(DotPlan { n: x_dim.0 as i32, incx: x_stride.0 as i32, incy: y_stride.0 as i32 })
    }
}

/// Adding a multiple of matrix `x` to matrix `y`: the shapes must agree,
/// and only matrices of one column are supported.
pub fn matrix_add_plan(
    y_dim: (usize, usize),
    y_stride: (usize, usize),
    x_dim: (usize, usize),
    x_stride: (usize, usize),
) -> (r: Result<DotPlan, LinalgError>)
    ensures
        r == spec_matrix_add(y_dim, y_stride, x_dim, x_stride),
{
    if x_dim.0 != y_dim.0 || x_dim.1 != y_dim.1 {
        return Err(LinalgError::DimMismatch);
    }
    if x_dim.1 != 1 {
        return Err(LinalgError::Unsupported);
    }
    if x_dim.0 > KERNEL_INT_MAX || x_stride.0 > KERNEL_INT_MAX || y_stride.0 > KERNEL_INT_MAX {
        return Err(LinalgError::TooLarge);
    }
    Ok(DotPlan { n: x_dim.0 as i32, incx: x_stride.0 as i32, incy: y_stride.0 as i32 })
}

/// The arguments of the matrix-vector kernel: the extents of the matrix as
/// it is stored, its leading dimension, and the steps of the two vectors.
#[derive(Clone, Copy, Debug, PartialEq, Eq, Structural)]
pub struct GemvPlan {
    pub m: i32,
    pub n: i32,
    pub lda: i32,
    pub incx: i32,
    pub incy: i32,
}

/// What the matrix-vector product `y = alpha * op(a) * x + beta * y` is
/// called with.
pub open spec fn spec_matrix_vector_prod(
    y_dim: usize,
    y_stride: usize,
    a_dim: (usize, usize),
    a_stride: (usize, usize),
    a_trans: Transpose,
    x_dim: usize,
    x_stride: usize,
) -> Result<GemvPlan, LinalgError> {
    let at = spec_transposed(a_dim, a_trans);
    if y_dim != at.0 || x_dim != at.1 {
        Err(LinalgError::DimMismatch)
    } else if a_stride.0 != 1 {
        Err(LinalgError::NonUnitStride)
    } else if a_dim.0 > KERNEL_INT_MAX || a_dim.1 > KERNEL_INT_MAX || a_stride.1 > KERNEL_INT_MAX
        || x_stride > KERNEL_INT_MAX || y_stride > KERNEL_INT_MAX {
        Err(LinalgError::TooLarge)
    } else {
        Ok(
            GemvPlan {
                m: a_dim.0 as i32,
                n: a_dim.1 as i32,
                lda: a_stride.1 as i32,
                incx: x_stride as i32,
                incy: y_stride as i32,
            },
        )
    }
}

/// The matrix-vector product: `y` must have as many elements as `op(a)` has
/// rows and `x` as many as it has columns, and `a` must step by one along
/// its first axis.
pub fn matrix_vector_prod_plan(
    y_dim: usize,
    y_stride: usize,
    a_dim: (usize, usize),
    a_stride: (usize, usize),
    a_trans: Transpose,
    x_dim: usize,
    x_stride: usize,
) -> (r: Result<GemvPlan, LinalgError>)
    ensures
        r == spec_matrix_vector_prod(y_dim, y_stride, a_dim, a_stride, a_trans, x_dim, x_stride),
{
    let at: (usize, usize) = transposed(a_dim, a_trans);
    if y_dim != at.0 || x_dim != at.1 {
        return Err(LinalgError::DimMismatch);
    }
    if a_stride.0 != 1 {
        return Err(LinalgError::NonUnitStride);
    }
    if a_dim.0 > KERNEL_INT_MAX || a_dim.1 > KERNEL_INT_MAX || a_stride.1 > KERNEL_INT_MAX
        || x_stride > KERNEL_INT_MAX || y_stride > KERNEL_INT_MAX {
        return Err(LinalgError::TooLarge);
    }
    Ok(
        GemvPlan {
            m: a_dim.0 as i32,
            n: a_dim.1 as i32,
            lda: a_stride.1 as i32,
            incx: x_stride as i32,
            incy: y_stride as i32,
        },
    )
}

/// The arguments of the matrix-matrix kernel: the extents of the product,
/// the extent that is summed over, and the three leading dimensions.
#[derive(Clone, Copy, Debug, PartialEq, Eq, Structural)]
pub struct GemmPlan {
    pub m: i32,
    pub n: i32,
    pub k: i32,
    pub lda: i32,
    pub ldb: i32,
    pub ldc: i32,
}

/// What the matrix product `c = alpha * op(a) * op(b) + beta * c` is
/// called with.
pub open spec fn spec_matrix_prod(
    c_dim: (usize, usize),
    c_stride: (usize, usize),
    a_dim: (usize, usize),
    a_stride: (usize, usize),
    a_trans: Transpose,
    b_dim: (usize, usize),
    b_stride: (usize, usize),
    b_trans: Transpose,
) -> Result<GemmPlan, LinalgError> {
    let at = spec_transposed(a_dim, a_trans);
    let bt = spec_transposed(b_dim, b_trans);
    if c_dim.0 != at.0 || c_dim.1 != bt.1 || at.1 != bt.0 {
        Err(LinalgError::DimMismatch)
    } else if a_stride.0 != 1 || b_stride.0 != 1 || c_stride.0 != 1 {
        Err(LinalgError::NonUnitStride)
    } else if c_dim.0 > KERNEL_INT_MAX || c_dim.1 > KERNEL_INT_MAX || at.1 > KERNEL_INT_MAX
        || a_stride.1 > KERNEL_INT_MAX || b_stride.1 > KERNEL_INT_MAX || c_stride.1
        > KERNEL_INT_MAX {
        Err(LinalgError::TooLarge)
    } else {
        Ok(
            GemmPlan {
                m: c_dim.0 as i32,
                n: c_dim.1 as i32,
                k: at.1 as i32,
                lda: a_stride.1 as i32,
                ldb: b_stride.1 as i32,
                ldc: c_stride.1 as i32,
            },
        )
    }
}

/// The matrix product: `c` must have the rows of `op(a)` and the columns
/// of `op(b)`, `op(a)` must have as many columns as `op(b)` has rows, and
/// all three must step by one along their first axis.
pub fn matrix_prod_plan(
    c_dim: (usize, usize),
    c_stride: (usize, usize),
    a_dim: (usize, usize),
    a_stride: (usize, usize),
    a_trans: Transpose,
    b_dim: (usize, usize),
    b_stride: (usize, usize),
    b_trans: Transpose,
) -> (r: Result<GemmPlan, LinalgError>)
    ensures
        r == spec_matrix_prod(
            c_dim,
            c_stride,
            a_dim,
            a_stride,
            a_trans,
            b_dim,
            b_stride,
            b_trans,
        ),
{
    let at: (usize, usize) = transposed(a_dim, a_trans);
    let bt: (usize, usize) = transposed(b_dim, b_trans);
    if c_dim.0 != at.0 || c_dim.1 != bt.1 || at.1 != bt.0 {
        return Err(LinalgError::DimMismatch);
    }
    if a_stride.0 != 1 || b_stride.0 != 1 || c_stride.0 != 1 {
        return Err(LinalgError::NonUnitStride);
    }
    if c_dim.0 > KERNEL_INT_MAX || c_dim.1 > KERNEL_INT_MAX || at.1 > KERNEL_INT_MAX
        || a_stride.1 > KERNEL_INT_MAX || b_stride.1 > KERNEL_INT_MAX || c_stride.1
        > KERNEL_INT_MAX {
        return Err(LinalgError::TooLarge);
    }
    Ok(
        GemmPlan {
            m: c_dim.0 as i32,
            n: c_dim.1 as i32,
            k: at.1 as i32,
            lda: a_stride.1 as i32,
            ldb: b_stride.1 as i32,
            ldc: c_stride.1 as i32,
        },
    )
}

/// The arguments of the factorise-and-solve kernels: the order of the
/// system and the leading dimension of its matrix.
#[derive(Clone, Copy, Debug, PartialEq, Eq, Structural)]
pub struct SolvePlan {
    pub n: i32,
    pub lda: i32,
}

/// What the solve of a symmetric positive-definite system `a * x = b` is
/// called with.
pub open spec fn spec_symm_linear_solve(
    x_dim: usize,
    x_stride: usize,
    a_dim: (usize, usize),
    a_stride: (usize, usize),
    b_dim: usize,
    b_stride: usize,
) -> Result<SolvePlan, LinalgError> {
    if a_dim.0 != a_dim.1 || b_dim != a_dim.1 || x_dim != a_dim.1 {
        Err(LinalgError::DimMismatch)
    } else if a_stride.0 != 1 || b_stride != 1 || x_stride != 1 {
        Err(LinalgError::NonUnitStride)
    } else if a_dim.1 > KERNEL_INT_MAX || a_stride.1 > KERNEL_INT_MAX {
        Err(LinalgError::TooLarge)
    } else {
        Ok(SolvePlan { n: a_dim.1 as i32, lda: a_stride.1 as i32 })
    }
}

/// The solve of a symmetric positive-definite system: the matrix must be
/// square, both vectors must have its order, and all three must have unit
/// stride.
pub fn symm_linear_solve_plan(
    x_dim: usize,
    x_stride: usize,
    a_dim: (usize, usize),
    a_stride: (usize, usize),
    b_dim: usize,
    b_stride: usize,
) -> (r: Result<SolvePlan, LinalgError>)
    ensures
        r == spec_symm_linear_solve(x_dim, x_stride, a_dim, a_stride, b_dim, b_stride),
{
    if a_dim.0 != a_dim.1 || b_dim != a_dim.1 || x_dim != a_dim.1 {
        return Err(LinalgError::DimMismatch);
    }
    if a_stride.0 != 1 || b_stride != 1 || x_stride != 1 {
        return Err(LinalgError::NonUnitStride);
    }
    if a_dim.1 > KERNEL_INT_MAX || a_stride.1 > KERNEL_INT_MAX {
        return Err(LinalgError::TooLarge);
    }
    Ok(SolvePlan { n: a_dim.1 as i32, lda: a_stride.1 as i32 })
}

/// The order of a symmetric tridiagonal eigenvalue problem: the diagonal
/// has `n >= 1` entries, the off-diagonal `n - 1`, and there is room for
/// `n` eigenvalues.
pub fn tridiagonal_plan(diag_len: usize, offdiag_len: usize, eigenvals_len: usize) -> (r: Result<
    i32,
    LinalgError,
>)
    ensures
        r == if diag_len == 0 || diag_len - 1 != offdiag_len || diag_len != eigenvals_len {
            Err::<i32, LinalgError>(LinalgError::DimMismatch)
        } else if diag_len > KERNEL_INT_MAX {
            Err::<i32, LinalgError>(LinalgError::TooLarge)
        } else {
            Ok::<i32, LinalgError>(diag_len as i32)
        },
{
    if diag_len == 0 || diag_len - 1 != offdiag_len || diag_len != eigenvals_len {
        return Err(LinalgError::DimMismatch);
    }
    if diag_len > KERNEL_INT_MAX {
        return Err(LinalgError::TooLarge);
    }
    Ok(diag_len as i32)
}

/// What the eigenvalue kernel's answer means: a negative status is a
/// failure, any other status gives the number of eigenvalues found.
pub fn tridiagonal_outcome(status: i32, found: i32) -> (r: Result<usize, ()>)
    requires
        status >= 0 ==> found >= 0,
    ensures
        r == if status < 0 {
            Err::<usize, ()>(())
        } else {
            Ok::<usize, ()>(found as usize)
        },
{
    if status < 0 {
        Err(())
    } else {
        Ok(found as usize)
    }
}

impl<'a, T: Copy> Array2dView<'a, T> {
    /// Copies the diagonal of a square matrix into `y`, element `(k, k)` of
    /// the matrix to element `k` of `y`, in the order of `k`; nothing else
    /// in `y`'s buffer changes.  An element of `y` holds its diagonal
    /// element unless a later element of `y` lies at the same position,
    /// which only a stride of zero brings about.
    pub fn matrix_diag(&self, y: &mut Array1dViewMut<'a, T>)
        requires
            self@.dim.0 == self@.dim.1,
            self@.dim.0 == old(y)@.dim,
            self@.stride.0 == 1,
            self@.spans(),
            old(y)@.spans(),
        ensures
            final(y)@.dim == old(y)@.dim,
            final(y)@.stride == old(y)@.stride,
            final(y)@.data.len() == old(y)@.data.len(),
            final(final(y).target())@ == final(old(y).target())@,
            forall|k: usize|
                k < self@.dim.0 && #[trigger] last_at_slot(old(y)@.stride, k, old(y)@.dim)
                    ==> final(y)@.at(k) == self@.at((k, k)),
            forall|i: int|
                0 <= i < old(y)@.data.len() && !is_diag_slot(i, old(y)@.stride, old(y)@.dim)
                    ==> final(y)@.data[i] == old(y)@.data[i],
    {
        let n: usize = y.dim();
        let (a_inc, lda) = self.stride();
        let incy: usize = y.stride();
        let src: &[T] = self.as_slice();
        let src_len: usize = src.len();
        let dst_len: usize = y.as_slice().len();
        let ghost a = self@;
        let ghost y0 = y@;
        let mut k: usize = 0;
        while k < n
            invariant
                k <= n,
                n == a.dim.0,
                a.dim.0 == a.dim.1,
                a.stride == (a_inc, lda),
                a_inc == 1,
                a.spans(),
                y0.spans(),
                y0 == old(y)@,
                y0.dim == n,
                y0.stride == incy,
                src@ == a.data,
                src_len == a.data.len(),
                dst_len == y0.data.len(),
                y@.dim == y0.dim,
                y@.stride == y0.stride,
                y@.data.len() == y0.data.len(),
                final(y.target())@ == final(old(y).target())@,
                forall|j: usize|
                    j < k && #[trigger] last_at_slot(incy, j, k) ==> y@.at(j) == a.at((j, j)),
                forall|i: int|
                    0 <= i < y0.data.len() && !is_diag_slot(i, incy, k) ==> y@.data[i]
                        == y0.data[i],
            decreases n - k,
        {
            proof {
                assert(a.dim.spec_contains((k, k)));
                assert(y0.dim.spec_contains(k));
                crate::index::lemma_product_nonnegative(lda as int, k as int);
                crate::index::lemma_product_nonnegative(incy as int, k as int);
                assert((k, k).spec_offset(a.stride) == 1 * k + lda * k);
                assert(k.spec_offset(incy) == incy * k);
            }
            let p: usize = k + lda * k;
            let q: usize = incy * k;
            let x: T = src[p];
            let ghost before = y@;
            let dst: &mut [T] = y.as_mut_slice();
            dst[q] = x;
            proof {
                assert(y@.data == before.data.update(q as int, x));
                assert forall|j: usize|
                    j < k + 1 && #[trigger] last_at_slot(incy, j, (k + 1) as usize) implies y@.at(
                    j,
                ) == a.at((j, j)) by {
                    if j < k {
                        assert(slot(incy, k) != slot(incy, j));
                        assert(last_at_slot(incy, j, k));
                        assert(before.at(j) == a.at((j, j)));
                        crate::index::lemma_product_nonnegative(incy as int, j as int);
                        assert(j.spec_offset(incy) == slot(incy, j));
                        assert(y0.dim.spec_contains(j));
                        assert(y@.at(j) == before.at(j));
                    } else {
                        assert(j == k);
                        assert(y@.at(k) == y@.data[q as int]);
                        assert(a.at((k, k)) == a.data[p as int]);
                    }
                }
                assert forall|i: int|
                    0 <= i < y0.data.len() && !is_diag_slot(
                        i,
                        incy,
                        (k + 1) as usize,
                    ) implies y@.data[i] == y0.data[i] by {
                    assert(!is_diag_slot(i, incy, k)) by {
                        if is_diag_slot(i, incy, k) {
                            let j = choose|j: usize| j < k && i == #[trigger] slot(incy, j);
                            assert(j < k + 1 && i == slot(incy, j));
                        }
                    }
                    if i == q {
                        assert(k < k + 1 && i == slot(incy, k));
                    }
                }
            }
            k += 1;
        }
    }
}

/// The position of element `j` of a vector with stride `stride`.
pub open spec fn slot(stride: usize, j: usize) -> int {
    stride * j
}

/// Position `i` of a vector's buffer holds one of the vector's first `n`
/// elements under stride `stride`.
pub open spec fn is_diag_slot(i: int, stride: usize, n: usize) -> bool {
    exists|j: usize| j < n && i == #[trigger] slot(stride, j)
}

/// Among the first `n` elements of a vector with stride `stride`, none
/// behind element `k` lies at the position of element `k`.
pub open spec fn last_at_slot(stride: usize, k: usize, n: usize) -> bool {
    forall|j: usize| k < j < n ==> #[trigger] slot(stride, j) != slot(stride, k)
}

/// Under a stride of at least one, no two elements share a position.
pub proof fn lemma_slots_distinct(stride: usize, k: usize, n: usize)
    requires
        stride >= 1,
    ensures
        last_at_slot(stride, k, n),
{
    assert forall|j: usize| k < j < n implies #[trigger] slot(stride, j) != slot(stride, k) by {
        assert(stride * j > stride * k) by (nonlinear_arith)
            requires
                stride >= 1,
                j > k,
        ;
    }
}

} // verus!
