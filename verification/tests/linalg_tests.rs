use densearray::linalg::{
    elementwise_pair_plan, elementwise_plan, inner_prod_plan, matrix_add_plan, matrix_prod_plan,
    matrix_fits, matrix_reach, matrix_vector_prod_plan, symm_linear_solve_plan, transposed,
    tridiagonal_outcome, tridiagonal_plan, vector_fits, vector_reach, DotPlan, GemmPlan, GemvPlan,
    LinalgError, SolvePlan, Transpose,
};
use densearray::traits::aliased_len;
use densearray::{Array1d, Array2d, AsView, AsViewMut, Flatten, Reshape, View};

#[test]
fn transposing_swaps_the_extents() {
    assert_eq!(transposed((2, 3), Transpose::N), (2, 3));
    assert_eq!(transposed((2, 3), Transpose::T), (3, 2));
}

#[test]
fn a_vector_reaches_one_behind_its_last_element() {
    assert_eq!(vector_reach(0, 5), Some(0));
    assert_eq!(vector_reach(1, 5), Some(1));
    assert_eq!(vector_reach(4, 3), Some(10));
    assert_eq!(vector_reach(4, 0), Some(1));
    assert_eq!(vector_reach(3, usize::MAX), None);
}

#[test]
fn vectors_and_matrices_fit_buffers_that_hold_their_reach() {
    assert!(vector_fits(4, 3, 10));
    assert!(!vector_fits(4, 3, 9));
    assert!(vector_fits(0, 9, 0));
    assert!(!vector_fits(3, usize::MAX, usize::MAX));
    assert!(matrix_fits((3, 4), (1, 5), 18));
    assert!(!matrix_fits((3, 4), (1, 5), 17));
    assert!(!matrix_fits((3, 4), (1, 2), 100));
    assert!(matrix_fits((3, 1), (1, 0), 3));
    assert!(matrix_fits((0, 4), (1, 0), 0));
}

#[test]
fn a_matrix_reaches_behind_the_last_element_of_its_last_column() {
    assert_eq!(matrix_reach((0, 4), 7), Some(0));
    assert_eq!(matrix_reach((3, 0), 7), Some(0));
    assert_eq!(matrix_reach((3, 1), 7), Some(3));
    assert_eq!(matrix_reach((3, 4), 5), Some(18));
    assert_eq!(matrix_reach((3, 4), 3), Some(12));
    assert_eq!(matrix_reach((3, 3), usize::MAX), None);
}

#[test]
fn element_wise_kernels_ask_for_unit_stride() {
    assert_eq!(elementwise_plan(5, 1), Ok(5));
    assert_eq!(elementwise_plan(5, 2), Err(LinalgError::Unsupported));
    assert_eq!(elementwise_pair_plan(5, 1, 5), Ok(5));
    assert_eq!(elementwise_pair_plan(5, 1, 4), Err(LinalgError::DimMismatch));
    assert_eq!(elementwise_pair_plan(5, 3, 5), Err(LinalgError::Unsupported));
}

#[test]
fn inner_products_ask_for_equal_extents() {
    assert_eq!(inner_prod_plan(4, 1, 4, 2), Ok(DotPlan { n: 4, incx: 1, incy: 2 }));
    assert_eq!(inner_prod_plan(4, 1, 5, 1), Err(LinalgError::DimMismatch));
    assert_eq!(inner_prod_plan(4, 1 << 31, 4, 1), Err(LinalgError::TooLarge));
}

#[test]
fn matrix_sums_ask_for_equal_shapes_and_one_column() {
    assert_eq!(
        matrix_add_plan((4, 1), (1, 4), (4, 1), (2, 8)),
        Ok(DotPlan { n: 4, incx: 2, incy: 1 })
    );
    assert_eq!(matrix_add_plan((4, 1), (1, 4), (4, 2), (1, 4)), Err(LinalgError::DimMismatch));
    assert_eq!(matrix_add_plan((4, 2), (1, 4), (4, 2), (1, 4)), Err(LinalgError::Unsupported));
    assert_eq!(matrix_add_plan((1, 4), (1, 1), (1, 4), (1, 1)), Err(LinalgError::Unsupported));
}

#[test]
fn matrix_vector_products_ask_for_matching_extents() {
    assert_eq!(
        matrix_vector_prod_plan(2, 1, (2, 3), (1, 2), Transpose::N, 3, 1),
        Ok(GemvPlan { m: 2, n: 3, lda: 2, incx: 1, incy: 1 })
    );
    assert_eq!(
        matrix_vector_prod_plan(3, 2, (2, 3), (1, 5), Transpose::T, 2, 4),
        Ok(GemvPlan { m: 2, n: 3, lda: 5, incx: 4, incy: 2 })
    );
    assert_eq!(
        matrix_vector_prod_plan(3, 1, (2, 3), (1, 2), Transpose::N, 3, 1),
        Err(LinalgError::DimMismatch)
    );
    assert_eq!(
        matrix_vector_prod_plan(2, 1, (2, 3), (1, 2), Transpose::N, 2, 1),
        Err(LinalgError::DimMismatch)
    );
    assert_eq!(
        matrix_vector_prod_plan(2, 1, (2, 3), (2, 4), Transpose::N, 3, 1),
        Err(LinalgError::NonUnitStride)
    );
    assert_eq!(
        matrix_vector_prod_plan(2, 1, (2, 3), (1, 1 << 31), Transpose::N, 3, 1),
        Err(LinalgError::TooLarge)
    );
}

#[test]
fn matrix_products_ask_for_matching_extents_and_unit_strides() {
    assert_eq!(
        matrix_prod_plan(
            (2, 4),
            (1, 2),
            (2, 3),
            (1, 2),
            Transpose::N,
            (3, 4),
            (1, 3),
            Transpose::N
        ),
        Ok(GemmPlan { m: 2, n: 4, k: 3, lda: 2, ldb: 3, ldc: 2 })
    );
    assert_eq!(
        matrix_prod_plan(
            (2, 4),
            (1, 7),
            (3, 2),
            (1, 3),
            Transpose::T,
            (4, 3),
            (1, 4),
            Transpose::T
        ),
        Ok(GemmPlan { m: 2, n: 4, k: 3, lda: 3, ldb: 4, ldc: 7 })
    );
    assert_eq!(
        matrix_prod_plan(
            (2, 4),
            (1, 2),
            (2, 3),
            (1, 2),
            Transpose::N,
            (4, 4),
            (1, 4),
            Transpose::N
        ),
        Err(LinalgError::DimMismatch)
    );
    assert_eq!(
        matrix_prod_plan(
            (2, 4),
            (1, 2),
            (2, 3),
            (1, 2),
            Transpose::N,
            (3, 4),
            (2, 6),
            Transpose::N
        ),
        Err(LinalgError::NonUnitStride)
    );
    assert_eq!(
        matrix_prod_plan(
            (2, 4),
            (1, 1 << 31),
            (2, 3),
            (1, 2),
            Transpose::N,
            (3, 4),
            (1, 3),
            Transpose::N
        ),
        Err(LinalgError::TooLarge)
    );
}

#[test]
fn solves_ask_for_a_square_system_with_unit_strides() {
    assert_eq!(
        symm_linear_solve_plan(3, 1, (3, 3), (1, 3), 3, 1),
        Ok(SolvePlan { n: 3, lda: 3 })
    );
    assert_eq!(
        symm_linear_solve_plan(3, 1, (3, 4), (1, 3), 3, 1),
        Err(LinalgError::DimMismatch)
    );
    assert_eq!(
        symm_linear_solve_plan(2, 1, (3, 3), (1, 3), 3, 1),
        Err(LinalgError::DimMismatch)
    );
    assert_eq!(
        symm_linear_solve_plan(3, 2, (3, 3), (1, 3), 3, 1),
        Err(LinalgError::NonUnitStride)
    );
    assert_eq!(
        symm_linear_solve_plan(3, 1, (3, 3), (1, 1 << 31), 3, 1),
        Err(LinalgError::TooLarge)
    );
}

#[test]
fn tridiagonal_problems_have_one_off_diagonal_entry_less() {
    assert_eq!(tridiagonal_plan(4, 3, 4), Ok(4));
    assert_eq!(tridiagonal_plan(1, 0, 1), Ok(1));
    assert_eq!(tridiagonal_plan(0, 0, 0), Err(LinalgError::DimMismatch));
    assert_eq!(tridiagonal_plan(4, 4, 4), Err(LinalgError::DimMismatch));
    assert_eq!(tridiagonal_plan(4, 3, 5), Err(LinalgError::DimMismatch));
    assert_eq!(tridiagonal_outcome(0, 3), Ok(3));
    assert_eq!(tridiagonal_outcome(2, 0), Ok(0));
    assert_eq!(tridiagonal_outcome(-1, 3), Err(()));
}

#[test]
fn the_diagonal_of_a_matrix_is_copied_into_a_vector() {
    let a = Array2d::from_storage((3, 3), vec![1u8, 2, 3, 4, 5, 6, 7, 8, 9]);
    let mut y: Array1d<u8> = Array1d::zeros(3);
    {
        let mut w = y.as_view_mut();
        a.as_view().matrix_diag(&mut w);
    }
    assert_eq!(y.as_slice(), &[1u8, 5, 9][..]);
}

#[test]
fn the_diagonal_of_a_window_is_copied_with_its_leading_dimension() {
    let data: Vec<u8> = (0..12).collect();
    let a = Array2d::from_storage((2, 6), data);
    let window = a.as_view().view((0, 2), (2, 4));
    assert_eq!(window.dim(), (2, 2));
    let mut y: Array1d<u8> = Array1d::zeros(2);
    {
        let mut w = y.as_view_mut();
        window.matrix_diag(&mut w);
    }
    assert_eq!(y.as_slice(), &[4u8, 7][..]);
    let flat = a.as_view().flatten();
    assert_eq!(flat.reshape((1usize, 12usize)).dim(), (1, 12));
}

#[test]
fn bytes_alias_to_whole_elements_only() {
    assert_eq!(aliased_len(16, 4), Some(4));
    assert_eq!(aliased_len(0, 4), Some(0));
    assert_eq!(aliased_len(15, 4), None);
    assert_eq!(aliased_len(15, 1), Some(15));
    assert_eq!(aliased_len(8, 0), None);
}
