use densearray::ArrayIndex;

#[test]
fn least_stride_is_column_major() {
    assert_eq!(5usize.least_stride(), 1);
    assert_eq!((2usize, 3usize).least_stride(), (1, 2));
    assert_eq!((2usize, 3usize, 4usize).least_stride(), (1, 2, 6));
    assert_eq!((2usize, 3usize, 4usize, 5usize).least_stride(), (1, 2, 6, 24));
}

#[test]
fn least_stride_starts_with_one_even_for_empty_shapes() {
    assert_eq!(0usize.least_stride(), 1);
    assert_eq!((0usize, 7usize).least_stride().0, 1);
    assert_eq!((0usize, 7usize, 3usize).least_stride().0, 1);
    assert_eq!((9usize, 0usize, 3usize, 2usize).least_stride().0, 1);
}

#[test]
fn flat_len_is_the_product_of_the_extents() {
    assert_eq!(7usize.flat_len(), 7);
    assert_eq!((2usize, 3usize).flat_len(), 6);
    assert_eq!((2usize, 3usize, 4usize).flat_len(), 24);
    assert_eq!((2usize, 3usize, 4usize, 5usize).flat_len(), 120);
    assert_eq!((2usize, 0usize, 4usize).flat_len(), 0);
}

#[test]
fn offset_is_the_sum_of_stride_times_coordinate() {
    assert_eq!(3usize.offset(4), 12);
    assert_eq!((1usize, 2usize).offset((1, 5)), 11);
    assert_eq!((1usize, 2usize, 3usize).offset((1, 4, 12)), 1 + 8 + 36);
    assert_eq!((1usize, 2usize, 3usize, 4usize).offset((1, 2, 6, 24)), 1 + 4 + 18 + 96);
    assert_eq!((0usize, 0usize).offset((9, 9)), 0);
}

#[test]
fn diff_subtracts_axis_by_axis() {
    assert_eq!(9usize.diff(4), 5);
    assert_eq!((9usize, 8usize).diff((4, 8)), (5, 0));
    assert_eq!((9usize, 8usize, 7usize).diff((1, 2, 3)), (8, 6, 4));
    assert_eq!((9usize, 8usize, 7usize, 6usize).diff((0, 0, 0, 0)), (9, 8, 7, 6));
}

#[test]
fn last_coordinate_lies_at_the_last_position() {
    let s1 = 7usize;
    assert_eq!(s1.diff(1).offset(s1.least_stride()) + 1, s1.flat_len());
    let s2 = (2usize, 3usize);
    assert_eq!(s2.diff((1, 1)).offset(s2.least_stride()) + 1, s2.flat_len());
    let s3 = (2usize, 3usize, 4usize);
    assert_eq!(s3.diff((1, 1, 1)).offset(s3.least_stride()) + 1, s3.flat_len());
    let s4 = (2usize, 3usize, 4usize, 5usize);
    assert_eq!(s4.diff((1, 1, 1, 1)).offset(s4.least_stride()) + 1, s4.flat_len());
}

#[test]
fn every_coordinate_of_a_shape_has_its_own_position() {
    let shape = (2usize, 3usize, 2usize);
    let stride = shape.least_stride();
    let mut seen = vec![false; shape.flat_len()];
    for k in 0..shape.2 {
        for j in 0..shape.1 {
            for i in 0..shape.0 {
                let at = (i, j, k).offset(stride);
                assert!(at < seen.len());
                assert!(!seen[at]);
                seen[at] = true;
            }
        }
    }
    assert!(seen.iter().all(|s| *s));
}

#[test]
fn checked_flat_len_is_the_product_or_nothing() {
    assert_eq!(7usize.checked_flat_len(), Some(7));
    assert_eq!((2usize, 3usize).checked_flat_len(), Some(6));
    assert_eq!((2usize, 3usize, 4usize).checked_flat_len(), Some(24));
    assert_eq!((2usize, 3usize, 4usize, 5usize).checked_flat_len(), Some(120));
    assert_eq!((usize::MAX, 2usize).checked_flat_len(), None);
    assert_eq!((usize::MAX, 2usize, 0usize).checked_flat_len(), None);
    assert_eq!((2usize, usize::MAX, 1usize, 0usize).checked_flat_len(), None);
    assert_eq!((2usize, 2usize, usize::MAX, 1usize).checked_flat_len(), None);
    assert_eq!((0usize, usize::MAX).checked_flat_len(), Some(0));
}
