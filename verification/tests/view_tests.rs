use densearray::{
    Array1d, Array2d, Array3d, Array4d, ArrayIndex, AsView, AsViewMut, SetConstant, View, ViewMut,
};

#[test]
fn a_window_has_the_difference_of_its_bounds_as_shape() {
    let a = Array1d::from_storage(6, vec![10u8, 11, 12, 13, 14, 15]);
    let v = a.as_view().view(2, 5);
    assert_eq!(v.dim(), 5usize.diff(2));
    assert_eq!(v.stride(), 1);
    assert_eq!(v.as_slice(), &[12u8, 13, 14][..]);
}

#[test]
fn a_window_over_the_outer_axis_starts_at_the_offset_of_its_lower_bound() {
    let data: Vec<u8> = (0..12).collect();
    let a = Array2d::from_storage((3, 4), data);
    let v = a.as_view().view((0, 1), (3, 3));
    assert_eq!(v.dim(), (3, 2));
    assert_eq!(v.stride(), (1, 3));
    assert_eq!(v.as_slice(), &[3u8, 4, 5, 6, 7, 8][..]);
    assert!(v.is_contiguous());
}

#[test]
fn a_window_keeps_the_stride_and_takes_flat_len_elements() {
    let data: Vec<u8> = (0..12).collect();
    let a = Array2d::from_storage((3, 4), data);
    let v = a.as_view().view((1, 0), (3, 2));
    assert_eq!(v.dim(), (2, 2));
    assert_eq!(v.stride(), (1, 3));
    assert_eq!(v.as_slice(), &[1u8, 2, 3, 4][..]);
    assert!(!v.is_contiguous());
}

#[test]
fn a_window_over_the_full_extent_is_the_view_itself() {
    let data: Vec<u8> = (0..24).collect();
    let a = Array3d::from_storage((2, 3, 4), data);
    let v = a.as_view();
    let w = v.view((0, 0, 0), v.dim());
    assert_eq!(w.dim(), v.dim());
    assert_eq!(w.stride(), v.stride());
    assert_eq!(w.as_slice(), v.as_slice());
    assert_eq!(w.as_slice().as_ptr(), v.as_slice().as_ptr());

    let b = Array4d::from_storage((1, 2, 1, 2), vec![1u8, 2, 3, 4]);
    let x = b.as_view();
    let y = x.view((0, 0, 0, 0), x.dim());
    assert_eq!(y.dim(), x.dim());
    assert_eq!(y.stride(), x.stride());
    assert_eq!(y.as_slice().as_ptr(), x.as_slice().as_ptr());
}

#[test]
fn an_empty_window_is_empty() {
    let a = Array1d::from_storage(3, vec![1u8, 2, 3]);
    let v = a.as_view().view(1, 1);
    assert_eq!(v.dim(), 0);
    assert_eq!(v.as_slice().len(), 0);
}

#[test]
fn windows_of_windows_compose() {
    let data: Vec<u8> = (0..10).collect();
    let a = Array1d::from_storage(10, data);
    let v = a.as_view().view(2, 9).view(1, 4);
    assert_eq!(v.dim(), 3);
    assert_eq!(v.as_slice(), &[3u8, 4, 5][..]);
}

#[test]
fn writes_through_a_mutable_window_leave_the_rest() {
    let mut a: Array1d<u8> = Array1d::zeros(6);
    {
        let mut w = a.as_view_mut().view_mut(2, 5);
        assert_eq!(w.dim(), 3);
        w.set_constant(9);
    }
    assert_eq!(a.as_slice(), &[0u8, 0, 9, 9, 9, 0][..]);
}

#[test]
fn a_mutable_window_of_a_matrix_covers_whole_columns() {
    let mut a: Array2d<u8> = Array2d::zeros((2, 3));
    {
        let mut w = a.as_view_mut().view_mut((0, 1), (2, 2));
        assert_eq!(w.dim(), (2, 1));
        assert_eq!(w.stride(), (1, 2));
        w.as_mut_slice()[0] = 4;
        w.as_mut_slice()[1] = 5;
    }
    assert_eq!(a.as_slice(), &[0u8, 0, 4, 5, 0, 0][..]);
}

#[test]
fn mutable_windows_exist_for_every_rank() {
    let mut a: Array3d<u8> = Array3d::zeros((1, 2, 3));
    {
        let w = a.as_view_mut().view_mut((0, 0, 1), (1, 2, 3));
        assert_eq!(w.dim(), (1, 2, 2));
        let mut w = w;
        w.as_mut_slice()[0] = 7;
    }
    assert_eq!(a.as_slice(), &[0u8, 0, 7, 0, 0, 0][..]);

    let mut b: Array4d<u8> = Array4d::zeros((1, 1, 2, 2));
    {
        let mut w = b.as_view_mut().view_mut((0, 0, 0, 1), (1, 1, 2, 2));
        assert_eq!(w.dim(), (1, 1, 2, 1));
        w.as_mut_slice()[1] = 3;
    }
    assert_eq!(b.as_slice(), &[0u8, 0, 0, 3][..]);
}

#[test]
fn dense_len_tells_a_densely_packed_view_from_any_other() {
    let data: Vec<u8> = (0..12).collect();
    let a = Array2d::from_storage((3, 4), data);
    assert_eq!(a.as_view().dense_len(), Some(12));
    assert_eq!(a.as_view().view((0, 1), (3, 3)).dense_len(), Some(6));
    assert_eq!(a.as_view().view((1, 0), (3, 2)).dense_len(), None);
    let mut b: Array1d<u8> = Array1d::zeros(5);
    assert_eq!(b.as_view_mut().dense_len(), Some(5));
    let mut c: Array4d<u8> = Array4d::zeros((1, 2, 1, 2));
    assert_eq!(c.as_view_mut().dense_len(), Some(4));
    let d: Array3d<u8> = Array3d::zeros((2, 0, 3));
    assert_eq!(d.as_view().dense_len(), Some(0));
}
