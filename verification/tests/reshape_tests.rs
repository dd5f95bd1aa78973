use densearray::{
    Array2d, Array3d, Array4d, ArrayIndex, AsView, AsViewMut, Flatten, FlattenMut, Reshape,
    ReshapeMut, SetConstant,
};
use densearray::{
    Array1dView, Array1dViewMut, Array2dView, Array2dViewMut, Array3dView, Array3dViewMut,
    Array4dView, Array4dViewMut,
};

#[test]
fn a_slice_flattens_to_a_view_of_all_its_elements() {
    let data = vec![1u8, 2, 3, 4];
    let v: Array1dView<u8> = data.as_slice().flatten();
    assert_eq!(v.dim(), 4);
    assert_eq!(v.stride(), 1);
    assert_eq!(v.as_slice(), &[1u8, 2, 3, 4][..]);
}

#[test]
fn a_slice_reshapes_to_any_shape_it_can_hold() {
    let data: Vec<u8> = (0..24).collect();
    let v1: Array1dView<u8> = data.as_slice().reshape(10usize);
    assert_eq!(v1.dim(), 10);
    let v2: Array2dView<u8> = data.as_slice().reshape((4usize, 6usize));
    assert_eq!(v2.dim(), (4, 6));
    assert_eq!(v2.stride(), (1, 4));
    let v4: Array4dView<u8> = data.as_slice().reshape((2usize, 3usize, 2usize, 2usize));
    assert_eq!(v4.dim(), (2, 3, 2, 2));
    assert_eq!(v4.stride(), (1, 2, 6, 12));
    assert_eq!(v4.as_slice().len(), 24);
}

#[test]
fn a_mutable_slice_reshapes_and_takes_writes() {
    let mut data = vec![0u8; 6];
    {
        let mut v: Array2dViewMut<u8> = data.as_mut_slice().reshape_mut((2usize, 3usize));
        assert_eq!(v.stride(), (1, 2));
        v.set_constant(4);
    }
    assert_eq!(data, vec![4u8; 6]);
    {
        let mut v: Array1dViewMut<u8> = data.as_mut_slice().flatten_mut();
        assert_eq!(v.dim(), 6);
        v.as_mut_slice()[0] = 1;
    }
    assert_eq!(data[0], 1);
    {
        let v: Array1dViewMut<u8> = data.as_mut_slice().reshape_mut(2usize);
        assert_eq!(v.dim(), 2);
    }
    {
        let mut v = data.as_mut_slice().reshape_mut((1usize, 1usize, 2usize, 3usize));
        assert_eq!(v.stride(), (1, 1, 1, 2));
        v.set_constant(8);
    }
    assert_eq!(data, vec![8u8; 6]);
}

#[test]
fn a_vector_gains_a_unit_axis_behind_or_before_its_own() {
    let data = vec![1u8, 2, 3];
    let v: Array1dView<u8> = data.as_slice().flatten();
    let column: Array2dView<u8> = v.reshape((3usize, 1usize));
    assert_eq!(column.dim(), (3, 1));
    assert_eq!(column.stride(), (1, 3));
    let row: Array2dView<u8> = v.reshape((1usize, 3usize));
    assert_eq!(row.dim(), (1, 3));
    assert_eq!(row.stride(), (1, 1));
    assert_eq!(row.as_slice(), &[1u8, 2, 3][..]);
}

#[test]
fn a_unit_axis_round_trips() {
    let data = vec![1u8, 2, 3];
    let v: Array1dView<u8> = data.as_slice().flatten();
    let column: Array2dView<u8> = v.reshape((3usize, 1usize));
    assert!(column.is_contiguous());
    let back: Array1dView<u8> = column.flatten();
    assert_eq!(back.dim(), v.dim());
    assert_eq!(back.stride(), v.stride());
    assert_eq!(back.as_slice(), v.as_slice());
    let row: Array2dView<u8> = v.reshape((1usize, 3usize));
    let back: Array1dView<u8> = row.reshape(3usize);
    assert_eq!(back.dim(), 3);
    assert_eq!(back.stride(), 1);
}

#[test]
fn a_mutable_vector_gains_a_unit_axis() {
    let mut data = vec![0u8; 3];
    {
        let v: Array1dViewMut<u8> = data.as_mut_slice().flatten_mut();
        let mut m: Array2dViewMut<u8> = v.reshape_mut((3usize, 1usize));
        assert_eq!(m.stride(), (1, 3));
        m.set_constant(2);
    }
    assert_eq!(data, vec![2u8; 3]);
    {
        let v: Array1dViewMut<u8> = data.as_mut_slice().flatten_mut();
        let m: Array2dViewMut<u8> = v.reshape_mut((1usize, 3usize));
        assert_eq!(m.stride(), (1, 1));
    }
}

#[test]
fn flattening_a_dense_view_gives_all_elements_with_unit_stride() {
    let a = Array2d::from_storage((2, 3), vec![1u8, 2, 3, 4, 5, 6]);
    let v: Array1dView<u8> = a.as_view().flatten();
    assert_eq!(v.dim(), 6);
    assert_eq!(v.stride(), 1);
    assert_eq!(v.as_slice(), a.as_slice());
    let b = Array3d::from_storage((1, 2, 2), vec![1u8, 2, 3, 4]);
    let v: Array1dView<u8> = b.as_view().flatten();
    assert_eq!(v.dim(), 4);
    let v: Array1dView<u8> = b.as_view().reshape(4usize);
    assert_eq!(v.stride(), 1);
    let c = Array4d::from_storage((1, 2, 2, 1), vec![1u8, 2, 3, 4]);
    let v: Array1dView<u8> = c.as_view().flatten();
    assert_eq!(v.dim(), 4);
    let m: Array2dView<u8> = c.as_view().reshape((2usize, 2usize));
    assert_eq!(m.dim(), (2, 2));
    assert_eq!(m.stride(), (1, 2));
}

#[test]
fn flatten_then_reshape_gives_the_same_layout() {
    let a = Array2d::from_storage((2, 3), vec![1u8, 2, 3, 4, 5, 6]);
    let v = a.as_view();
    let back: Array2dView<u8> = v.flatten().reshape(v.dim());
    assert_eq!(back.dim(), (2, 3));
    assert_eq!(back.stride(), (1, 2));
    assert_eq!(back.dim(), v.dim());
    assert_eq!(back.stride(), v.stride());
    assert_eq!(back.as_slice(), v.as_slice());
    assert_eq!(back.as_slice().as_ptr(), v.as_slice().as_ptr());
    let flat: Array1dView<u8> = v.flatten();
    let through_slice: Array2dView<u8> = flat.as_slice().reshape(v.dim());
    assert_eq!(through_slice.dim(), v.dim());
    assert_eq!(through_slice.stride(), v.stride());

    let column = Array2d::from_storage((4, 1), vec![1u8, 2, 3, 4]);
    let v = column.as_view();
    let back: Array2dView<u8> = v.flatten().reshape(v.dim());
    assert_eq!(back.dim(), v.dim());
    assert_eq!(back.stride(), v.stride());
    assert_eq!(back.stride(), v.dim().least_stride());
}

#[test]
fn mutable_views_flatten_and_take_writes() {
    let mut a: Array2d<u8> = Array2d::zeros((2, 2));
    {
        let mut v: Array1dViewMut<u8> = a.as_view_mut().flatten_mut();
        assert_eq!(v.dim(), 4);
        v.as_mut_slice()[2] = 5;
    }
    assert_eq!(a.as_slice(), &[0u8, 0, 5, 0][..]);
    let mut b: Array3d<u8> = Array3d::zeros((1, 2, 2));
    {
        let mut v: Array1dViewMut<u8> = b.as_view_mut().reshape_mut(4usize);
        v.set_constant(1);
    }
    assert_eq!(b.as_slice(), &[1u8; 4][..]);
    let mut c: Array4d<u8> = Array4d::zeros((1, 2, 2, 1));
    {
        let mut v: Array2dViewMut<u8> = c.as_view_mut().reshape_mut((4usize, 1usize));
        assert_eq!(v.stride(), (1, 4));
        v.set_constant(6);
    }
    assert_eq!(c.as_slice(), &[6u8; 4][..]);
    {
        let v: Array1dViewMut<u8> = c.as_view_mut().flatten_mut();
        assert_eq!(v.dim(), 4);
    }
}

#[test]
fn flatten_then_reshape_round_trips_for_ranks_three_and_four() {
    let data: Vec<u8> = (0..24).collect();
    let a = Array3d::from_storage((2, 3, 4), data.clone());
    let v = a.as_view();
    let back: Array3dView<u8> = v.flatten().reshape(v.dim());
    assert_eq!(back.dim(), (2, 3, 4));
    assert_eq!(back.stride(), (1, 2, 6));
    assert_eq!(back.stride(), v.stride());
    assert_eq!(back.as_slice(), v.as_slice());

    let b = Array4d::from_storage((2, 3, 2, 2), data);
    let w = b.as_view();
    let back: Array4dView<u8> = w.flatten().reshape(w.dim());
    assert_eq!(back.dim(), (2, 3, 2, 2));
    assert_eq!(back.stride(), (1, 2, 6, 12));
    assert_eq!(back.stride(), w.stride());
    assert_eq!(back.as_slice(), w.as_slice());
}

#[test]
fn a_dense_vector_takes_every_shape_of_as_many_elements() {
    let data: Vec<u8> = (0..12).collect();
    let v: Array1dView<u8> = data.as_slice().flatten();
    let m: Array2dView<u8> = v.reshape((3usize, 4usize));
    assert_eq!(m.dim(), (3, 4));
    assert_eq!(m.stride(), (1, 3));
    let m: Array2dView<u8> = v.reshape((12usize, 1usize));
    assert_eq!(m.stride(), (1, 12));
    let m: Array2dView<u8> = v.reshape((1usize, 12usize));
    assert_eq!(m.stride(), (1, 1));
    let t: Array3dView<u8> = v.reshape((2usize, 3usize, 2usize));
    assert_eq!(t.stride(), (1, 2, 6));
    let t: Array3dView<u8> = data.as_slice().reshape((2usize, 2usize, 2usize));
    assert_eq!(t.dim(), (2, 2, 2));
    assert_eq!(t.stride(), (1, 2, 4));
    let q: Array4dView<u8> = v.reshape((2usize, 3usize, 2usize, 1usize));
    assert_eq!(q.stride(), (1, 2, 6, 12));
}

#[test]
fn a_dense_mutable_vector_takes_every_shape_of_as_many_elements() {
    let mut data = vec![0u8; 12];
    {
        let v: Array1dViewMut<u8> = data.as_mut_slice().flatten_mut();
        let mut m: Array2dViewMut<u8> = v.reshape_mut((3usize, 4usize));
        assert_eq!(m.stride(), (1, 3));
        m.as_mut_slice()[11] = 1;
    }
    {
        let v: Array1dViewMut<u8> = data.as_mut_slice().flatten_mut();
        let mut t: Array3dViewMut<u8> = v.reshape_mut((2usize, 3usize, 2usize));
        assert_eq!(t.stride(), (1, 2, 6));
        t.as_mut_slice()[0] = 2;
    }
    {
        let v: Array1dViewMut<u8> = data.as_mut_slice().flatten_mut();
        let mut q: Array4dViewMut<u8> = v.reshape_mut((2usize, 3usize, 2usize, 1usize));
        assert_eq!(q.stride(), (1, 2, 6, 12));
        q.set_constant(3);
    }
    assert_eq!(data, vec![3u8; 12]);
    {
        let mut t: Array3dViewMut<u8> = data.as_mut_slice().reshape_mut((1usize, 2usize, 3usize));
        assert_eq!(t.stride(), (1, 1, 2));
        t.as_mut_slice()[5] = 9;
    }
    assert_eq!(data[5], 9);
}
