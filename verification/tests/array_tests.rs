use densearray::zero::zeroed;
use densearray::{
    Array1d, Array2d, Array3d, Array4d, AsView, AsViewMut, Axes, SetConstant, Storage,
    StorageMut, ZeroBits,
};

#[test]
fn zeros_has_the_shape_and_only_zeros() {
    let a: Array1d<u8> = Array1d::zeros(5);
    assert_eq!(a.dim(), 5);
    assert_eq!(a.stride(), 1);
    assert_eq!(a.as_slice(), &[0u8; 5][..]);

    let b: Array2d<u32> = Array2d::zeros((2, 3));
    assert_eq!(b.dim(), (2, 3));
    assert_eq!(b.stride(), (1, 2));
    assert_eq!(b.as_slice(), &[0u32; 6][..]);

    let c: Array3d<i32> = Array3d::zeros((2, 3, 4));
    assert_eq!(c.dim(), (2, 3, 4));
    assert_eq!(c.stride(), (1, 2, 6));
    assert_eq!(c.as_slice().len(), 24);
    assert!(c.as_slice().iter().all(|x| *x == 0));

    let d: Array4d<u64> = Array4d::zeros((2, 1, 3, 2));
    assert_eq!(d.dim(), (2, 1, 3, 2));
    assert_eq!(d.stride(), (1, 2, 2, 6));
    assert_eq!(d.as_slice(), &[0u64; 12][..]);
}

#[test]
fn zeros_of_an_empty_shape_is_empty() {
    let a: Array2d<u8> = Array2d::zeros((0, 4));
    assert_eq!(a.dim(), (0, 4));
    assert_eq!(a.as_slice().len(), 0);
}

#[test]
fn from_storage_keeps_the_buffer_and_takes_the_least_stride() {
    let a = Array2d::from_storage((2, 3), vec![1.0f32, 2.0, 3.0, 4.0, 5.0, 6.0]);
    assert_eq!(a.dim(), (2, 3));
    assert_eq!(a.stride(), (1, 2));
    assert_eq!(a.as_slice(), &[1.0f32, 2.0, 3.0, 4.0, 5.0, 6.0][..]);
    assert_eq!(a.storage(), &vec![1.0f32, 2.0, 3.0, 4.0, 5.0, 6.0]);

    let b = Array3d::from_storage((1, 2, 2), vec![9u8, 8, 7, 6]);
    assert_eq!(b.stride(), (1, 1, 2));
    assert_eq!(b.storage().len(), 4);
    assert_eq!(b.into_storage(), vec![9u8, 8, 7, 6]);

    let c = Array1d::from_storage(3, vec![5i32, 6, 7]);
    assert_eq!(c.dim(), 3);
    assert_eq!(c.as_slice(), &[5, 6, 7][..]);

    let d = Array4d::from_storage((1, 1, 1, 2), vec![3u8, 4]);
    assert_eq!(d.stride(), (1, 1, 1, 1));
    assert_eq!(d.as_slice(), &[3u8, 4][..]);
}

#[test]
fn as_mut_slice_writes_into_the_array() {
    let mut a: Array2d<u8> = Array2d::zeros((2, 2));
    a.as_mut_slice()[3] = 9;
    assert_eq!(a.as_slice(), &[0u8, 0, 0, 9][..]);
    assert_eq!(a.dim(), (2, 2));
}

#[test]
fn as_view_borrows_shape_stride_and_data() {
    let a = Array3d::from_storage((2, 1, 2), vec![1u8, 2, 3, 4]);
    let v = a.as_view();
    assert_eq!(v.dim(), a.dim());
    assert_eq!(v.stride(), a.stride());
    assert_eq!(v.as_slice(), a.as_slice());
    assert!(v.is_contiguous());
    assert_eq!(v.as_slice().as_ptr(), a.as_slice().as_ptr());
    let w = v;
    assert_eq!(v.dim(), w.dim());
    assert_eq!(v.clone().stride(), w.stride());
}

#[test]
fn writes_through_a_mutable_view_land_in_the_array() {
    let mut a: Array1d<u8> = Array1d::zeros(3);
    {
        let mut v = a.as_view_mut();
        assert_eq!(v.dim(), 3);
        assert_eq!(v.stride(), 1);
        v.as_mut_slice()[1] = 5;
        assert_eq!(v.as_slice(), &[0u8, 5, 0][..]);
    }
    assert_eq!(a.as_slice(), &[0u8, 5, 0][..]);
}

#[test]
fn set_constant_overwrites_every_element() {
    let mut a: Array1d<u32> = Array1d::zeros(4);
    {
        let mut v = a.as_view_mut();
        v.set_constant(7);
    }
    assert_eq!(a.as_slice(), &[7u32; 4][..]);

    let mut b: Array2d<u8> = Array2d::zeros((2, 3));
    {
        let mut v = b.as_view_mut();
        v.set_constant(1);
    }
    assert_eq!(b.as_slice(), &[1u8; 6][..]);

    let mut c = Array3d::from_storage((1, 2, 2), vec![0.5f32; 4]);
    {
        let mut v = c.as_view_mut();
        v.set_constant(2.5);
    }
    assert_eq!(c.as_slice(), &[2.5f32; 4][..]);

    let mut d: Array4d<i32> = Array4d::zeros((1, 2, 1, 2));
    {
        let mut v = d.as_view_mut();
        assert!(v.is_contiguous());
        v.set_constant(-3);
    }
    assert_eq!(d.as_slice(), &[-3i32; 4][..]);
}

#[test]
fn vectors_are_storage() {
    let mut v = vec![1u8, 2, 3];
    assert_eq!(Storage::as_slice(&v), &[1u8, 2, 3][..]);
    StorageMut::as_mut_slice(&mut v)[0] = 9;
    assert_eq!(v, vec![9u8, 2, 3]);
}

#[test]
fn a_clone_has_the_shape_and_the_elements() {
    let a = Array2d::from_storage((2, 2), vec![1u8, 2, 3, 4]);
    let mut b = a.clone();
    assert_eq!(b.dim(), a.dim());
    assert_eq!(b.stride(), a.stride());
    assert_eq!(b.as_slice(), a.as_slice());
    b.as_mut_slice()[0] = 9;
    assert_eq!(a.as_slice()[0], 1);
    let c = Array1d::from_storage(2, vec![1u8, 2]).clone();
    assert_eq!(c.as_slice(), &[1u8, 2][..]);
    let d = Array3d::from_storage((1, 1, 2), vec![1u8, 2]).clone();
    assert_eq!(d.dim(), (1, 1, 2));
    let e = Array4d::from_storage((1, 1, 1, 2), vec![1u8, 2]).clone();
    assert_eq!(e.stride(), (1, 1, 1, 1));
}

#[test]
fn zero_is_zero_for_every_element_type() {
    assert_eq!(<u8 as ZeroBits>::zero_bits(), 0);
    assert_eq!(<u32 as ZeroBits>::zero_bits(), 0);
    assert_eq!(<i32 as ZeroBits>::zero_bits(), 0);
    assert_eq!(<u64 as ZeroBits>::zero_bits(), 0);
    assert_eq!(<usize as ZeroBits>::zero_bits(), 0);
    assert_eq!(zeroed::<u32>(3), vec![0u32, 0, 0]);
    assert_eq!(zeroed::<u8>(0), Vec::<u8>::new());
}

#[test]
fn axes_wrap_an_index() {
    let a = Axes((0usize, 1usize));
    let b = a;
    assert!(a == b);
    assert_eq!((a.0).1, 1);
}
