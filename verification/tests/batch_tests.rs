use densearray::{AsView, AsViewMut, Batch, BatchArray1d, BatchArray2d, BatchArray3d};

#[test]
fn a_new_batch_is_empty() {
    let b: Batch<u8> = Batch::new();
    assert_eq!(b.batch_size(), 0);
    assert_eq!(b.len(), 0);
    assert_eq!(&b[..], &[0u8; 0][..]);
}

#[test]
fn a_batch_grows_by_clones_of_the_default_and_shrinks_without_loss() {
    let mut b: Batch<Vec<u8>> = Batch::new();
    b.set_batch_size(3, vec![1, 2]);
    assert_eq!(b.batch_size(), 3);
    assert_eq!(&b[..], &[vec![1u8, 2], vec![1, 2], vec![1, 2]][..]);
    b[2] = vec![9];
    b.set_batch_size(1, vec![7]);
    assert_eq!(b.batch_size(), 1);
    assert_eq!(&b[..], &[vec![1u8, 2]][..]);
    b.set_batch_size(3, vec![7]);
    assert_eq!(&b[..], &[vec![1u8, 2], vec![1, 2], vec![9]][..]);
    b.set_batch_size(4, vec![7]);
    assert_eq!(b[3], vec![7u8]);
}

#[test]
fn a_batch_of_vectors_shows_a_matrix_whose_last_extent_is_the_batch_size() {
    let mut b: BatchArray1d<u8> = BatchArray1d::zeros(3, 4);
    assert_eq!(b.dim(), 3);
    assert_eq!(b.stride(), 1);
    assert_eq!(b.batch_size(), 4);
    assert_eq!(b.as_view().dim(), (3, 4));
    assert_eq!(b.as_view().stride(), (1, 3));
    b.set_batch_size(2);
    assert_eq!(b.batch_size(), 2);
    assert_eq!(b.as_view().dim(), (3, 2));
    assert_eq!(b.as_view().dim().1, 2);
    assert_eq!(b.as_view().stride(), (1, 3));
    assert_eq!(b.as_view().as_slice().len(), 12);
}

#[test]
fn resizing_a_batch_moves_no_element() {
    let data: Vec<u8> = (0..12).collect();
    let mut b = BatchArray1d::from_storage(3, 4, data.clone());
    let before = b.as_view().as_slice().as_ptr();
    b.set_batch_size(1);
    assert_eq!(b.as_view().as_slice(), &data[..]);
    assert_eq!(&b.as_view().as_slice()[..3], &data[..3]);
    assert_eq!(b.as_view().as_slice().as_ptr(), before);
    b.set_batch_size(4);
    assert_eq!(b.as_view().dim(), (3, 4));
    assert_eq!(b.as_view().as_slice(), &data[..]);
    b.set_batch_size(0);
    assert_eq!(b.as_view().dim(), (3, 0));
}

#[test]
fn writes_through_a_batch_view_land_in_the_buffer() {
    let mut b: BatchArray1d<u8> = BatchArray1d::zeros(2, 2);
    {
        let mut v = b.as_view_mut();
        assert_eq!(v.dim(), (2, 2));
        v.as_mut_slice()[3] = 8;
    }
    assert_eq!(b.as_view().as_slice(), &[0u8, 0, 0, 8][..]);
}

#[test]
fn a_batch_of_matrices_shows_a_rank_three_view() {
    let mut b: BatchArray2d<u32> = BatchArray2d::zeros((2, 3), 5);
    assert_eq!(b.dim(), (2, 3));
    assert_eq!(b.stride(), (1, 2));
    assert_eq!(b.as_view().dim(), (2, 3, 5));
    assert_eq!(b.as_view().stride(), (1, 2, 6));
    b.set_batch_size(3);
    assert_eq!(b.as_view().dim(), (2, 3, 3));
    assert_eq!(b.as_view_mut().stride(), (1, 2, 6));
}

#[test]
fn a_batch_of_rank_three_elements_shows_a_rank_four_view() {
    let data: Vec<u8> = (0..48).collect();
    let mut b = BatchArray3d::from_storage((2, 3, 4), 2, data.clone());
    assert_eq!(b.dim(), (2, 3, 4));
    assert_eq!(b.stride(), (1, 2, 6));
    assert_eq!(b.batch_size(), 2);
    assert_eq!(b.as_view().dim(), (2, 3, 4, 2));
    assert_eq!(b.as_view().stride(), (1, 2, 6, 24));
    b.set_batch_size(1);
    assert_eq!(b.as_view().dim(), (2, 3, 4, 1));
    assert_eq!(b.as_view().dim().3, 1);
    assert_eq!(b.as_view().as_slice(), &data[..]);
    {
        let mut v = b.as_view_mut();
        v.as_mut_slice()[47] = 0;
    }
    assert_eq!(b.as_view().as_slice()[47], 0);
}
