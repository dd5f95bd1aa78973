use densearray::format::NdError;
use densearray::io::{read_flat_buf, staging_size, FlatBufReader, NdDatatype, NdReader};
use densearray::serial::NdArraySerialize;
use densearray::shared::{share_bytes, share_words};
use densearray::{Array2d, Array3d, AsView, Storage};
use sharedmem::SharedSlice;

#[test]
fn the_staging_buffer_has_sixteen_pages_or_the_pages_of_one_element() {
    assert_eq!(staging_size(1), 65536);
    assert_eq!(staging_size(4), 65536);
    assert_eq!(staging_size(65536), 65536);
    assert_eq!(staging_size(65537), 69632);
    assert_eq!(staging_size(0), 65536);
    assert_eq!(staging_size(usize::MAX - 4095), usize::MAX - 4095);
}

#[test]
fn shared_element_types_have_their_ids() {
    assert_eq!(<u8 as NdDatatype>::nd_type_id(), 0);
    assert_eq!(<u32 as NdDatatype>::nd_type_id(), 1);
}

#[test]
fn a_flat_buffer_reads_in_one_piece() {
    let bytes = [1u8, 0, 0, 0, 2, 0, 0, 0, 9, 9];
    assert_eq!(read_flat_buf::<u32>(8, &bytes), Ok(vec![1u32, 2]));
    assert_eq!(read_flat_buf::<u8>(3, &bytes), Ok(vec![1u8, 0, 0]));
    assert_eq!(read_flat_buf::<u32>(0, &bytes), Ok(vec![]));
}

#[test]
fn a_byte_count_that_splits_an_element_is_misaligned() {
    let bytes = [0u8; 16];
    assert_eq!(read_flat_buf::<u32>(6, &bytes), Err(NdError::Misaligned));
    assert_eq!(FlatBufReader::<u32>::new(7).err(), Some(NdError::Misaligned));
    assert!(FlatBufReader::<u32>::new(8).is_ok());
    assert!(FlatBufReader::<u8>::new(7).is_ok());
}

#[test]
fn a_flat_buffer_that_ends_early_is_truncated() {
    let bytes = [0u8; 7];
    assert_eq!(read_flat_buf::<u32>(8, &bytes), Err(NdError::Truncated));
    let mut reader = FlatBufReader::<u32>::new(8).unwrap();
    assert_eq!(reader.push(&bytes), 7);
    assert_eq!(reader.wanted(), 1);
    assert_eq!(reader.finish().err(), Some(NdError::Truncated));
}

#[test]
fn bytes_of_a_split_element_are_carried_over() {
    let bytes = [1u8, 0, 0, 0, 2, 0, 0, 0, 3, 0, 0, 0];
    for cut in 0..=bytes.len() {
        let mut reader = FlatBufReader::<u32>::new(12).unwrap();
        assert_eq!(reader.push(&bytes[..cut]), cut);
        assert_eq!(reader.wanted(), 12 - cut);
        assert_eq!(reader.push(&bytes[cut..]), 12 - cut);
        assert_eq!(reader.wanted(), 0);
        assert_eq!(reader.finish(), Ok(vec![1u32, 2, 3]), "cut at {}", cut);
    }
    let mut reader = FlatBufReader::<u32>::new(8).unwrap();
    for b in [7u8, 0, 0, 0, 0, 1, 0, 0] {
        assert_eq!(reader.push(&[b]), 1);
    }
    assert_eq!(reader.push(&[1, 2, 3]), 0);
    assert_eq!(reader.finish(), Ok(vec![7u32, 256]));
}

#[test]
fn vectors_move_into_shared_memory_unchanged() {
    let s: SharedSlice<u8> = share_bytes(vec![1, 2, 3]);
    assert_eq!(Storage::as_slice(&s), &[1u8, 2, 3][..]);
    let t = s.clone();
    assert_eq!(Storage::as_slice(&t).as_ptr(), Storage::as_slice(&s).as_ptr());
    let w: SharedSlice<u32> = share_words(vec![10, 20]);
    assert_eq!(Storage::as_slice(&w), &[10u32, 20][..]);
    let empty: SharedSlice<u8> = share_bytes(Vec::new());
    assert_eq!(Storage::as_slice(&empty).len(), 0);
}

#[test]
fn arrays_read_into_shared_memory() {
    let a = Array2d::from_storage((2, 3), vec![1u8, 2, 3, 4, 5, 6]);
    let mut record = Vec::new();
    a.serialize(&mut record);
    let shared: Array2d<u8, SharedSlice<u8>> = NdReader::deserialize(&record).unwrap();
    assert_eq!(shared.dim(), (2, 3));
    assert_eq!(shared.stride(), (1, 2));
    assert_eq!(shared.as_slice(), &[1u8, 2, 3, 4, 5, 6][..]);
    assert_eq!(shared.as_view().as_slice(), a.as_slice());
    let second = shared.storage().clone();
    assert_eq!(Storage::as_slice(&second).as_ptr(), shared.as_slice().as_ptr());

    let values = [1.5f32, -2.0, 0.25, 8.0];
    let words: Vec<u32> = values.iter().map(|x| x.to_bits()).collect();
    let b = Array3d::from_storage((2, 1, 2), words);
    let mut record = Vec::new();
    b.serialize(&mut record);
    let shared: Array3d<u32, SharedSlice<u32>> = NdReader::deserialize(&record).unwrap();
    assert_eq!(shared.dim(), (2, 1, 2));
    let read: Vec<f32> = shared.as_slice().iter().map(|x| f32::from_bits(*x)).collect();
    assert_eq!(read, values.to_vec());
    let storage = shared.into_storage();
    assert_eq!(Storage::as_slice(&storage).len(), 4);

    let r: Result<Array3d<u8, SharedSlice<u8>>, NdError> = NdReader::deserialize(&record);
    assert_eq!(r.err(), Some(NdError::BadDtype));
    let r: Result<Array2d<u32, SharedSlice<u32>>, NdError> = NdReader::deserialize(&record);
    assert_eq!(r.err(), Some(NdError::BadRank));
    let r: Result<Array2d<u8, SharedSlice<u8>>, NdError> = NdReader::deserialize(&record[..3]);
    assert_eq!(r.err(), Some(NdError::Truncated));
    let c = Array2d::from_storage((1, 2), vec![3u32, 4]);
    let mut record = Vec::new();
    c.serialize(&mut record);
    let shared: Array2d<u32, SharedSlice<u32>> = NdReader::deserialize(&record).unwrap();
    assert_eq!(shared.as_slice(), &[3u32, 4][..]);
    let d = Array3d::from_storage((1, 1, 2), vec![3u8, 4]);
    let mut record = Vec::new();
    d.serialize(&mut record);
    let shared: Array3d<u8, SharedSlice<u8>> = NdReader::deserialize(&record).unwrap();
    assert_eq!(shared.as_slice(), &[3u8, 4][..]);
}
