use densearray::decoder::{decode, NdDecoder};
use densearray::dtype::{write_flat_buf, NdArrayDtype};
use densearray::endian::{push_u32_le, push_u64_le};
use densearray::format::{DecodeState, NdError, NdFormat};
use densearray::serial::{
    decode_array, encode_header, read_elems, NdArrayDeserialize, NdArraySerialize,
};
use densearray::{Array1d, Array2d, Array3d, Array4d};

fn bits(values: &[f32]) -> Vec<u32> {
    values.iter().map(|x| x.to_bits()).collect()
}

fn header_with_one_extent_too_few() -> Vec<u8> {
    let mut bytes = vec![0x4E, 0x44, 0x00, 0x01];
    bytes.extend_from_slice(&[0x03, 0, 0, 0]);
    bytes.extend_from_slice(&[0x02, 0, 0, 0, 0, 0, 0, 0]);
    bytes.extend_from_slice(&[0x03, 0, 0, 0, 0, 0, 0, 0]);
    bytes
}

#[test]
fn element_types_have_their_registered_ids_and_sizes() {
    assert_eq!(<u8 as NdArrayDtype>::dtype_id(), 0);
    assert_eq!(<u32 as NdArrayDtype>::dtype_id(), 1);
    assert_eq!(<u8 as NdArrayDtype>::elem_size(), 1);
    assert_eq!(<u32 as NdArrayDtype>::elem_size(), 4);
}

#[test]
fn elements_are_laid_out_least_significant_byte_first() {
    let mut out = vec![0xAAu8];
    0x0403_0201u32.write_elem(&mut out);
    assert_eq!(out, vec![0xAA, 1, 2, 3, 4]);
    7u8.write_elem(&mut out);
    assert_eq!(out, vec![0xAA, 1, 2, 3, 4, 7]);
    assert_eq!(<u32 as NdArrayDtype>::read_elem(&[1, 2, 3, 4]), 0x0403_0201);
    assert_eq!(<u8 as NdArrayDtype>::read_elem(&[9]), 9);
    assert_eq!(
        <u32 as NdArrayDtype>::read_elem(&[0x00, 0x00, 0x80, 0x3F]),
        1.0f32.to_bits()
    );
}

#[test]
fn integers_are_pushed_least_significant_byte_first() {
    let mut out = Vec::new();
    push_u32_le(&mut out, 0x1234_5678);
    assert_eq!(out, vec![0x78, 0x56, 0x34, 0x12]);
    push_u64_le(&mut out, 0x0102_0304_0506_0708);
    assert_eq!(out[4..], [8, 7, 6, 5, 4, 3, 2, 1]);
}

#[test]
fn the_header_holds_magic_version_type_rank_and_extents() {
    let mut out = Vec::new();
    encode_header(1, &[2, 3], &mut out);
    assert_eq!(
        out,
        vec![0x4E, 0x44, 0, 1, 2, 0, 0, 0, 2, 0, 0, 0, 0, 0, 0, 0, 3, 0, 0, 0, 0, 0, 0, 0]
    );
}

#[test]
fn a_rank_three_array_of_floats_serializes_byte_for_byte() {
    let a = Array3d::from_storage((2, 3, 1), bits(&[1.0, 2.0, 3.0, 4.0, 5.0, 6.0]));
    let mut out = Vec::new();
    a.serialize(&mut out);
    let mut expected = vec![0x4E, 0x44, 0x00, 0x01, 0x03, 0, 0, 0];
    expected.extend_from_slice(&[2, 0, 0, 0, 0, 0, 0, 0]);
    expected.extend_from_slice(&[3, 0, 0, 0, 0, 0, 0, 0]);
    expected.extend_from_slice(&[1, 0, 0, 0, 0, 0, 0, 0]);
    for x in [1.0f32, 2.0, 3.0, 4.0, 5.0, 6.0] {
        expected.extend_from_slice(&x.to_le_bytes());
    }
    assert_eq!(out, expected);
}

#[test]
fn a_two_by_three_array_of_floats_serializes_and_reads_back() {
    let values = [1.0f32, 2.0, 3.0, 4.0, 5.0, 6.0];
    let a = Array2d::from_storage((2, 3), bits(&values));
    let mut out = Vec::new();
    a.serialize(&mut out);
    let mut expected = vec![0x4E, 0x44, 0x00, 0x01, 0x02, 0, 0, 0];
    expected.extend_from_slice(&[2, 0, 0, 0, 0, 0, 0, 0]);
    expected.extend_from_slice(&[3, 0, 0, 0, 0, 0, 0, 0]);
    assert_eq!(&out[..24], &expected[..]);
    assert_eq!(&out[..4], &header_with_one_extent_too_few()[..4]);
    assert_eq!(&out[8..24], &header_with_one_extent_too_few()[8..24]);
    assert_eq!(out.len(), 24 + 24);
    assert_eq!(
        &out[24..],
        &[
            0x00, 0x00, 0x80, 0x3F, 0x00, 0x00, 0x00, 0x40, 0x00, 0x00, 0x40, 0x40, 0x00, 0x00,
            0x80, 0x40, 0x00, 0x00, 0xA0, 0x40, 0x00, 0x00, 0xC0, 0x40,
        ][..]
    );
    let back: Array2d<u32> = Array2d::deserialize(&out).unwrap();
    assert_eq!(back.dim(), (2, 3));
    assert_eq!(back.stride(), (1, 2));
    let read: Vec<f32> = back.as_slice().iter().map(|b| f32::from_bits(*b)).collect();
    assert_eq!(read, values.to_vec());
}

#[test]
fn a_header_with_one_extent_too_few_is_rejected() {
    // A header that announces rank three but gives two extents has its
    // third extent taken from the payload.
    let mut bytes = header_with_one_extent_too_few();
    for x in [1.0f32, 2.0, 3.0, 4.0, 5.0, 6.0] {
        bytes.extend_from_slice(&x.to_le_bytes());
    }
    let r: Result<Array3d<u32>, NdError> = Array3d::deserialize(&bytes);
    assert!(r.is_err());
    let r: Result<Array2d<u32>, NdError> = Array2d::deserialize(&bytes);
    assert_eq!(r.err(), Some(NdError::BadRank));
}

#[test]
fn rank_three_arrays_round_trip() {
    let mut seed: u32 = 12345;
    for round in 0..20usize {
        let mut next = || {
            seed = seed.wrapping_mul(1664525).wrapping_add(1013904223);
            seed
        };
        let d0 = 1 + (next() % 4) as usize;
        let d1 = 1 + (next() % 5) as usize;
        let d2 = 1 + (next() % 3) as usize;
        let values: Vec<f32> = (0..d0 * d1 * d2)
            .map(|_| (next() % 2000) as f32 / 8.0 - 100.0)
            .collect();
        let a = Array3d::from_storage((d0, d1, d2), bits(&values));
        let mut out = Vec::new();
        a.serialize(&mut out);
        assert_eq!(out.len(), 8 + 8 * 3 + 4 * d0 * d1 * d2, "round {}", round);
        let back: Array3d<u32> = Array3d::deserialize(&out).unwrap();
        assert_eq!(back.dim(), a.dim());
        assert_eq!(back.stride(), a.stride());
        assert_eq!(back.as_slice(), a.as_slice());
        let read: Vec<f32> = back.as_slice().iter().map(|b| f32::from_bits(*b)).collect();
        assert_eq!(read, values);
    }
}

#[test]
fn arrays_of_every_rank_round_trip() {
    let a = Array1d::from_storage(3, vec![7u8, 8, 9]);
    let mut out = Vec::new();
    a.serialize(&mut out);
    assert_eq!(out.len(), 8 + 8 + 3);
    assert_eq!(out[3], 0);
    let back: Array1d<u8> = Array1d::deserialize(&out).unwrap();
    assert_eq!(back.as_slice(), &[7u8, 8, 9][..]);

    let b = Array4d::from_storage((1, 2, 1, 2), vec![1u32, 2, 3, 0xFFFF_FFFF]);
    let mut out = Vec::new();
    b.serialize(&mut out);
    assert_eq!(out.len(), 8 + 32 + 16);
    let back: Array4d<u32> = Array4d::deserialize(&out).unwrap();
    assert_eq!(back.dim(), (1, 2, 1, 2));
    assert_eq!(back.as_slice(), &[1u32, 2, 3, 0xFFFF_FFFF][..]);
}

#[test]
fn an_empty_array_round_trips() {
    let a = Array2d::from_storage((0, 5), Vec::<u8>::new());
    let mut out = Vec::new();
    a.serialize(&mut out);
    assert_eq!(out.len(), 24);
    let back: Array2d<u8> = Array2d::deserialize(&out).unwrap();
    assert_eq!(back.dim(), (0, 5));
    assert_eq!(back.as_slice().len(), 0);
}

#[test]
fn serialize_appends_and_bytes_behind_a_record_are_ignored() {
    let a = Array1d::from_storage(2, vec![5u8, 6]);
    let mut out = vec![0xFFu8];
    a.serialize(&mut out);
    assert_eq!(out[0], 0xFF);
    assert_eq!(out.len(), 1 + 18);
    let mut record = out[1..].to_vec();
    record.extend_from_slice(&[1, 2, 3]);
    let back: Array1d<u8> = Array1d::deserialize(&record).unwrap();
    assert_eq!(back.as_slice(), &[5u8, 6][..]);
}

fn header(magic: [u8; 2], version: u8, dtype: u8, rank: u32, dims: &[u64]) -> Vec<u8> {
    let mut bytes = vec![magic[0], magic[1], version, dtype];
    bytes.extend_from_slice(&rank.to_le_bytes());
    for d in dims {
        bytes.extend_from_slice(&d.to_le_bytes());
    }
    bytes
}

#[test]
fn a_wrong_magic_is_rejected() {
    let mut bytes = header(*b"NX", 0, 0, 2, &[1, 1]);
    bytes.push(0);
    assert_eq!(Array2d::<u8>::deserialize(&bytes).err(), Some(NdError::BadMagic));
    let bytes = header(*b"XD", 0, 0, 2, &[1, 1]);
    assert_eq!(Array2d::<u8>::deserialize(&bytes).err(), Some(NdError::BadMagic));
    assert_eq!(Array2d::<u8>::deserialize(b"xyzw").err(), Some(NdError::BadMagic));
}

#[test]
fn a_wrong_version_is_rejected() {
    let mut bytes = header(*b"ND", 1, 0, 2, &[1, 1]);
    bytes.push(0);
    assert_eq!(Array2d::<u8>::deserialize(&bytes).err(), Some(NdError::BadVersion));
    assert_eq!(Array2d::<u8>::deserialize(b"ND\x07\x00").err(), Some(NdError::BadVersion));
}

#[test]
fn a_wrong_element_type_is_rejected() {
    let mut bytes = header(*b"ND", 0, 1, 2, &[1, 1]);
    bytes.extend_from_slice(&[0, 0, 0, 0]);
    assert_eq!(Array2d::<u8>::deserialize(&bytes).err(), Some(NdError::BadDtype));
    assert!(Array2d::<u32>::deserialize(&bytes).is_ok());
    let bytes = header(*b"ND", 0, 0, 2, &[1, 1]);
    assert_eq!(Array2d::<u32>::deserialize(&bytes).err(), Some(NdError::BadDtype));
    assert_eq!(Array2d::<u32>::deserialize(b"ND\x00\x02").err(), Some(NdError::BadDtype));
}

#[test]
fn a_wrong_rank_is_rejected() {
    let mut bytes = header(*b"ND", 0, 0, 3, &[1, 1, 1]);
    bytes.push(0);
    assert_eq!(Array2d::<u8>::deserialize(&bytes).err(), Some(NdError::BadRank));
    assert_eq!(Array4d::<u8>::deserialize(&bytes).err(), Some(NdError::BadRank));
    assert_eq!(Array1d::<u8>::deserialize(&bytes).err(), Some(NdError::BadRank));
    assert!(Array3d::<u8>::deserialize(&bytes).is_ok());
}

#[test]
fn input_that_ends_early_is_truncated() {
    assert_eq!(Array2d::<u8>::deserialize(&[]).err(), Some(NdError::Truncated));
    assert_eq!(Array2d::<u8>::deserialize(b"ND").err(), Some(NdError::Truncated));
    assert_eq!(Array2d::<u8>::deserialize(b"ND\x00\x00").err(), Some(NdError::Truncated));
    let bytes = header(*b"ND", 0, 0, 2, &[2]);
    assert_eq!(Array2d::<u8>::deserialize(&bytes).err(), Some(NdError::Truncated));
    let mut bytes = header(*b"ND", 0, 0, 2, &[2, 2]);
    bytes.extend_from_slice(&[1, 2, 3]);
    assert_eq!(Array2d::<u8>::deserialize(&bytes).err(), Some(NdError::Truncated));
    bytes.push(4);
    assert!(Array2d::<u8>::deserialize(&bytes).is_ok());
}

#[test]
fn extents_that_do_not_fit_are_too_large() {
    let bytes = header(*b"ND", 0, 1, 2, &[u64::MAX, 2]);
    assert_eq!(Array2d::<u32>::deserialize(&bytes).err(), Some(NdError::TooLarge));
    let bytes = header(*b"ND", 0, 1, 2, &[1 << 62, 1]);
    assert_eq!(Array2d::<u32>::deserialize(&bytes).err(), Some(NdError::TooLarge));
    let bytes = header(*b"ND", 0, 0, 3, &[1 << 40, 1 << 40, 0]);
    assert_eq!(Array3d::<u8>::deserialize(&bytes).err(), Some(NdError::TooLarge));
}

#[test]
fn the_decoder_takes_a_record_byte_by_byte() {
    let a = Array2d::from_storage((2, 2), vec![1u32, 2, 3, 4]);
    let mut record = Vec::new();
    a.serialize(&mut record);
    let format = NdFormat { dtype_id: 1, elem_size: 4, rank: 2 };
    let mut decoder = NdDecoder::new(format);
    assert_eq!(decoder.state(), DecodeState::ReadHeader);
    assert_eq!(decoder.wanted(), 4);
    for (i, b) in record.iter().enumerate() {
        assert!(!decoder.is_terminal());
        assert_eq!(decoder.feed(&[*b]), 1);
        let expected = if i + 1 < 4 {
            DecodeState::ReadHeader
        } else if i + 1 < 24 {
            DecodeState::ReadDims
        } else if i + 1 < record.len() {
            DecodeState::ReadPayload
        } else {
            DecodeState::Done
        };
        assert_eq!(decoder.state(), expected, "after byte {}", i);
    }
    assert!(decoder.is_terminal());
    assert_eq!(decoder.wanted(), 0);
    assert_eq!(decoder.feed(&[1, 2, 3]), 0);
    let (dims, payload) = decoder.finish().unwrap();
    assert_eq!(dims, vec![2, 2]);
    assert_eq!(payload, record[24..].to_vec());
}

#[test]
fn the_decoder_says_how_much_it_wants_and_takes_no_more_than_the_record() {
    let a = Array1d::from_storage(3, vec![1u8, 2, 3]);
    let mut record = Vec::new();
    a.serialize(&mut record);
    record.extend_from_slice(&[0xEE; 5]);
    let mut decoder = NdDecoder::new(NdFormat { dtype_id: 0, elem_size: 1, rank: 1 });
    assert_eq!(decoder.feed(&record[..2]), 2);
    assert_eq!(decoder.wanted(), 2);
    assert_eq!(decoder.feed(&record[2..5]), 3);
    assert_eq!(decoder.state(), DecodeState::ReadDims);
    assert_eq!(decoder.wanted(), 3);
    assert_eq!(decoder.feed(&record[5..9]), 4);
    assert_eq!(decoder.wanted(), 7);
    assert_eq!(decoder.feed(&record[9..17]), 8);
    assert_eq!(decoder.state(), DecodeState::ReadPayload);
    assert_eq!(decoder.wanted(), 2);
    assert_eq!(decoder.feed(&record[17..]), 2);
    assert_eq!(decoder.state(), DecodeState::Done);
    let (dims, payload) = decoder.finish().unwrap();
    assert_eq!(dims, vec![3]);
    assert_eq!(payload, vec![1u8, 2, 3]);
}

#[test]
fn the_decoder_stops_at_the_field_that_rejects_the_record() {
    let mut bytes = header(*b"ND", 9, 0, 2, &[4, 4]);
    bytes.extend_from_slice(&[0; 16]);
    let mut decoder = NdDecoder::new(NdFormat { dtype_id: 0, elem_size: 1, rank: 2 });
    assert_eq!(decoder.feed(&bytes), 4);
    assert_eq!(decoder.state(), DecodeState::Failed(NdError::BadVersion));
    assert_eq!(decoder.feed(&bytes[4..]), 0);
    assert_eq!(decoder.finish().err(), Some(NdError::BadVersion));

    let bytes = header(*b"ND", 0, 0, 3, &[4, 4]);
    let mut decoder = NdDecoder::new(NdFormat { dtype_id: 0, elem_size: 1, rank: 2 });
    assert_eq!(decoder.feed(&bytes), 8);
    assert_eq!(decoder.state(), DecodeState::Failed(NdError::BadRank));
}

#[test]
fn a_decoder_whose_input_ends_early_reports_truncation() {
    let decoder = NdDecoder::new(NdFormat { dtype_id: 0, elem_size: 1, rank: 2 });
    assert_eq!(decoder.finish().err(), Some(NdError::Truncated));
    let mut decoder = NdDecoder::new(NdFormat { dtype_id: 0, elem_size: 1, rank: 2 });
    decoder.feed(&header(*b"ND", 0, 0, 2, &[1, 2]));
    assert_eq!(decoder.state(), DecodeState::ReadPayload);
    decoder.feed(&[7]);
    assert_eq!(decoder.finish().err(), Some(NdError::Truncated));
}

#[test]
fn decode_gives_extents_and_raw_payload() {
    let mut bytes = header(*b"ND", 0, 1, 2, &[1, 2]);
    bytes.extend_from_slice(&[1, 0, 0, 0, 2, 0, 0, 0, 99]);
    let format = NdFormat { dtype_id: 1, elem_size: 4, rank: 2 };
    let (dims, payload) = decode(format, &bytes).unwrap();
    assert_eq!(dims, vec![1, 2]);
    assert_eq!(payload, vec![1, 0, 0, 0, 2, 0, 0, 0]);
    let (dims, elems) = decode_array::<u32>(2, &bytes).unwrap();
    assert_eq!(dims, vec![1, 2]);
    assert_eq!(elems, vec![1u32, 2]);
    assert_eq!(decode_array::<u8>(2, &bytes).err(), Some(NdError::BadDtype));
}

#[test]
fn elements_are_written_and_read_without_padding() {
    let mut out = Vec::new();
    write_flat_buf(&mut out, &[0x0102_0304u32, 0xA0B0_C0D0]);
    assert_eq!(out, vec![4, 3, 2, 1, 0xD0, 0xC0, 0xB0, 0xA0]);
    assert_eq!(read_elems::<u32>(&out), vec![0x0102_0304u32, 0xA0B0_C0D0]);
    assert_eq!(read_elems::<u8>(&out), out);
    let mut bytes = Vec::new();
    write_flat_buf(&mut bytes, &[1u8, 2, 3]);
    assert_eq!(bytes, vec![1u8, 2, 3]);
}
