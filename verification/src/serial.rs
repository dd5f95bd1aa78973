//! Writing arrays to the binary format and reading them back.

use vstd::prelude::*;
use crate::array1d::Array1d;
use crate::array2d::Array2d;
use crate::array3d::Array3d;
use crate::array4d::Array4d;
use crate::decoder::decode;
use crate::dtype::{
    elem_bytes, lemma_payload_len, lemma_payload_round_trip, payload_bytes, payload_elems,
    write_flat_buf,
};
use crate::endian::{
    le_bytes, lemma_le_bytes_len, lemma_le_limits, lemma_le_value_of_bytes, push_u32_le,
    push_u64_le,
};
use crate::format::{
    as_nats, dims_bytes, dims_fit, product, spec_decode, spec_dim, spec_dims, spec_encode,
    spec_header, spec_payload, NdError, NdFormat, RawRecord,
};
use crate::index::ArrayIndex;
use crate::storage::Storage;

pub use crate::dtype::NdArrayDtype;

verus! {

/// An array that can be written to the binary format.
pub trait NdArraySerialize {
    /// The record of the array.
    spec fn spec_serialize(&self) -> Seq<u8>;

    /// Appends the record of the array to `writer`: magic, version, element
    /// type, rank, extents, and the elements in buffer order.
    fn serialize(&self, writer: &mut Vec<u8>)
        ensures
            final(writer)@ == old(writer)@ + self.spec_serialize(),
    ;
}

/// An array that can be read from the binary format.
pub trait NdArrayDeserialize: Sized {
    /// Reads the record at the start of `bytes`.
    fn deserialize(bytes: &[u8]) -> Result<Self, NdError>;
}

/// The extents take eight bytes each.
pub proof fn lemma_dims_bytes_len(dims: Seq<nat>)
    ensures
        dims_bytes(dims).len() == 8 * dims.len(),
    decreases dims.len(),
{
    if dims.len() > 0 {
        lemma_dims_bytes_len(dims.drop_last());
        lemma_le_bytes_len(dims.last(), 8);
    }
}

/// Within the bytes of the extents, the `k`-th stretch of eight spells the
/// `k`-th extent.
pub proof fn lemma_dims_bytes_stretch(dims: Seq<nat>, k: int)
    requires
        0 <= k < dims.len(),
    ensures
        dims_bytes(dims).subrange(8 * k, 8 * k + 8) == le_bytes(dims[k], 8),
    decreases dims.len(),
{
    let front = dims.drop_last();
    lemma_dims_bytes_len(front);
    lemma_dims_bytes_len(dims);
    lemma_le_bytes_len(dims.last(), 8);
    if k == dims.len() - 1 {
        assert(dims_bytes(dims).subrange(8 * k, 8 * k + 8) =~= le_bytes(dims[k], 8));
    } else {
        lemma_dims_bytes_stretch(front, k);
        assert(dims_bytes(dims).subrange(8 * k, 8 * k + 8) =~= dims_bytes(front).subrange(
            8 * k,
            8 * k + 8,
        ));
    }
}

/// A record is as long as its header and its elements: eight bytes, eight
/// more for every extent, and the elements' bytes.
pub proof fn lemma_encode_len<T: NdArrayDtype>(dims: Seq<nat>, elems: Seq<T>)
    ensures
        spec_header(T::spec_dtype_id(), dims).len() == 8 + 8 * dims.len(),
        spec_encode(dims, elems).len() == 8 + 8 * dims.len() + T::spec_size() * elems.len(),
{
    lemma_le_bytes_len(dims.len(), 4);
    lemma_dims_bytes_len(dims);
    lemma_payload_len(elems);
    assert(elems.len() * T::spec_size() == T::spec_size() * elems.len()) by (nonlinear_arith);
}

/// Reading what was written gives back what was written: the record of an
/// array of extents `dims` and elements `elems` decodes, under the format
/// of its element type and rank, to those extents and to the bytes of those
/// elements, and the bytes spell the elements.  Bytes behind the record do
/// not change that.
pub proof fn lemma_encode_decode<T: NdArrayDtype>(dims: Seq<nat>, elems: Seq<T>, rest: Seq<u8>)
    requires
        1 <= dims.len() <= 4,
        dims_fit(dims, T::spec_size()),
        elems.len() == product(dims),
    ensures
        spec_decode(NdFormat::of::<T>(dims.len() as usize), spec_encode(dims, elems) + rest)
            == Ok::<RawRecord, NdError>(RawRecord { dims: dims, payload: payload_bytes(elems) }),
        payload_elems::<T>(payload_bytes(elems)) == elems,
{
    let f = NdFormat::of::<T>(dims.len() as usize);
    let rank = dims.len();
    let head = spec_header(T::spec_dtype_id(), dims);
    let input = spec_encode(dims, elems) + rest;
    T::lemma_size();
    lemma_encode_len(dims, elems);
    lemma_le_bytes_len(rank, 4);
    lemma_dims_bytes_len(dims);
    lemma_payload_len(elems);
    lemma_le_limits();
    lemma_payload_round_trip(elems);
    assert(input.subrange(4, 8) =~= le_bytes(rank, 4));
    lemma_le_value_of_bytes(rank, 4);
    assert forall|k: int| 0 <= k < rank implies spec_dim(input, k) == dims[k] by {
        lemma_dims_bytes_stretch(dims, k);
        assert(input.subrange(8 + 8 * k, 16 + 8 * k) =~= dims_bytes(dims).subrange(
            8 * k,
            8 * k + 8,
        ));
        lemma_le_value_of_bytes(dims[k], 8);
    }
    assert(spec_dims(input, rank) =~= dims);
    assert(product(dims) * T::spec_size() == elems.len() * T::spec_size());
    assert(spec_payload(f, input) =~= payload_bytes(elems));
}

/// Appends the header of a record to `out`.
pub fn encode_header(dtype_id: u8, dims: &[usize], out: &mut Vec<u8>)
    requires
        dims@.len() <= u32::MAX,
    ensures
        final(out)@ == old(out)@ + spec_header(dtype_id, as_nats(dims@)),
{
    let n: usize = dims.len();
    out.push(0x4E);
    out.push(0x44);
    out.push(0);
    out.push(dtype_id);
    push_u32_le(out, n as u32);
    let ghost fixed = out@;
    let ghost all = as_nats(dims@);
    assert(fixed =~= old(out)@ + (seq![0x4Eu8, 0x44u8, 0u8, dtype_id] + le_bytes(n as nat, 4)));
    let mut k: usize = 0;
    assert(all.take(0) =~= Seq::<nat>::empty());
    while k < n
        invariant
            k <= n,
            n == dims@.len(),
            all == as_nats(dims@),
            out@ == fixed + dims_bytes(all.take(k as int)),
        decreases n - k,
    {
        push_u64_le(out, dims[k] as u64);
        proof {
            assert(all.take(k + 1).drop_last() =~= all.take(k as int));
            assert(all.take(k + 1).last() == dims@[k as int] as nat);
            assert(out@ =~= fixed + dims_bytes(all.take(k + 1)));
        }
        k += 1;
    }
    assert(all.take(n as int) =~= all);
    assert(out@ =~= old(out)@ + spec_header(dtype_id, all));
}

/// The elements that `bytes` spell.
pub fn read_elems<T: NdArrayDtype>(bytes: &[u8]) -> (elems: Vec<T>)
    requires
        bytes@.len() % T::spec_size() == 0,
    ensures
        elems@ == payload_elems::<T>(bytes@),
{
    proof {
        T::lemma_size();
    }
    let size: usize = T::elem_size();
    let total: usize = bytes.len();
    let n: usize = total / size;
    let mut elems: Vec<T> = Vec::with_capacity(n);
    let mut i: usize = 0;
    proof {
        vstd::arithmetic::div_mod::lemma_fundamental_div_mod(total as int, size as int);
        assert(size * n == n * size) by (nonlinear_arith);
    }
    while i < n
        invariant
            i <= n,
            size == T::spec_size(),
            size > 0,
            total == bytes@.len(),
            n * size == bytes@.len(),
            n == bytes@.len() / T::spec_size(),
            elems@.len() == i,
            forall|j: int|
                0 <= j < i ==> elems@[j] == T::spec_read(elem_bytes::<T>(bytes@, j)),
        decreases n - i,
    {
        assert(i * size + size <= n * size) by (nonlinear_arith)
            requires
                i < n,
                size > 0,
        ;
        assert((i + 1) * size == i * size + size) by (nonlinear_arith);
        let stretch: &[u8] = vstd::slice::slice_subrange(bytes, i * size, i * size + size);
        elems.push(T::read_elem(stretch));
        i += 1;
    }
    assert(elems@ =~= payload_elems::<T>(bytes@));
    elems
}

/// Reads the record at the start of `bytes` as a record of elements `T`
/// and rank `rank`: its extents and its elements.
pub fn decode_array<T: NdArrayDtype>(rank: usize, bytes: &[u8]) -> (r: Result<
    (Vec<usize>, Vec<T>),
    NdError,
>)
    requires
        1 <= rank <= 4,
    ensures
        match r {
            Ok((dims, elems)) => {
                &&& spec_decode(NdFormat::of::<T>(rank), bytes@) matches Ok(record)
                &&& as_nats(dims@) == record.dims
                &&& elems@ == payload_elems::<T>(record.payload)
                &&& dims@.len() == rank
                &&& dims_fit(record.dims, T::spec_size())
                &&& elems@.len() == product(record.dims)
            },
            Err(e) => spec_decode(NdFormat::of::<T>(rank), bytes@) == Err::<RawRecord, NdError>(e),
        },
{
    proof {
        T::lemma_size();
    }
    let format = NdFormat { dtype_id: T::dtype_id(), elem_size: T::elem_size(), rank: rank };
    match decode(format, bytes) {
        Err(e) => Err(e),
        Ok((dims, payload)) => {
            proof {
                let n = product(spec_dims(bytes@, rank as nat));
                let size = T::spec_size();
                assert(payload@.len() == n * size);
                vstd::arithmetic::div_mod::lemma_mod_multiples_basic(n as int, size as int);
                vstd::arithmetic::div_mod::lemma_div_by_multiple(n as int, size as int);
                assert(as_nats(dims@).len() == rank);
            }
            let elems: Vec<T> = read_elems(payload.as_slice());
            Ok((dims, elems))
        },
    }
}

/// The product of the first extents, spelled out.
pub proof fn lemma_product_unfold(dims: Seq<nat>)
    ensures
        dims.len() >= 1 ==> product(dims.take(1)) == dims[0],
        dims.len() >= 2 ==> product(dims.take(2)) == dims[0] * dims[1],
        dims.len() >= 3 ==> product(dims.take(3)) == dims[0] * dims[1] * dims[2],
        dims.len() >= 4 ==> product(dims.take(4)) == dims[0] * dims[1] * dims[2] * dims[3],
{
    assert(product(dims.take(0)) == 1);
    if dims.len() >= 1 {
        assert(dims.take(1).drop_last() =~= dims.take(0));
        assert(dims.take(1).last() == dims[0]);
        assert(1 * dims[0] == dims[0]) by (nonlinear_arith);
    }
    if dims.len() >= 2 {
        assert(dims.take(2).drop_last() =~= dims.take(1));
        assert(dims.take(2).last() == dims[1]);
        assert(product(dims.take(2)) == product(dims.take(2).drop_last()) * dims.take(2).last());
    }
    if dims.len() >= 3 {
        assert(dims.take(3).drop_last() =~= dims.take(2));
        assert(dims.take(3).last() == dims[2]);
        assert(product(dims.take(3)) == product(dims.take(3).drop_last()) * dims.take(3).last());
    }
    if dims.len() >= 4 {
        assert(dims.take(4).drop_last() =~= dims.take(3));
        assert(dims.take(4).last() == dims[3]);
        assert(product(dims.take(4)) == product(dims.take(4).drop_last()) * dims.take(4).last());
    }
}

/// The extents of a rank-1 shape, axis by axis.
pub open spec fn extents1(dim: usize) -> Seq<nat> {
    seq![dim as nat]
}

/// A rank-1 shape and its extents say the same: the number of elements,
/// and whether it fits the machine.
pub proof fn lemma_extents1(dim: usize)
    ensures
        product(extents1(dim)) == dim.spec_flat_len(),
        (forall|k: int| 0 <= k <= 1 ==> #[trigger] product(extents1(dim).take(k)) <= usize::MAX)
            <==> dim.len_fits(),
{
    let dims = extents1(dim);
    lemma_product_unfold(dims);
    assert(dims.take(1) =~= dims);
    if dim.len_fits() {
        assert forall|k: int| 0 <= k <= 1 implies #[trigger] product(dims.take(k))
            <= usize::MAX by {
            assert(k == 0 || k == 1);
        }
    }
    if forall|k: int| 0 <= k <= 1 ==> #[trigger] product(dims.take(k)) <= usize::MAX {
        assert(product(dims.take(1)) <= usize::MAX);
    }
}

impl<T: NdArrayDtype, S: Storage<T>> NdArraySerialize for Array1d<T, S> {
    open spec fn spec_serialize(&self) -> Seq<u8> {
        spec_encode(extents1(self@.dim), self@.data)
    }

    fn serialize(&self, writer: &mut Vec<u8>) {
        let dim: usize = self.dim();
        let mut dims: Vec<usize> = Vec::new();
        dims.push(dim);
        assert(as_nats(dims@) =~= extents1(dim));
        encode_header(T::dtype_id(), dims.as_slice(), writer);
        write_flat_buf(writer, self.as_slice());
        assert(writer@ =~= old(writer)@ + self.spec_serialize());
    }
}

impl<T: NdArrayDtype> NdArrayDeserialize for Array1d<T> {
    /// Reads the record at the start of `bytes` as an array of rank 1.
    fn deserialize(bytes: &[u8]) -> (r: Result<Self, NdError>)
        ensures
            match r {
                Ok(a) => {
                    &&& spec_decode(NdFormat::of::<T>(1), bytes@) matches Ok(record)
                    &&& a@.dense()
                    &&& extents1(a@.dim) == record.dims
                    &&& a@.data == payload_elems::<T>(record.payload)
                },
                Err(e) => spec_decode(NdFormat::of::<T>(1), bytes@) == Err::<RawRecord, NdError>(
                    e,
                ),
            },
    {
        match decode_array::<T>(1, bytes) {
            Err(e) => Err(e),
            Ok((dims, elems)) => {
                let dim: usize = dims[0];
                proof {
                    assert(as_nats(dims@) =~= extents1(dim));
                    lemma_extents1(dim);
                }
                Ok(Array1d::from_storage(dim, elems))
            },
        }
    }
}

/// The extents of a rank-2 shape, axis by axis.
pub open spec fn extents2(dim: (usize, usize)) -> Seq<nat> {
    seq![dim.0 as nat, dim.1 as nat]
}

/// A rank-2 shape and its extents say the same: the number of elements,
/// and whether it fits the machine.
pub proof fn lemma_extents2(dim: (usize, usize))
    ensures
        product(extents2(dim)) == dim.spec_flat_len(),
        (forall|k: int| 0 <= k <= 2 ==> #[trigger] product(extents2(dim).take(k)) <= usize::MAX)
            <==> dim.len_fits(),
{
    let dims = extents2(dim);
    lemma_product_unfold(dims);
    assert(dims.take(2) =~= dims);
    if dim.len_fits() {
        assert forall|k: int| 0 <= k <= 2 implies #[trigger] product(dims.take(k))
            <= usize::MAX by {
            assert(k == 0 || k == 1 || k == 2);
        }
    }
    if forall|k: int| 0 <= k <= 2 ==> #[trigger] product(dims.take(k)) <= usize::MAX {
        assert(product(dims.take(2)) <= usize::MAX);
    }
}

impl<T: NdArrayDtype, S: Storage<T>> NdArraySerialize for Array2d<T, S> {
    open spec fn spec_serialize(&self) -> Seq<u8> {
        spec_encode(extents2(self@.dim), self@.data)
    }

    fn serialize(&self, writer: &mut Vec<u8>) {
        let dim: (usize, usize) = self.dim();
        let mut dims: Vec<usize> = Vec::new();
        dims.push(dim.0);
        dims.push(dim.1);
        assert(as_nats(dims@) =~= extents2(dim));
        encode_header(T::dtype_id(), dims.as_slice(), writer);
        write_flat_buf(writer, self.as_slice());
        assert(writer@ =~= old(writer)@ + self.spec_serialize());
    }
}

impl<T: NdArrayDtype> NdArrayDeserialize for Array2d<T> {
    /// Reads the record at the start of `bytes` as an array of rank 2.
    fn deserialize(bytes: &[u8]) -> (r: Result<Self, NdError>)
        ensures
            match r {
                Ok(a) => {
                    &&& spec_decode(NdFormat::of::<T>(2), bytes@) matches Ok(record)
                    &&& a@.dense()
                    &&& extents2(a@.dim) == record.dims
                    &&& a@.data == payload_elems::<T>(record.payload)
                },
                Err(e) => spec_decode(NdFormat::of::<T>(2), bytes@) == Err::<RawRecord, NdError>(
                    e,
                ),
            },
    {
        match decode_array::<T>(2, bytes) {
            Err(e) => Err(e),
            Ok((dims, elems)) => {
                let dim: (usize, usize) = (dims[0], dims[1]);
                proof {
                    assert(as_nats(dims@) =~= extents2(dim));
                    lemma_extents2(dim);
                }
                Ok(Array2d::from_storage(dim, elems))
            },
        }
    }
}

/// The extents of a rank-3 shape, axis by axis.
pub open spec fn extents3(dim: (usize, usize, usize)) -> Seq<nat> {
    seq![dim.0 as nat, dim.1 as nat, dim.2 as nat]
}

/// A rank-3 shape and its extents say the same: the number of elements,
/// and whether it fits the machine.
pub proof fn lemma_extents3(dim: (usize, usize, usize))
    ensures
        product(extents3(dim)) == dim.spec_flat_len(),
        (forall|k: int| 0 <= k <= 3 ==> #[trigger] product(extents3(dim).take(k)) <= usize::MAX)
            <==> dim.len_fits(),
{
    let dims = extents3(dim);
    lemma_product_unfold(dims);
    assert(dims.take(3) =~= dims);
    if dim.len_fits() {
        assert forall|k: int| 0 <= k <= 3 implies #[trigger] product(dims.take(k))
            <= usize::MAX by {
            assert(k == 0 || k == 1 || k == 2 || k == 3);
        }
    }
    if forall|k: int| 0 <= k <= 3 ==> #[trigger] product(dims.take(k)) <= usize::MAX {
        assert(product(dims.take(2)) <= usize::MAX);
        assert(product(dims.take(3)) <= usize::MAX);
    }
}

impl<T: NdArrayDtype, S: Storage<T>> NdArraySerialize for Array3d<T, S> {
    open spec fn spec_serialize(&self) -> Seq<u8> {
        spec_encode(extents3(self@.dim), self@.data)
    }

    fn serialize(&self, writer: &mut Vec<u8>) {
        let dim: (usize, usize, usize) = self.dim();
        let mut dims: Vec<usize> = Vec::new();
        dims.push(dim.0);
        dims.push(dim.1);
        dims.push(dim.2);
        assert(as_nats(dims@) =~= extents3(dim));
        encode_header(T::dtype_id(), dims.as_slice(), writer);
        write_flat_buf(writer, self.as_slice());
        assert(writer@ =~= old(writer)@ + self.spec_serialize());
    }
}

impl<T: NdArrayDtype> NdArrayDeserialize for Array3d<T> {
    /// Reads the record at the start of `bytes` as an array of rank 3.
    fn deserialize(bytes: &[u8]) -> (r: Result<Self, NdError>)
        ensures
            match r {
                Ok(a) => {
                    &&& spec_decode(NdFormat::of::<T>(3), bytes@) matches Ok(record)
                    &&& a@.dense()
                    &&& extents3(a@.dim) == record.dims
                    &&& a@.data == payload_elems::<T>(record.payload)
                },
                Err(e) => spec_decode(NdFormat::of::<T>(3), bytes@) == Err::<RawRecord, NdError>(
                    e,
                ),
            },
    {
        match decode_array::<T>(3, bytes) {
            Err(e) => Err(e),
            Ok((dims, elems)) => {
                let dim: (usize, usize, usize) = (dims[0], dims[1], dims[2]);
                proof {
                    assert(as_nats(dims@) =~= extents3(dim));
                    lemma_extents3(dim);
                }
                Ok(Array3d::from_storage(dim, elems))
            },
        }
    }
}

/// The extents of a rank-4 shape, axis by axis.
pub open spec fn extents4(dim: (usize, usize, usize, usize)) -> Seq<nat> {
    seq![dim.0 as nat, dim.1 as nat, dim.2 as nat, dim.3 as nat]
}

/// A rank-4 shape and its extents say the same: the number of elements,
/// and whether it fits the machine.
pub proof fn lemma_extents4(dim: (usize, usize, usize, usize))
    ensures
        product(extents4(dim)) == dim.spec_flat_len(),
        (forall|k: int| 0 <= k <= 4 ==> #[trigger] product(extents4(dim).take(k)) <= usize::MAX)
            <==> dim.len_fits(),
{
    let dims = extents4(dim);
    lemma_product_unfold(dims);
    assert(dims.take(4) =~= dims);
    if dim.len_fits() {
        assert forall|k: int| 0 <= k <= 4 implies #[trigger] product(dims.take(k))
            <= usize::MAX by {
            assert(k == 0 || k == 1 || k == 2 || k == 3 || k == 4);
        }
    }
    if forall|k: int| 0 <= k <= 4 ==> #[trigger] product(dims.take(k)) <= usize::MAX {
        assert(product(dims.take(2)) <= usize::MAX);
        assert(product(dims.take(3)) <= usize::MAX);
        assert(product(dims.take(4)) <= usize::MAX);
    }
}

impl<T: NdArrayDtype, S: Storage<T>> NdArraySerialize for Array4d<T, S> {
    open spec fn spec_serialize(&self) -> Seq<u8> {
        spec_encode(extents4(self@.dim), self@.data)
    }

    fn serialize(&self, writer: &mut Vec<u8>) {
        let dim: (usize, usize, usize, usize) = self.dim();
        let mut dims: Vec<usize> = Vec::new();
        dims.push(dim.0);
        dims.push(dim.1);
        dims.push(dim.2);
        dims.push(dim.3);
        assert(as_nats(dims@) =~= extents4(dim));
        encode_header(T::dtype_id(), dims.as_slice(), writer);
        write_flat_buf(writer, self.as_slice());
        assert(writer@ =~= old(writer)@ + self.spec_serialize());
    }
}

impl<T: NdArrayDtype> NdArrayDeserialize for Array4d<T> {
    /// Reads the record at the start of `bytes` as an array of rank 4.
    fn deserialize(bytes: &[u8]) -> (r: Result<Self, NdError>)
        ensures
            match r {
                Ok(a) => {
                    &&& spec_decode(NdFormat::of::<T>(4), bytes@) matches Ok(record)
                    &&& a@.dense()
                    &&& extents4(a@.dim) == record.dims
                    &&& a@.data == payload_elems::<T>(record.payload)
                },
                Err(e) => spec_decode(NdFormat::of::<T>(4), bytes@) == Err::<RawRecord, NdError>(
                    e,
                ),
            },
    {
        match decode_array::<T>(4, bytes) {
            Err(e) => Err(e),
            Ok((dims, elems)) => {
                let dim: (usize, usize, usize, usize) = (dims[0], dims[1], dims[2], dims[3]);
                proof {
                    assert(as_nats(dims@) =~= extents4(dim));
                    lemma_extents4(dim);
                }
                Ok(Array4d::from_storage(dim, elems))
            },
        }
    }
}

} // verus!
