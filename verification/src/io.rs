//! Reading flat element buffers from a stream in pieces, and arrays into
//! shared memory.
//!
//! A stream hands over its bytes in pieces of its own choosing, and a
//! piece may end in the middle of an element.  The reader here takes the
//! pieces as they come, turns whole elements into values, and carries the
//! bytes of an element that is still incomplete over to the next piece.

use vstd::prelude::*;
use sharedmem::SharedSlice;
use crate::array2d::Array2d;
use crate::array3d::Array3d;
use crate::dtype::{
    lemma_payload_len, lemma_payload_round_trip, payload_bytes, payload_elems, NdArrayDtype,
};
use crate::format::{spec_decode, NdError, NdFormat, RawRecord};
use crate::serial::{decode_array, extents2, extents3, lemma_extents2, lemma_extents3};
use crate::shared::{share_bytes, share_words};

pub use crate::dtype::write_flat_buf;

verus! {

/// An element type of the array format that may be shared between threads.
pub trait NdDatatype: NdArrayDtype + Send + Sync {
    fn nd_type_id() -> (id: u8)
        ensures
            id == Self::spec_dtype_id(),
    ;
}

impl NdDatatype for u8 {
    fn nd_type_id() -> (id: u8) {
        0
    }
}

impl NdDatatype for u32 {
    fn nd_type_id() -> (id: u8) {
        1
    }
}

/// An array that can be read from the binary format into storage of its
/// own kind.
pub trait NdReader: Sized {
    /// Reads the record at the start of `bytes`.
    fn deserialize(bytes: &[u8]) -> Result<Self, NdError>;
}

/// The size of the staging buffer for reads of elements of `elem_size`
/// bytes: sixteen pages, or as many pages as one element takes if that is
/// more.
pub fn staging_size(elem_size: usize) -> (n: usize)
    requires
        elem_size <= usize::MAX - 4095,
    ensures
        n % 4096 == 0,
        n >= 16 * 4096,
        n >= elem_size,
        n == if (elem_size + 4095) / 4096 > 16 {
            (elem_size + 4095) / 4096 * 4096
        } else {
            16 * 4096int
        },
{
    let pages: usize = (elem_size + 4095) / 4096;
    if pages > 16 {
        pages * 4096
    } else {
        16 * 4096
    }
}

/// A flat buffer of elements in the reading.
pub struct FlatBufReader<T> {
    elems: Vec<T>,
    carry: Vec<u8>,
    total: usize,
    num_bytes: usize,
}

impl<T: NdArrayDtype> FlatBufReader<T> {
    /// Every byte taken so far.
    pub closed spec fn taken(&self) -> Seq<u8> {
        payload_bytes(self.elems@) + self.carry@
    }

    /// How many bytes the buffer has in all.
    pub closed spec fn spec_num_bytes(&self) -> nat {
        self.num_bytes as nat
    }

    /// The elements that are complete.
    pub closed spec fn elems(&self) -> Seq<T> {
        self.elems@
    }

    /// The bytes of the element that is not yet complete.
    pub closed spec fn carry(&self) -> Seq<u8> {
        self.carry@
    }

    /// The reader has taken no more than the buffer has, the buffer is a
    /// whole number of elements, and less than one element is carried.
    pub closed spec fn wf(&self) -> bool {
        &&& self.total == self.taken().len()
        &&& self.total <= self.num_bytes
        &&& self.num_bytes as nat % T::spec_size() == 0
        &&& self.carry@.len() < T::spec_size()
    }

    /// The elements that are complete are those that the bytes taken
    /// spell, and the bytes carried are those behind them.
    pub proof fn lemma_wf(&self)
        requires
            self.wf(),
        ensures
            self.taken().len() <= self.spec_num_bytes(),
            self.spec_num_bytes() % T::spec_size() == 0,
            self.elems() == payload_elems::<T>(self.taken()),
            self.taken() == payload_bytes(self.elems()) + self.carry(),
            self.carry().len() == self.taken().len() % T::spec_size(),
    {
        lemma_whole_elements(self.elems@, self.carry@);
    }

    /// A reader for a buffer of `num_bytes` bytes; `Misaligned` where that
    /// is not a whole number of elements.
    pub fn new(num_bytes: usize) -> (r: Result<Self, NdError>)
        ensures
            match r {
                Ok(reader) => {
                    &&& num_bytes as nat % T::spec_size() == 0
                    &&& reader.wf()
                    &&& reader.spec_num_bytes() == num_bytes
                    &&& reader.taken() == Seq::<u8>::empty()
                },
                Err(e) => e == NdError::Misaligned && num_bytes as nat % T::spec_size() != 0,
            },
    {
        proof {
            T::lemma_size();
        }
        if num_bytes % T::elem_size() != 0 {
            return Err(NdError::Misaligned);
        }
        let reader = FlatBufReader {
            elems: Vec::new(),
            carry: Vec::new(),
            total: 0,
            num_bytes: num_bytes,
        };
        assert(reader.taken() =~= Seq::<u8>::empty());
        Ok(reader)
    }

    /// How many bytes are still to come.
    pub fn wanted(&self) -> (n: usize)
        requires
            self.wf(),
        ensures
            n == self.spec_num_bytes() - self.taken().len(),
    {
        self.num_bytes - self.total
    }

    /// Hands the reader the next piece of input.  The reader takes the
    /// bytes of the piece up to the end of the buffer and says how many it
    /// took.
    pub fn push(&mut self, chunk: &[u8]) -> (used: usize)
        requires
            old(self).wf(),
        ensures
            final(self).wf(),
            final(self).spec_num_bytes() == old(self).spec_num_bytes(),
            used == if chunk@.len() <= old(self).spec_num_bytes() - old(self).taken().len() {
                chunk@.len() as int
            } else {
                old(self).spec_num_bytes() - old(self).taken().len()
            },
            final(self).taken() == old(self).taken() + chunk@.subrange(0, used as int),
    {
        proof {
            T::lemma_size();
        }
        let size: usize = T::elem_size();
        let room: usize = self.num_bytes - self.total;
        let n: usize = if chunk.len() <= room { chunk.len() } else { room };
        let mut i: usize = 0;
        assert(self.taken() =~= old(self).taken() + chunk@.subrange(0, 0));
        while i < n
            invariant
                i <= n <= chunk@.len(),
                size == T::spec_size(),
                self.wf(),
                self.num_bytes == old(self).num_bytes,
                self.total == old(self).total + i,
                old(self).total + n <= self.num_bytes,
                self.taken() == old(self).taken() + chunk@.subrange(0, i as int),
            decreases n - i,
        {
            let ghost before = self.taken();
            self.carry.push(chunk[i]);
            self.total += 1;
            assert(self.taken() =~= before + seq![chunk@[i as int]]);
            if self.carry.len() == size {
                let ghost bytes = self.carry@;
                let ghost done = self.elems@;
                let x: T = T::read_elem(self.carry.as_slice());
                self.elems.push(x);
                self.carry.clear();
                proof {
                    T::lemma_read_back(bytes);
                    assert(self.elems@.drop_last() =~= done);
                    assert(self.taken() =~= payload_bytes(done) + bytes);
                }
            }
            i += 1;
            assert(chunk@.subrange(0, i as int) =~= chunk@.subrange(0, i - 1) + seq![
                chunk@[i - 1],
            ]);
        }
        n
    }

    /// Ends the reading: the elements, or `Truncated` where the input has
    /// ended before the buffer.
    pub fn finish(self) -> (r: Result<Vec<T>, NdError>)
        requires
            self.wf(),
        ensures
            match r {
                Ok(elems) => {
                    &&& self.taken().len() == self.spec_num_bytes()
                    &&& elems@ == payload_elems::<T>(self.taken())
                },
                Err(e) => e == NdError::Truncated && self.taken().len() < self.spec_num_bytes(),
            },
    {
        proof {
            self.lemma_wf();
        }
        if self.total == self.num_bytes {
            Ok(self.elems)
        } else {
            Err(NdError::Truncated)
        }
    }
}

/// The bytes of whole elements, followed by less than one element more,
/// spell those elements, and what is left over is what follows them.
pub proof fn lemma_whole_elements<T: NdArrayDtype>(elems: Seq<T>, carry: Seq<u8>)
    requires
        carry.len() < T::spec_size(),
    ensures
        payload_elems::<T>(payload_bytes(elems) + carry) == elems,
        (payload_bytes(elems) + carry).len() % T::spec_size() == carry.len(),
        (payload_bytes(elems) + carry).len() / T::spec_size() == elems.len(),
{
    let size = T::spec_size() as int;
    let whole = payload_bytes(elems);
    let all = whole + carry;
    T::lemma_size();
    lemma_payload_len(elems);
    lemma_payload_round_trip(elems);
    vstd::arithmetic::div_mod::lemma_fundamental_div_mod_converse(
        all.len() as int,
        size,
        elems.len() as int,
        carry.len() as int,
    );
    vstd::arithmetic::div_mod::lemma_mod_multiples_basic(elems.len() as int, size);
    vstd::arithmetic::div_mod::lemma_div_by_multiple(elems.len() as int, size);
    assert forall|i: int| 0 <= i < elems.len() implies payload_elems::<T>(all)[i]
        == payload_elems::<T>(whole)[i] by {
        assert((i + 1) * size <= elems.len() * size) by (nonlinear_arith)
            requires
                i + 1 <= elems.len(),
                size > 0,
        ;
        assert(0 <= i * size) by (nonlinear_arith)
            requires
                0 <= i,
                size > 0,
        ;
        assert((i + 1) * size == i * size + size) by (nonlinear_arith);
        assert(all.subrange(i * size, (i + 1) * size) =~= whole.subrange(
            i * size,
            (i + 1) * size,
        ));
    }
    assert(payload_elems::<T>(all) =~= payload_elems::<T>(whole));
}

/// Reads a flat buffer of `num_bytes` bytes from the start of `bytes`.
/// A byte count that is not a whole number of elements is rejected as
/// `Misaligned`; input that ends before the buffer, as `Truncated`.
pub fn read_flat_buf<T: NdArrayDtype>(num_bytes: usize, bytes: &[u8]) -> (r: Result<
    Vec<T>,
    NdError,
>)
    ensures
        match r {
            Ok(elems) => {
                &&& num_bytes as nat % T::spec_size() == 0
                &&& num_bytes <= bytes@.len()
                &&& elems@ == payload_elems::<T>(bytes@.subrange(0, num_bytes as int))
            },
            Err(e) => if num_bytes as nat % T::spec_size() != 0 {
                e == NdError::Misaligned
            } else {
                e == NdError::Truncated && bytes@.len() < num_bytes
            },
        },
{
    match FlatBufReader::<T>::new(num_bytes) {
        Err(e) => Err(e),
        Ok(mut reader) => {
            let used: usize = reader.push(bytes);
            assert(reader.taken() =~= bytes@.subrange(0, used as int));
            reader.finish()
        },
    }
}

impl NdReader for Array2d<u8, SharedSlice<u8>> {
    /// Reads the record at the start of `bytes` as a rank-two array of
    /// bytes in shared memory.
    fn deserialize(bytes: &[u8]) -> (r: Result<Self, NdError>)
        ensures
            match r {
                Ok(a) => {
                    &&& spec_decode(NdFormat::of::<u8>(2), bytes@) matches Ok(record)
                    &&& a@.dense()
                    &&& extents2(a@.dim) == record.dims
                    &&& a@.data == payload_elems::<u8>(record.payload)
                },
                Err(e) => spec_decode(NdFormat::of::<u8>(2), bytes@) == Err::<RawRecord, NdError>(
                    e,
                ),
            },
    {
        match decode_array::<u8>(2, bytes) {
            Err(e) => Err(e),
            Ok((dims, elems)) => {
                let dim: (usize, usize) = (dims[0], dims[1]);
                proof {
                    assert(crate::format::as_nats(dims@) =~= extents2(dim));
                    lemma_extents2(dim);
                }
                Ok(Array2d::from_storage(dim, share_bytes(elems)))
            },
        }
    }
}

impl NdReader for Array2d<u32, SharedSlice<u32>> {
    /// Reads the record at the start of `bytes` as a rank-two array of
    /// 32-bit words in shared memory.
    fn deserialize(bytes: &[u8]) -> (r: Result<Self, NdError>)
        ensures
            match r {
                Ok(a) => {
                    &&& spec_decode(NdFormat::of::<u32>(2), bytes@) matches Ok(record)
                    &&& a@.dense()
                    &&& extents2(a@.dim) == record.dims
                    &&& a@.data == payload_elems::<u32>(record.payload)
                },
                Err(e) => spec_decode(NdFormat::of::<u32>(2), bytes@) == Err::<
                    RawRecord,
                    NdError,
                >(e),
            },
    {
        match decode_array::<u32>(2, bytes) {
            Err(e) => Err(e),
            Ok((dims, elems)) => {
                let dim: (usize, usize) = (dims[0], dims[1]);
                proof {
                    assert(crate::format::as_nats(dims@) =~= extents2(dim));
                    lemma_extents2(dim);
                }
                Ok(Array2d::from_storage(dim, share_words(elems)))
            },
        }
    }
}

impl NdReader for Array3d<u8, SharedSlice<u8>> {
    /// Reads the record at the start of `bytes` as a rank-three array of
    /// bytes in shared memory.
    fn deserialize(bytes: &[u8]) -> (r: Result<Self, NdError>)
        ensures
            match r {
                Ok(a) => {
                    &&& spec_decode(NdFormat::of::<u8>(3), bytes@) matches Ok(record)
                    &&& a@.dense()
                    &&& extents3(a@.dim) == record.dims
                    &&& a@.data == payload_elems::<u8>(record.payload)
                },
                Err(e) => spec_decode(NdFormat::of::<u8>(3), bytes@) == Err::<RawRecord, NdError>(
                    e,
                ),
            },
    {
        match decode_array::<u8>(3, bytes) {
            Err(e) => Err(e),
            Ok((dims, elems)) => {
                let dim: (usize, usize, usize) = (dims[0], dims[1], dims[2]);
                proof {
                    assert(crate::format::as_nats(dims@) =~= extents3(dim));
                    lemma_extents3(dim);
                }
                Ok(Array3d::from_storage(dim, share_bytes(elems)))
            },
        }
    }
}

impl NdReader for Array3d<u32, SharedSlice<u32>> {
    /// Reads the record at the start of `bytes` as a rank-three array of
    /// 32-bit words in shared memory.
    fn deserialize(bytes: &[u8]) -> (r: Result<Self, NdError>)
        ensures
            match r {
                Ok(a) => {
                    &&& spec_decode(NdFormat::of::<u32>(3), bytes@) matches Ok(record)
                    &&& a@.dense()
                    &&& extents3(a@.dim) == record.dims
                    &&& a@.data == payload_elems::<u32>(record.payload)
                },
                Err(e) => spec_decode(NdFormat::of::<u32>(3), bytes@) == Err::<
                    RawRecord,
                    NdError,
                >(e),
            },
    {
        match decode_array::<u32>(3, bytes) {
            Err(e) => Err(e),
            Ok((dims, elems)) => {
                let dim: (usize, usize, usize) = (dims[0], dims[1], dims[2]);
                proof {
                    assert(crate::format::as_nats(dims@) =~= extents3(dim));
                    lemma_extents3(dim);
                }
                Ok(Array3d::from_storage(dim, share_words(elems)))
            },
        }
    }
}

} // verus!
