//! The binary array format, as mathematics.
//!
//! A record is laid out as
//!
//! | offset   | size    | field                                         |
//! |----------|---------|-----------------------------------------------|
//! | 0        | 2       | magic, the letters `N` `D`                    |
//! | 2        | 1       | version, `0`                                  |
//! | 3        | 1       | id of the element type                        |
//! | 4        | 4       | rank, little-endian                           |
//! | 8        | 8 each  | extents, little-endian                        |
//! | 8 + 8r   |         | the elements in buffer order, without padding |

use vstd::prelude::*;
use crate::dtype::{payload_bytes, NdArrayDtype};
use crate::endian::{le_bytes, le_value};

verus! {

/// Why a record was rejected.
#[derive(Clone, Copy, Debug, PartialEq, Eq, Structural)]
pub enum NdError {
    /// The input ended before the record did.
    Truncated,
    /// The record does not start with the letters `N` `D`.
    BadMagic,
    /// The version is not `0`.
    BadVersion,
    /// The element type is not the one asked for.
    BadDtype,
    /// The rank is not the one asked for.
    BadRank,
    /// An extent, the number of elements or the number of payload bytes
    /// does not fit the machine's `usize`.
    TooLarge,
    /// A byte count is not a multiple of the element size.
    Misaligned,
}

/// How far the reading of a record has come.
#[derive(Clone, Copy, Debug, PartialEq, Eq, Structural)]
pub enum DecodeState {
    /// Magic, version and element type are still to come.
    ReadHeader,
    /// Rank and extents are still to come.
    ReadDims,
    /// Payload bytes are still to come.
    ReadPayload,
    /// The record is complete.
    Done,
    /// The record was rejected.
    Failed(NdError),
}

impl DecodeState {
    /// No further byte changes a terminal state.
    pub open spec fn terminal(self) -> bool {
        self is Done || self is Failed
    }
}

/// What a reader expects of a record: the element type's id and size, and
/// the rank.
#[derive(Clone, Copy, Debug, PartialEq, Eq, Structural)]
pub struct NdFormat {
    pub dtype_id: u8,
    pub elem_size: usize,
    pub rank: usize,
}

impl NdFormat {
    /// Elements have at least one byte, and the rank is between one and
    /// four.
    pub open spec fn wf(self) -> bool {
        1 <= self.elem_size <= 8 && 1 <= self.rank <= 4
    }

    /// The format of records of elements `T` and the given rank.
    pub open spec fn of<T: NdArrayDtype>(rank: usize) -> NdFormat {
        NdFormat {
            dtype_id: T::spec_dtype_id(),
            elem_size: T::spec_size() as usize,
            rank: rank,
        }
    }
}

/// The length of everything before the payload.
pub open spec fn header_len(rank: nat) -> nat {
    8 + 8 * rank
}

/// The product of the extents.
pub open spec fn product(dims: Seq<nat>) -> nat
    decreases dims.len(),
{
    if dims.len() == 0 {
        1
    } else {
        product(dims.drop_last()) * dims.last()
    }
}

/// Every extent fits in `usize`, so does the product of every leading run
/// of extents, and so does the number of payload bytes.
pub open spec fn dims_fit(dims: Seq<nat>, elem_size: nat) -> bool {
    &&& forall|k: int| 0 <= k < dims.len() ==> #[trigger] dims[k] <= usize::MAX
    &&& forall|k: int| 0 <= k <= dims.len() ==> #[trigger] product(dims.take(k)) <= usize::MAX
    &&& product(dims) * elem_size <= usize::MAX
}

/// The `k`-th extent that the header of `input` gives.
pub open spec fn spec_dim(input: Seq<u8>, k: int) -> nat {
    le_value(input.subrange(8 + 8 * k, 16 + 8 * k))
}

/// The extents that the header of `input` gives.
pub open spec fn spec_dims(input: Seq<u8>, rank: nat) -> Seq<nat> {
    Seq::new(rank, |k: int| spec_dim(input, k))
}

/// Magic, version and element type are as expected.
pub open spec fn header_ok(f: NdFormat, input: Seq<u8>) -> bool {
    &&& input[0] == 0x4E
    &&& input[1] == 0x44
    &&& input[2] == 0
    &&& input[3] == f.dtype_id
}

/// What is wrong with the first four bytes: the first of magic, version and
/// element type that is not as expected.
pub open spec fn header_error(f: NdFormat, input: Seq<u8>) -> NdError {
    if input[0] != 0x4E || input[1] != 0x44 {
        NdError::BadMagic
    } else if input[2] != 0 {
        NdError::BadVersion
    } else {
        NdError::BadDtype
    }
}

/// The rank field holds the expected rank.
pub open spec fn rank_ok(f: NdFormat, input: Seq<u8>) -> bool {
    le_value(input.subrange(4, 8)) == f.rank
}

/// The number of payload bytes that the header of `input` announces.
pub open spec fn spec_payload_len(f: NdFormat, input: Seq<u8>) -> nat {
    product(spec_dims(input, f.rank as nat)) * (f.elem_size as nat)
}

/// The length of the whole record that the header of `input` announces.
pub open spec fn record_len(f: NdFormat, input: Seq<u8>) -> nat {
    header_len(f.rank as nat) + spec_payload_len(f, input)
}

/// How far a reader that expects `f` has come when it has seen `input`.
/// Every field is checked as soon as it is complete, in the order of the
/// layout, and the first field that is not as expected decides.
pub open spec fn spec_state(f: NdFormat, input: Seq<u8>) -> DecodeState {
    if input.len() < 4 {
        DecodeState::ReadHeader
    } else if !header_ok(f, input) {
        DecodeState::Failed(header_error(f, input))
    } else if input.len() < 8 {
        DecodeState::ReadDims
    } else if !rank_ok(f, input) {
        DecodeState::Failed(NdError::BadRank)
    } else if input.len() < header_len(f.rank as nat) {
        DecodeState::ReadDims
    } else if !dims_fit(spec_dims(input, f.rank as nat), f.elem_size as nat) {
        DecodeState::Failed(NdError::TooLarge)
    } else if input.len() < record_len(f, input) {
        DecodeState::ReadPayload
    } else {
        DecodeState::Done
    }
}

/// Where the reading of `input` ends: behind the field that rejects the
/// record, or behind the record.
pub open spec fn spec_end(f: NdFormat, input: Seq<u8>) -> nat {
    if !header_ok(f, input) {
        4
    } else if !rank_ok(f, input) {
        8
    } else if !dims_fit(spec_dims(input, f.rank as nat), f.elem_size as nat) {
        header_len(f.rank as nat)
    } else {
        record_len(f, input)
    }
}

/// The payload of a complete record.
pub open spec fn spec_payload(f: NdFormat, input: Seq<u8>) -> Seq<u8> {
    input.subrange(header_len(f.rank as nat) as int, record_len(f, input) as int)
}

/// What a record decodes to: extents and payload.
pub struct RawRecord {
    pub dims: Seq<nat>,
    pub payload: Seq<u8>,
}

/// What decoding input `input` gives once the input has ended: the record
/// at its start, the reason for which it was rejected, or `Truncated`
/// where the input ends before the record does.  Bytes behind the record
/// are not looked at.
pub open spec fn spec_decode(f: NdFormat, input: Seq<u8>) -> Result<RawRecord, NdError> {
    match spec_state(f, input) {
        DecodeState::Done => Ok(
            RawRecord { dims: spec_dims(input, f.rank as nat), payload: spec_payload(f, input) },
        ),
        DecodeState::Failed(e) => Err(e),
        _ => Err(NdError::Truncated),
    }
}

/// The bytes of the extents, eight each.
pub open spec fn dims_bytes(dims: Seq<nat>) -> Seq<u8>
    decreases dims.len(),
{
    if dims.len() == 0 {
        Seq::empty()
    } else {
        dims_bytes(dims.drop_last()) + le_bytes(dims.last(), 8)
    }
}

/// Everything before the payload.
pub open spec fn spec_header(dtype_id: u8, dims: Seq<nat>) -> Seq<u8> {
    seq![0x4Eu8, 0x44u8, 0u8, dtype_id] + le_bytes(dims.len(), 4) + dims_bytes(dims)
}

/// The record of an array of the given extents and elements.
pub open spec fn spec_encode<T: NdArrayDtype>(dims: Seq<nat>, elems: Seq<T>) -> Seq<u8> {
    spec_header(T::spec_dtype_id(), dims) + payload_bytes(elems)
}

/// `a` is how `b` starts.
pub open spec fn is_prefix(a: Seq<u8>, b: Seq<u8>) -> bool {
    a.len() <= b.len() && b.subrange(0, a.len() as int) == a
}

/// The extents as naturals.
pub open spec fn as_nats(dims: Seq<usize>) -> Seq<nat> {
    Seq::new(dims.len(), |k: int| dims[k] as nat)
}

/// How many bytes complete the field that a reader which has seen `input`
/// is reading; zero once the record is complete or rejected.
pub open spec fn spec_wanted(f: NdFormat, input: Seq<u8>) -> nat {
    match spec_state(f, input) {
        DecodeState::ReadHeader => (4 - input.len()) as nat,
        DecodeState::ReadDims => if input.len() < 8 {
            (8 - input.len()) as nat
        } else {
            (header_len(f.rank as nat) - input.len()) as nat
        },
        DecodeState::ReadPayload => (record_len(f, input) - input.len()) as nat,
        _ => 0,
    }
}

/// What a reader has made of the start of its input, it makes of the whole
/// input: every field that is complete in `a` reads the same in `b`, a
/// record that `a` completes or rejects is completed or rejected alike by
/// `b`, and the payload is the same.
pub proof fn lemma_scan_prefix(f: NdFormat, a: Seq<u8>, b: Seq<u8>)
    requires
        f.wf(),
        is_prefix(a, b),
    ensures
        a.len() >= 4 ==> header_ok(f, a) == header_ok(f, b) && header_error(f, a)
            == header_error(f, b),
        a.len() >= 8 ==> rank_ok(f, a) == rank_ok(f, b),
        a.len() >= header_len(f.rank as nat) ==> spec_dims(a, f.rank as nat) == spec_dims(
            b,
            f.rank as nat,
        ),
        spec_state(f, a).terminal() ==> spec_state(f, b) == spec_state(f, a),
        spec_state(f, a) is Done ==> spec_payload(f, b) == spec_payload(f, a),
        spec_state(f, a).terminal() ==> spec_decode(f, b) == spec_decode(f, a),
{
    let n = a.len() as int;
    assert forall|i: int| 0 <= i < n implies a[i] == b[i] by {
        assert(b.subrange(0, n)[i] == b[i]);
    }
    if n >= 8 {
        assert(a.subrange(4, 8) =~= b.subrange(4, 8));
    }
    let rank = f.rank as nat;
    if n >= header_len(rank) {
        assert forall|k: int| 0 <= k < rank implies spec_dim(a, k) == spec_dim(b, k) by {
            assert(a.subrange(8 + 8 * k, 16 + 8 * k) =~= b.subrange(8 + 8 * k, 16 + 8 * k));
        }
        assert(spec_dims(a, rank) =~= spec_dims(b, rank));
        if spec_state(f, a) is Done {
            assert(spec_payload(f, b) =~= spec_payload(f, a));
        }
    }
}

/// A record whose first four bytes are not as expected is rejected for the
/// first of magic, version and element type that is wrong, whatever
/// follows them.
pub proof fn lemma_bad_header_rejected(f: NdFormat, input: Seq<u8>)
    requires
        input.len() >= 4,
        !header_ok(f, input),
    ensures
        spec_decode(f, input) == Err::<RawRecord, NdError>(header_error(f, input)),
        input[0] != 0x4E || input[1] != 0x44 ==> spec_decode(f, input) == Err::<
            RawRecord,
            NdError,
        >(NdError::BadMagic),
        input[0] == 0x4E && input[1] == 0x44 && input[2] != 0 ==> spec_decode(f, input) == Err::<
            RawRecord,
            NdError,
        >(NdError::BadVersion),
        input[0] == 0x4E && input[1] == 0x44 && input[2] == 0 && input[3] != f.dtype_id
            ==> spec_decode(f, input) == Err::<RawRecord, NdError>(NdError::BadDtype),
{
}

} // verus!
