//! Element types of the array format and how each is laid out in bytes.

use vstd::prelude::*;
use crate::endian::{
    le_bytes, le_read_u32, le_value, lemma_le_bytes_len, lemma_le_bytes_of_value,
    lemma_le_limits, lemma_le_value_of_bytes, push_u32_le,
};

verus! {

/// An element type that the array format knows: its registered id, its
/// size in bytes, and the bytes of each value.
///
/// The format registers two types.  Id `0` is the byte.  Id `1` is the
/// 32-bit IEEE-754 number, which this library carries as its bit pattern in
/// a `u32` and lays out least significant byte first.
pub trait NdArrayDtype: Copy {
    /// The id under which the format registers the type.
    spec fn spec_dtype_id() -> u8;

    /// The number of bytes of one element.
    spec fn spec_size() -> nat;

    /// The bytes of one element.
    spec fn spec_layout(self) -> Seq<u8>;

    /// The element that `spec_size` bytes spell.
    spec fn spec_read(bytes: Seq<u8>) -> Self;

    /// Elements have between one and eight bytes.
    proof fn lemma_size()
        ensures
            0 < Self::spec_size() <= 8,
    ;

    /// An element is laid out in `spec_size` bytes and is read back from
    /// them unchanged.
    proof fn lemma_laid_out(x: Self)
        ensures
            x.spec_layout().len() == Self::spec_size(),
            Self::spec_read(x.spec_layout()) == x,
    ;

    /// Every `spec_size` bytes are the layout of the element they spell.
    proof fn lemma_read_back(bytes: Seq<u8>)
        requires
            bytes.len() == Self::spec_size(),
        ensures
            Self::spec_read(bytes).spec_layout() == bytes,
    ;

    fn dtype_id() -> (id: u8)
        ensures
            id == Self::spec_dtype_id(),
    ;

    fn elem_size() -> (n: usize)
        ensures
            n == Self::spec_size(),
    ;

    /// Appends the bytes of `self` to `out`.
    fn write_elem(self, out: &mut Vec<u8>)
        ensures
            final(out)@ == old(out)@ + self.spec_layout(),
    ;

    /// The element that `bytes` spell.
    fn read_elem(bytes: &[u8]) -> (x: Self)
        requires
            bytes@.len() == Self::spec_size(),
        ensures
            x == Self::spec_read(bytes@),
    ;
}

impl NdArrayDtype for u8 {
    open spec fn spec_dtype_id() -> u8 {
        0
    }

    open spec fn spec_size() -> nat {
        1
    }

    open spec fn spec_layout(self) -> Seq<u8> {
        seq![self]
    }

    open spec fn spec_read(bytes: Seq<u8>) -> Self {
        bytes[0]
    }

    proof fn lemma_size() {
    }

    proof fn lemma_laid_out(x: Self) {
    }

    proof fn lemma_read_back(bytes: Seq<u8>) {
        assert(seq![bytes[0]] =~= bytes);
    }

    fn dtype_id() -> (id: u8) {
        0
    }

    fn elem_size() -> (n: usize) {
        1
    }

    fn write_elem(self, out: &mut Vec<u8>) {
        out.push(self);
        assert(out@ =~= old(out)@ + seq![self]);
    }

    fn read_elem(bytes: &[u8]) -> (x: Self) {
        bytes[0]
    }
}

impl NdArrayDtype for u32 {
    open spec fn spec_dtype_id() -> u8 {
        1
    }

    open spec fn spec_size() -> nat {
        4
    }

    open spec fn spec_layout(self) -> Seq<u8> {
        le_bytes(self as nat, 4)
    }

    open spec fn spec_read(bytes: Seq<u8>) -> Self {
        le_value(bytes) as u32
    }

    proof fn lemma_size() {
    }

    proof fn lemma_laid_out(x: Self) {
        lemma_le_limits();
        lemma_le_bytes_len(x as nat, 4);
        lemma_le_value_of_bytes(x as nat, 4);
    }

    proof fn lemma_read_back(bytes: Seq<u8>) {
        lemma_le_limits();
        lemma_le_bytes_of_value(bytes);
    }

    fn dtype_id() -> (id: u8) {
        1
    }

    fn elem_size() -> (n: usize) {
        4
    }

    fn write_elem(self, out: &mut Vec<u8>) {
        push_u32_le(out, self);
    }

    fn read_elem(bytes: &[u8]) -> (x: Self) {
        assert(bytes@.subrange(0, 4) =~= bytes@);
        le_read_u32(bytes)
    }
}

/// The bytes of a run of elements: the bytes of each, in order, with
/// nothing between them.
pub open spec fn payload_bytes<T: NdArrayDtype>(elems: Seq<T>) -> Seq<u8>
    decreases elems.len(),
{
    if elems.len() == 0 {
        Seq::empty()
    } else {
        payload_bytes(elems.drop_last()) + elems.last().spec_layout()
    }
}

/// The `i`-th stretch of `spec_size` bytes.
pub open spec fn elem_bytes<T: NdArrayDtype>(bytes: Seq<u8>, i: int) -> Seq<u8> {
    bytes.subrange(i * T::spec_size(), (i + 1) * T::spec_size())
}

/// The elements that a run of bytes spells.  Bytes behind the last whole
/// element spell nothing.
pub open spec fn payload_elems<T: NdArrayDtype>(bytes: Seq<u8>) -> Seq<T> {
    Seq::new(
        bytes.len() / T::spec_size(),
        |i: int| T::spec_read(elem_bytes::<T>(bytes, i)),
    )
}

/// A run of `n` elements takes `n` times the element size in bytes.
pub proof fn lemma_payload_len<T: NdArrayDtype>(elems: Seq<T>)
    ensures
        payload_bytes(elems).len() == elems.len() * T::spec_size(),
    decreases elems.len(),
{
    T::lemma_size();
    if elems.len() > 0 {
        lemma_payload_len(elems.drop_last());
        T::lemma_laid_out(elems.last());
        assert((elems.len() - 1) * T::spec_size() + T::spec_size() == elems.len()
            * T::spec_size()) by (nonlinear_arith);
    }
}

/// Within the bytes of a run of elements, the `i`-th stretch is the layout
/// of the `i`-th element.
pub proof fn lemma_payload_stretch<T: NdArrayDtype>(elems: Seq<T>, i: int)
    requires
        0 <= i < elems.len(),
    ensures
        elem_bytes::<T>(payload_bytes(elems), i) == elems[i].spec_layout(),
    decreases elems.len(),
{
    let size = T::spec_size() as int;
    T::lemma_size();
    let front = elems.drop_last();
    lemma_payload_len(front);
    lemma_payload_len(elems);
    T::lemma_laid_out(elems.last());
    assert(i * size + size == (i + 1) * size) by (nonlinear_arith);
    assert((elems.len() - 1) * size + size == elems.len() * size) by (nonlinear_arith);
    if i == elems.len() - 1 {
        assert(elem_bytes::<T>(payload_bytes(elems), i) =~= elems[i].spec_layout());
    } else {
        lemma_payload_stretch(front, i);
        assert((i + 1) * size <= (elems.len() - 1) * size) by (nonlinear_arith)
            requires
                i + 1 <= elems.len() - 1,
                size > 0,
        ;
        assert(0 <= i * size) by (nonlinear_arith)
            requires
                0 <= i,
                size > 0,
        ;
        assert(elem_bytes::<T>(payload_bytes(elems), i) =~= elem_bytes::<T>(
            payload_bytes(front),
            i,
        ));
    }
}

/// Elements are read back unchanged from their bytes.
pub proof fn lemma_payload_round_trip<T: NdArrayDtype>(elems: Seq<T>)
    ensures
        payload_elems::<T>(payload_bytes(elems)) == elems,
{
    T::lemma_size();
    lemma_payload_len(elems);
    let bytes = payload_bytes(elems);
    let size = T::spec_size();
    assert(bytes.len() / size == elems.len()) by (nonlinear_arith)
        requires
            bytes.len() == elems.len() * size,
            size > 0,
    ;
    assert forall|i: int| 0 <= i < elems.len() implies payload_elems::<T>(bytes)[i]
        == elems[i] by {
        lemma_payload_stretch(elems, i);
        T::lemma_laid_out(elems[i]);
    }
    assert(payload_elems::<T>(bytes) =~= elems);
}

/// Appends the bytes of the elements of `buf` to `writer`, each element
/// once, in order, with no padding.
pub fn write_flat_buf<T: NdArrayDtype>(writer: &mut Vec<u8>, buf: &[T])
    ensures
        final(writer)@ == old(writer)@ + payload_bytes(buf@),
{
    let n: usize = buf.len();
    let mut i: usize = 0;
    assert(buf@.subrange(0, 0) =~= Seq::<T>::empty());
    assert(writer@ =~= old(writer)@ + payload_bytes(buf@.subrange(0, 0)));
    while i < n
        invariant
            i <= n,
            n == buf@.len(),
            writer@ == old(writer)@ + payload_bytes(buf@.subrange(0, i as int)),
        decreases n - i,
    {
        let ghost done = buf@.subrange(0, i as int);
        let ghost next = buf@.subrange(0, i + 1);
        buf[i].write_elem(writer);
        proof {
            assert(next.drop_last() =~= done);
            assert(next.last() == buf@[i as int]);
            assert(writer@ =~= old(writer)@ + payload_bytes(next));
        }
        i += 1;
    }
    assert(buf@.subrange(0, n as int) =~= buf@);
}

} // verus!
