//! Reference-counted buffers of the `sharedmem` crate as array storage.
//!
//! A shared buffer is made from a vector once and never written again; any
//! number of handles may then read it.  The crate's types are opaque here:
//! what a buffer holds is named by the spec functions below, and the
//! contracts of the wrappers say over those names what the crate's source
//! shows.

use vstd::prelude::*;
use sharedmem::{SharedMem, SharedSlice};
use std::ops::Deref;
use crate::storage::Storage;

verus! {

#[verifier::external_type_specification]
#[verifier::external_body]
#[verifier::reject_recursive_types(T)]
pub struct ExSharedMem<T>(SharedMem<T>);

#[verifier::external_type_specification]
#[verifier::external_body]
#[verifier::reject_recursive_types(T)]
pub struct ExSharedSlice<T>(SharedSlice<T>);

/// The bytes that a shared buffer holds.
pub uninterp spec fn shared_mem_bytes(mem: SharedMem<u8>) -> Seq<u8>;

/// The bytes that a slice of a shared buffer refers to.
pub uninterp spec fn shared_slice_bytes(slice: SharedSlice<u8>) -> Seq<u8>;

/// The 32-bit words that a shared buffer holds.
pub uninterp spec fn shared_mem_words(mem: SharedMem<u32>) -> Seq<u32>;

/// The 32-bit words that a slice of a shared buffer refers to.
pub uninterp spec fn shared_slice_words(slice: SharedSlice<u32>) -> Seq<u32>;

/// `sharedmem::SharedMem::new` on a vector of bytes: the vector is moved
/// behind a reference count, so the buffer holds the vector's bytes.
#[verifier::external_body]
pub(crate) fn shared_mem_from_bytes(v: Vec<u8>) -> (mem: SharedMem<u8>)
    ensures
        shared_mem_bytes(mem) == v@,
{
    SharedMem::new(v)
}

/// `sharedmem::SharedMem::as_slice` on a buffer of bytes: a slice over the
/// whole buffer, which shares the buffer's reference count.
#[verifier::external_body]
pub(crate) fn shared_mem_as_byte_slice(mem: &SharedMem<u8>) -> (slice: SharedSlice<u8>)
    ensures
        shared_slice_bytes(slice) == shared_mem_bytes(*mem),
{
    mem.as_slice()
}

/// `Deref::deref` of `sharedmem::SharedSlice` on bytes: the bytes that the
/// slice refers to.
#[verifier::external_body]
pub(crate) fn shared_slice_as_bytes(slice: &SharedSlice<u8>) -> (s: &[u8])
    ensures
        s@ == shared_slice_bytes(*slice),
{
    slice.deref()
}

/// `sharedmem::SharedMem::new` on a vector of words: the vector is moved
/// behind a reference count, so the buffer holds the vector's words.
#[verifier::external_body]
pub(crate) fn shared_mem_from_words(v: Vec<u32>) -> (mem: SharedMem<u32>)
    ensures
        shared_mem_words(mem) == v@,
{
    SharedMem::new(v)
}

/// `sharedmem::SharedMem::as_slice` on a buffer of words: a slice over the
/// whole buffer, which shares the buffer's reference count.
#[verifier::external_body]
pub(crate) fn shared_mem_as_word_slice(mem: &SharedMem<u32>) -> (slice: SharedSlice<u32>)
    ensures
        shared_slice_words(slice) == shared_mem_words(*mem),
{
    mem.as_slice()
}

/// `Deref::deref` of `sharedmem::SharedSlice` on words: the words that the
/// slice refers to.
#[verifier::external_body]
pub(crate) fn shared_slice_as_words(slice: &SharedSlice<u32>) -> (s: &[u32])
    ensures
        s@ == shared_slice_words(*slice),
{
    slice.deref()
}

impl Storage<u8> for SharedSlice<u8> {
    open spec fn contents(&self) -> Seq<u8> {
        shared_slice_bytes(*self)
    }

    fn as_slice(&self) -> (s: &[u8]) {
        shared_slice_as_bytes(self)
    }
}

impl Storage<u32> for SharedSlice<u32> {
    open spec fn contents(&self) -> Seq<u32> {
        shared_slice_words(*self)
    }

    fn as_slice(&self) -> (s: &[u32]) {
        shared_slice_as_words(self)
    }
}

/// Moves a vector of bytes into shared memory.
pub fn share_bytes(v: Vec<u8>) -> (slice: SharedSlice<u8>)
    ensures
        slice.contents() == v@,
{
    let mem = shared_mem_from_bytes(v);
    shared_mem_as_byte_slice(&mem)
}

/// Moves a vector of words into shared memory.
pub fn share_words(v: Vec<u32>) -> (slice: SharedSlice<u32>)
    ensures
        slice.contents() == v@,
{
    let mem = shared_mem_from_words(v);
    shared_mem_as_word_slice(&mem)
}

} // verus!
