//! The reader of the array format as a state machine.
//!
//! The decoder is handed the bytes of a record in pieces of any size, as a
//! stream delivers them, and says after each piece how far it has come.  It
//! checks every field as soon as the field is complete, and it keeps no
//! payload before the header has been accepted.  Whatever the pieces, its
//! state is [`spec_state`] of the bytes it has taken.

use vstd::prelude::*;
use crate::endian::{le_read_u32, le_read_u64};
use crate::format::{
    as_nats, dims_fit, header_len, lemma_scan_prefix, product, record_len, spec_decode, spec_dims,
    spec_end, spec_payload, spec_payload_len, spec_state, spec_wanted, DecodeState, NdError,
    NdFormat, RawRecord,
};

verus! {

/// A record in the reading.
pub struct NdDecoder {
    format: NdFormat,
    state: DecodeState,
    head: Vec<u8>,
    dims: Vec<usize>,
    payload: Vec<u8>,
    payload_len: usize,
}

/// Appends bytes of `chunk`, from position `from` on, to `dst` until `dst`
/// has `target` bytes or the chunk ends.
fn take(dst: &mut Vec<u8>, chunk: &[u8], from: usize, target: usize) -> (k: usize)
    requires
        old(dst)@.len() < target,
        from < chunk@.len(),
    ensures
        1 <= k,
        from + k <= chunk@.len(),
        final(dst)@ == old(dst)@ + chunk@.subrange(from as int, from + k),
        final(dst)@.len() <= target,
        final(dst)@.len() < target ==> from + k == chunk@.len(),
{
    let room: usize = target - dst.len();
    let left: usize = chunk.len() - from;
    let k: usize = if left < room { left } else { room };
    let mut i: usize = 0;
    while i < k
        invariant
            i <= k,
            from + k <= chunk@.len() <= usize::MAX,
            dst@ == old(dst)@ + chunk@.subrange(from as int, from + i),
        decreases k - i,
    {
        dst.push(chunk[from + i]);
        i += 1;
        assert(dst@ =~= old(dst)@ + chunk@.subrange(from as int, from + i));
    }
    k
}

/// Reads the extents from a complete header and the number of payload
/// bytes that they announce; nothing where they do not fit the machine.
fn parse_dims(head: &[u8], rank: usize, elem_size: usize) -> (r: Option<(Vec<usize>, usize)>)
    requires
        1 <= rank <= 4,
        1 <= elem_size,
        head@.len() == header_len(rank as nat),
    ensures
        r.is_some() <==> dims_fit(spec_dims(head@, rank as nat), elem_size as nat),
        r matches Some((dims, n)) ==> {
            &&& as_nats(dims@) == spec_dims(head@, rank as nat)
            &&& n == product(spec_dims(head@, rank as nat)) * elem_size
        },
{
    let ghost all = spec_dims(head@, rank as nat);
    let mut dims: Vec<usize> = Vec::new();
    let mut count: usize = 1;
    let mut k: usize = 0;
    assert(all.take(0) =~= Seq::<nat>::empty());
    while k < rank
        invariant
            k <= rank <= 4,
            head@.len() == header_len(rank as nat),
            all == spec_dims(head@, rank as nat),
            dims@.len() == k,
            forall|j: int| 0 <= j < k ==> dims@[j] as nat == all[j],
            forall|j: int| 0 <= j <= k ==> #[trigger] product(all.take(j)) <= usize::MAX,
            count == product(all.take(k as int)),
        decreases rank - k,
    {
        let field: &[u8] = vstd::slice::slice_subrange(head, 8 + 8 * k, 16 + 8 * k);
        assert(field@.subrange(0, 8) =~= head@.subrange(8 + 8 * k, 16 + 8 * k));
        let extent: u64 = le_read_u64(field);
        assert(extent == all[k as int]);
        proof {
            assert(all.take(k + 1).drop_last() =~= all.take(k as int));
            assert(all.take(k + 1).last() == all[k as int]);
        }
        if extent > usize::MAX as u64 {
            assert(!(all[k as int] <= usize::MAX));
            return None;
        }
        let d: usize = extent as usize;
        let next: Option<usize> = count.checked_mul(d);
        if next.is_none() {
            assert(!(product(all.take(k + 1)) <= usize::MAX));
            return None;
        }
        count = next.unwrap();
        dims.push(d);
        k += 1;
    }
    assert(all.take(rank as int) =~= all);
    let bytes: Option<usize> = count.checked_mul(elem_size);
    if bytes.is_none() {
        return None;
    }
    assert(as_nats(dims@) =~= all);
    assert forall|j: int| 0 <= j < all.len() implies #[trigger] all[j] <= usize::MAX by {
        assert(dims@[j] as nat == all[j]);
    }
    Some((dims, bytes.unwrap()))
}

impl NdDecoder {
    /// What the reader expects.
    pub closed spec fn format(&self) -> NdFormat {
        self.format
    }

    /// Every byte taken so far.
    pub closed spec fn consumed(&self) -> Seq<u8> {
        self.head@ + self.payload@
    }

    /// How far the reading has come.
    pub closed spec fn status(&self) -> DecodeState {
        self.state
    }

    /// The extents, once the header has been accepted.
    pub closed spec fn dims(&self) -> Seq<usize> {
        self.dims@
    }

    /// The payload bytes taken so far.
    pub closed spec fn payload(&self) -> Seq<u8> {
        self.payload@
    }

    /// The state is that of the bytes taken, and the decoder holds extents
    /// and payload only behind an accepted header.
    pub closed spec fn wf(&self) -> bool {
        &&& self.format.wf()
        &&& self.state == spec_state(self.format, self.consumed())
        &&& self.head@.len() <= header_len(self.format.rank as nat)
        &&& self.state.terminal() ==> self.consumed().len() == spec_end(
            self.format,
            self.consumed(),
        )
        &&& if self.state is ReadPayload || self.state is Done {
            &&& self.head@.len() == header_len(self.format.rank as nat)
            &&& as_nats(self.dims@) == spec_dims(self.consumed(), self.format.rank as nat)
            &&& self.payload_len == spec_payload_len(self.format, self.consumed())
            &&& self.payload@.len() <= self.payload_len
        } else {
            self.payload@.len() == 0 && self.dims@.len() == 0
        }
    }

    /// What a well-formed decoder holds, in terms of the bytes it has
    /// taken.
    pub proof fn lemma_wf(&self)
        requires
            self.wf(),
        ensures
            self.format().wf(),
            self.status() == spec_state(self.format(), self.consumed()),
            self.status() is Done ==> {
                &&& as_nats(self.dims()) == spec_dims(self.consumed(), self.format().rank as nat)
                &&& self.payload() == spec_payload(self.format(), self.consumed())
                &&& self.consumed().len() == record_len(self.format(), self.consumed())
            },
            !(self.status() is ReadPayload || self.status() is Done) ==> self.payload().len()
                == 0,
            self.status().terminal() ==> self.consumed().len() == spec_end(
                self.format(),
                self.consumed(),
            ),
    {
        if self.state is Done {
            assert(self.payload@ =~= spec_payload(self.format, self.consumed()));
        }
    }

    /// A decoder that has taken nothing.
    pub fn new(format: NdFormat) -> (d: Self)
        requires
            format.wf(),
        ensures
            d.wf(),
            d.format() == format,
            d.consumed() == Seq::<u8>::empty(),
            d.status() == DecodeState::ReadHeader,
    {
        let d = NdDecoder {
            format: format,
            state: DecodeState::ReadHeader,
            head: Vec::new(),
            dims: Vec::new(),
            payload: Vec::new(),
            payload_len: 0,
        };
        assert(d.consumed() =~= Seq::<u8>::empty());
        d
    }

    pub fn state(&self) -> (s: DecodeState)
        ensures
            s == self.status(),
    {
        self.state
    }

    /// How many bytes complete the field in the reading: the most that the
    /// next read need ask for.
    pub fn wanted(&self) -> (n: usize)
        requires
            self.wf(),
        ensures
            n == spec_wanted(self.format(), self.consumed()),
    {
        match self.state {
            DecodeState::ReadHeader => 4 - self.head.len(),
            DecodeState::ReadDims => {
                if self.head.len() < 8 {
                    8 - self.head.len()
                } else {
                    8 + 8 * self.format.rank - self.head.len()
                }
            },
            DecodeState::ReadPayload => self.payload_len - self.payload.len(),
            _ => 0,
        }
    }

    /// Takes bytes of `chunk` from position `from` on, up to the end of the
    /// field in the reading, and checks the field where that completes it.
    fn step(&mut self, chunk: &[u8], from: usize) -> (k: usize)
        requires
            old(self).wf(),
            !old(self).status().terminal(),
            from < chunk@.len(),
        ensures
            final(self).wf(),
            final(self).format() == old(self).format(),
            1 <= k,
            from + k <= chunk@.len(),
            final(self).consumed() == old(self).consumed() + chunk@.subrange(from as int, from + k),
    {
        let ghost before = self.consumed();
        let ghost f = self.format;
        match self.state {
            DecodeState::ReadHeader => {
                assert(before =~= self.head@);
                let k: usize = take(&mut self.head, chunk, from, 4);
                assert(self.consumed() =~= self.head@);
                assert(self.consumed() =~= before + chunk@.subrange(from as int, from + k));
                if self.head.len() == 4 {
                    if self.head[0] != 0x4E || self.head[1] != 0x44 {
                        self.state = DecodeState::Failed(NdError::BadMagic);
                    } else if self.head[2] != 0 {
                        self.state = DecodeState::Failed(NdError::BadVersion);
                    } else if self.head[3] != self.format.dtype_id {
                        self.state = DecodeState::Failed(NdError::BadDtype);
                    } else {
                        self.state = DecodeState::ReadDims;
                    }
                }
                k
            },
            DecodeState::ReadDims => {
                assert(before =~= self.head@);
                if self.head.len() < 8 {
                    let k: usize = take(&mut self.head, chunk, from, 8);
                    assert(self.consumed() =~= self.head@);
                    assert(self.consumed() =~= before + chunk@.subrange(from as int, from + k));
                    proof {
                        assert(self.consumed().subrange(0, before.len() as int) =~= before);
                        lemma_scan_prefix(f, before, self.consumed());
                    }
                    if self.head.len() == 8 {
                        let field: &[u8] = vstd::slice::slice_subrange(self.head.as_slice(), 4, 8);
                        assert(field@.subrange(0, 4) =~= self.head@.subrange(4, 8));
                        let rank: u32 = le_read_u32(field);
                        if rank as usize != self.format.rank {
                            self.state = DecodeState::Failed(NdError::BadRank);
                        }
                    }
                    k
                } else {
                    let k: usize = take(&mut self.head, chunk, from, 8 + 8 * self.format.rank);
                    assert(self.consumed() =~= self.head@);
                    assert(self.consumed() =~= before + chunk@.subrange(from as int, from + k));
                    proof {
                        assert(self.consumed().subrange(0, before.len() as int) =~= before);
                        lemma_scan_prefix(f, before, self.consumed());
                    }
                    if self.head.len() == 8 + 8 * self.format.rank {
                        match parse_dims(
                            self.head.as_slice(),
                            self.format.rank,
                            self.format.elem_size,
                        ) {
                            None => {
                                self.state = DecodeState::Failed(NdError::TooLarge);
                            },
                            Some((dims, n)) => {
                                self.dims = dims;
                                self.payload_len = n;
                                if n == 0 {
                                    self.state = DecodeState::Done;
                                } else {
                                    self.state = DecodeState::ReadPayload;
                                }
                            },
                        }
                    }
                    k
                }
            },
            DecodeState::ReadPayload => {
                let k: usize = take(&mut self.payload, chunk, from, self.payload_len);
                assert(self.consumed() =~= before + chunk@.subrange(from as int, from + k));
                proof {
                    assert(self.consumed().subrange(0, before.len() as int) =~= before);
                    lemma_scan_prefix(f, before, self.consumed());
                }
                if self.payload.len() == self.payload_len {
                    self.state = DecodeState::Done;
                }
                k
            },
            _ => 1,
        }
    }

    /// Hands the decoder the next piece of input.  The decoder takes the
    /// bytes of the piece up to the end of the record, or up to the field
    /// that rejects it, and says how many it took; bytes behind those it
    /// leaves alone.  A decoder that is done, or that has failed, takes
    /// nothing.
    pub fn feed(&mut self, chunk: &[u8]) -> (used: usize)
        requires
            old(self).wf(),
        ensures
            final(self).wf(),
            final(self).format() == old(self).format(),
            used <= chunk@.len(),
            final(self).consumed() == old(self).consumed() + chunk@.subrange(0, used as int),
            final(self).status() == spec_state(final(self).format(), final(self).consumed()),
            old(self).status().terminal() ==> used == 0,
            !final(self).status().terminal() ==> used == chunk@.len(),
            final(self).status().terminal() ==> final(self).consumed().len() == spec_end(
                final(self).format(),
                final(self).consumed(),
            ),
            final(self).status() is Failed ==> final(self).payload().len() == 0,
    {
        let mut used: usize = 0;
        assert(self.consumed() =~= old(self).consumed() + chunk@.subrange(0, 0));
        while used < chunk.len() && !self.is_terminal()
            invariant
                self.wf(),
                self.format() == old(self).format(),
                used <= chunk@.len(),
                self.consumed() == old(self).consumed() + chunk@.subrange(0, used as int),
                old(self).status().terminal() ==> used == 0,
                old(self).status().terminal() ==> self.status().terminal(),
            decreases chunk@.len() - used,
        {
            let ghost taken = self.consumed();
            let k: usize = self.step(chunk, used);
            assert(self.consumed() =~= old(self).consumed() + chunk@.subrange(0, used + k)) by {
                assert(chunk@.subrange(0, used + k) =~= chunk@.subrange(0, used as int)
                    + chunk@.subrange(used as int, used + k));
            }
            used += k;
        }
        proof {
            self.lemma_wf();
        }
        used
    }

    /// Whether the record is complete or rejected.
    pub fn is_terminal(&self) -> (b: bool)
        ensures
            b == self.status().terminal(),
    {
        match self.state {
            DecodeState::Done => true,
            DecodeState::Failed(_) => true,
            _ => false,
        }
    }

    /// Ends the reading: the extents and the payload of a complete record,
    /// the reason for which the record was rejected, or `Truncated` where
    /// the input has ended before the record.
    pub fn finish(self) -> (r: Result<(Vec<usize>, Vec<u8>), NdError>)
        requires
            self.wf(),
        ensures
            decoded(r) == spec_decode(self.format(), self.consumed()),
    {
        proof {
            self.lemma_wf();
        }
        match self.state {
            DecodeState::Done => Ok((self.dims, self.payload)),
            DecodeState::Failed(e) => Err(e),
            _ => Err(NdError::Truncated),
        }
    }
}

/// What an outcome of reading says, as mathematics.
pub open spec fn decoded(r: Result<(Vec<usize>, Vec<u8>), NdError>) -> Result<RawRecord, NdError> {
    match r {
        Ok((dims, payload)) => Ok(RawRecord { dims: as_nats(dims@), payload: payload@ }),
        Err(e) => Err(e),
    }
}

/// Reads the record at the start of `bytes`.
pub fn decode(format: NdFormat, bytes: &[u8]) -> (r: Result<(Vec<usize>, Vec<u8>), NdError>)
    requires
        format.wf(),
    ensures
        decoded(r) == spec_decode(format, bytes@),
{
    let mut decoder = NdDecoder::new(format);
    let used: usize = decoder.feed(bytes);
    proof {
        decoder.lemma_wf();
        assert(decoder.consumed() =~= bytes@.subrange(0, used as int));
        if used == bytes@.len() {
            assert(bytes@.subrange(0, used as int) =~= bytes@);
        } else {
            lemma_scan_prefix(format, decoder.consumed(), bytes@);
        }
    }
    decoder.finish()
}

} // verus!
