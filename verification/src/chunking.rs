//! Chunked-write and pacing policy for input payloads.
//!
//! The transport behind the driver has a bounded kernel buffer. A payload at
//! or above a size threshold is therefore not handed to the input channel in
//! one piece: it is cut into pieces of a fixed size, which are released one at
//! a time with a short pause between them, so that the driver can drain its
//! pending buffer between additions. Smaller payloads go through whole.
//!
//! The threshold, the piece size and the pause were chosen by experiment to
//! stay under an assumed kernel buffer size; no operating system guarantees
//! that size. They are policy, carried in a [`ChunkPolicy`], not constants of
//! the algorithm.

use vstd::prelude::*;

verus! {

/// Payloads of at least this many bytes are paced.
pub const CHUNK_THRESHOLD: usize = 1500;

/// Size of each piece of a paced payload, but for the last.
pub const CHUNK_SIZE: usize = 512;

/// Pause between two pieces, in milliseconds.
pub const CHUNK_DELAY_MS: u64 = 10;

/// Number of pieces of at most `size` bytes that `len` bytes are cut into.
pub open spec fn chunk_count(len: nat, size: nat) -> nat
    recommends
        size > 0,
{
    ((len + size - 1) / size as int) as nat
}

/// `payload` cut from the front into pieces of `size` bytes, the last piece
/// holding what is left.
pub open spec fn chunks_of(payload: Seq<u8>, size: nat) -> Seq<Seq<u8>>
    recommends
        size > 0,
    decreases payload.len(),
{
    if payload.len() == 0 || size == 0 {
        Seq::empty()
    } else if payload.len() <= size {
        seq![payload]
    } else {
        seq![payload.take(size as int)] + chunks_of(payload.skip(size as int), size)
    }
}

/// The pieces put back together in the order of receipt.
pub open spec fn join(pieces: Seq<Seq<u8>>) -> Seq<u8>
    decreases pieces.len(),
{
    if pieces.len() == 0 {
        Seq::empty()
    } else {
        pieces.first() + join(pieces.skip(1))
    }
}

/// The contents of a list of byte buffers.
pub open spec fn views(pieces: Seq<Vec<u8>>) -> Seq<Seq<u8>> {
    pieces.map_values(|piece: Vec<u8>| piece@)
}

/// What a policy hands to the input channel for `payload`: the pieces of a
/// payload that reaches the threshold, or the payload whole.
pub open spec fn paced(payload: Seq<u8>, threshold: nat, size: nat) -> Seq<Seq<u8>> {
    if payload.len() >= threshold {
        chunks_of(payload, size)
    } else {
        seq![payload]
    }
}

/// Joining is additive over concatenation of piece lists.
pub proof fn lemma_join_concat(a: Seq<Seq<u8>>, b: Seq<Seq<u8>>)
    ensures
        join(a + b) == join(a) + join(b),
    decreases a.len(),
{
    if a.len() == 0 {
        assert(a + b =~= b);
        assert(join(a) + join(b) =~= join(b));
    } else {
        assert((a + b).first() == a.first());
        assert((a + b).skip(1) =~= a.skip(1) + b);
        lemma_join_concat(a.skip(1), b);
        assert(join(a + b) =~= join(a) + join(b));
    }
}

/// A single piece joins to itself.
pub proof fn lemma_join_single(piece: Seq<u8>)
    ensures
        join(seq![piece]) == piece,
{
    let s = seq![piece];
    assert(s.skip(1) =~= Seq::<Seq<u8>>::empty());
    assert(join(s.skip(1)) =~= Seq::<u8>::empty());
    assert(join(s) =~= piece);
}

/// No reordering across chunk boundaries: cutting a payload into pieces of
/// any size `size >= 1`, whether or not `size` divides the length, and putting
/// the pieces together in order gives the payload back exactly.
pub proof fn lemma_chunks_reassemble(payload: Seq<u8>, size: nat)
    requires
        size > 0,
    ensures
        join(chunks_of(payload, size)) == payload,
    decreases payload.len(),
{
    if payload.len() == 0 {
        assert(join(chunks_of(payload, size)) =~= payload);
    } else if payload.len() <= size {
        lemma_join_single(payload);
    } else {
        let head = payload.take(size as int);
        let tail = payload.skip(size as int);
        lemma_chunks_reassemble(tail, size);
        lemma_join_single(head);
        lemma_join_concat(seq![head], chunks_of(tail, size));
        assert(head + tail =~= payload);
    }
}

/// The number of pieces is the length divided by the piece size, rounded up.
pub proof fn lemma_chunks_count(payload: Seq<u8>, size: nat)
    requires
        size > 0,
    ensures
        chunks_of(payload, size).len() == chunk_count(payload.len(), size),
    decreases payload.len(),
{
    let len = payload.len() as int;
    let sz = size as int;
    if len == 0 {
        assert((len + sz - 1) / sz == 0) by (nonlinear_arith)
            requires
                len == 0,
                sz > 0,
        ;
    } else if len <= sz {
        assert((len + sz - 1) / sz == 1) by (nonlinear_arith)
            requires
                0 < len <= sz,
        ;
    } else {
        let tail = payload.skip(sz);
        lemma_chunks_count(tail, size);
        assert(tail.len() == len - sz);
        assert((len + sz - 1) / sz == (len - sz + sz - 1) / sz + 1) by (nonlinear_arith)
            requires
                sz > 0,
                len > sz,
        ;
    }
}

/// Every piece but the last is full, and the last is neither empty nor
/// longer than the piece size.
pub proof fn lemma_chunks_sizes(payload: Seq<u8>, size: nat, i: int)
    requires
        size > 0,
        0 <= i < chunks_of(payload, size).len(),
    ensures
        i < chunks_of(payload, size).len() - 1 ==> chunks_of(payload, size)[i].len() == size,
        0 < chunks_of(payload, size)[i].len() <= size,
    decreases payload.len(),
{
    if payload.len() == 0 {
    } else if payload.len() <= size {
    } else {
        let tail = payload.skip(size as int);
        let rest = chunks_of(tail, size);
        lemma_chunks_count(tail, size);
        if i > 0 {
            lemma_chunks_sizes(tail, size, i - 1);
            assert(chunks_of(payload, size)[i] == rest[i - 1]);
        } else {
            assert(rest.len() > 0) by {
                assert(chunks_of(tail, size).len() > 0);
            }
        }
    }
}

/// Pacing loses nothing: whatever the policy, the pieces handed to the input
/// channel for a payload, taken in order, are the payload.
pub proof fn lemma_paced_reassemble(payload: Seq<u8>, threshold: nat, size: nat)
    requires
        size > 0,
    ensures
        join(paced(payload, threshold, size)) == payload,
{
    if payload.len() >= threshold {
        lemma_chunks_reassemble(payload, size);
    } else {
        lemma_join_single(payload);
    }
}

/// When and how an input payload is cut into pieces.
#[derive(Clone, Copy, Debug, PartialEq, Eq)]
pub struct ChunkPolicy {
    threshold: usize,
    chunk_size: usize,
    delay_ms: u64,
}

impl ChunkPolicy {
    #[verifier::type_invariant]
    spec fn positive_chunk_size(self) -> bool {
        self.chunk_size > 0
    }

    /// Payloads of at least this many bytes are cut.
    pub closed spec fn spec_threshold(self) -> nat {
        self.threshold as nat
    }

    /// Size of each piece but the last.
    pub closed spec fn spec_chunk_size(self) -> nat {
        self.chunk_size as nat
    }

    /// Pause between two pieces, in milliseconds.
    pub closed spec fn spec_delay_ms(self) -> nat {
        self.delay_ms as nat
    }

    /// The number of messages that a payload of `len` bytes becomes.
    pub open spec fn spec_piece_count(self, len: nat) -> nat {
        if len >= self.spec_threshold() {
            chunk_count(len, self.spec_chunk_size())
        } else {
            1
        }
    }

    /// The policy found by experiment: 512-byte pieces from 1500 bytes on,
    /// 10 ms apart.
    pub fn standard() -> (policy: ChunkPolicy)
        ensures
            policy.spec_threshold() == CHUNK_THRESHOLD,
            policy.spec_chunk_size() == CHUNK_SIZE,
            policy.spec_delay_ms() == CHUNK_DELAY_MS,
    {
        ChunkPolicy { threshold: CHUNK_THRESHOLD, chunk_size: CHUNK_SIZE, delay_ms: CHUNK_DELAY_MS }
    }

    /// A policy with the given values; none with a piece size of zero.
    pub fn new(threshold: usize, chunk_size: usize, delay_ms: u64) -> (policy: Option<ChunkPolicy>)
        ensures
            policy is Some <==> chunk_size > 0,
            policy matches Some(p) ==> p.spec_threshold() == threshold && p.spec_chunk_size()
                == chunk_size && p.spec_delay_ms() == delay_ms,
    {
        if chunk_size == 0 {
            None
        } else {
            Some(ChunkPolicy { threshold, chunk_size, delay_ms })
        }
    }

    pub fn threshold(&self) -> (n: usize)
        ensures
            n == self.spec_threshold(),
    {
        self.threshold
    }

    pub fn chunk_size(&self) -> (n: usize)
        ensures
            n == self.spec_chunk_size(),
            n > 0,
    {
        proof {
            use_type_invariant(self);
        }
        self.chunk_size
    }

    pub fn delay_ms(&self) -> (ms: u64)
        ensures
            ms == self.spec_delay_ms(),
    {
        self.delay_ms
    }

    /// Whether a payload of `len` bytes is cut into pieces.
    pub fn needs_chunking(&self, len: usize) -> (yes: bool)
        ensures
            yes == (len >= self.spec_threshold()),
    {
        len >= self.threshold
    }

    /// The number of pieces that `len` bytes are cut into.
    pub fn chunk_count(&self, len: usize) -> (count: usize)
        ensures
            count == chunk_count(len as nat, self.spec_chunk_size()),
    {
        proof {
            use_type_invariant(self);
        }
        let size = self.chunk_size;
        let whole = len / size;
        let rest = len % size;
        proof {
            let l = len as int;
            let s = size as int;
            assert((l + s - 1) / s == l / s + if l % s == 0 {
                0int
            } else {
                1int
            }) by (nonlinear_arith)
                requires
                    l >= 0,
                    s > 0,
            ;
            assert(l / s <= l) by (nonlinear_arith)
                requires
                    l >= 0,
                    s > 0,
            ;
            assert(l % s != 0 ==> l / s < l) by (nonlinear_arith)
                requires
                    l >= 0,
                    s > 0,
            ;
        }
        if rest == 0 {
            whole
        } else {
            whole + 1
        }
    }

    /// The number of messages that a payload of `len` bytes becomes: its
    /// pieces if it is cut, one otherwise.
    pub fn piece_count(&self, len: usize) -> (count: usize)
        ensures
            count == self.spec_piece_count(len as nat),
    {
        if self.needs_chunking(len) {
            self.chunk_count(len)
        } else {
            1
        }
    }

    /// The pauses that pacing adds to a payload of `len` bytes, in
    /// milliseconds: one pause between each two messages.
    pub fn total_delay_ms(&self, len: usize) -> (ms: u128)
        ensures
            self.spec_piece_count(len as nat) > 0 ==> ms == (self.spec_piece_count(len as nat) - 1)
                * self.spec_delay_ms(),
            self.spec_piece_count(len as nat) == 0 ==> ms == 0,
    {
        let count = self.piece_count(len);
        if count == 0 {
            0
        } else {
            let gaps: u128 = (count - 1) as u128;
            let pause: u128 = self.delay_ms as u128;
            assert(gaps * pause <= 0xffff_ffff_ffff_ffff * 0xffff_ffff_ffff_ffff) by (nonlinear_arith)
                requires
                    0 <= gaps <= 0xffff_ffff_ffff_ffff,
                    0 <= pause <= 0xffff_ffff_ffff_ffff,
            ;
            gaps * pause
        }
    }

    /// Whether a piece always fits a transport buffer of `capacity` bytes.
    pub fn fits_transport(&self, capacity: usize) -> (fits: bool)
        ensures
            fits == (self.spec_chunk_size() <= capacity),
    {
        self.chunk_size <= capacity
    }

    /// Cuts `payload` into pieces of the policy's size, whatever its length.
    pub fn split(&self, payload: &[u8]) -> (pieces: Vec<Vec<u8>>)
        ensures
            views(pieces@) == chunks_of(payload@, self.spec_chunk_size()),
            join(views(pieces@)) == payload@,
            pieces@.len() == chunk_count(payload@.len(), self.spec_chunk_size()),
    {
        proof {
            use_type_invariant(self);
        }
        let size = self.chunk_size;
        let len = payload.len();
        let mut pieces: Vec<Vec<u8>> = Vec::new();
        let mut start: usize = 0;
        proof {
            assert(payload@.skip(0) =~= payload@);
            assert(views(pieces@) =~= Seq::<Seq<u8>>::empty());
            assert(views(pieces@) + chunks_of(payload@, size as nat) =~= chunks_of(
                payload@,
                size as nat,
            ));
        }
        while start < len
            invariant
                size > 0,
                len == payload@.len(),
                start <= len,
                views(pieces@) + chunks_of(payload@.skip(start as int), size as nat) == chunks_of(
                    payload@,
                    size as nat,
                ),
            decreases len - start,
        {
            let end: usize = if len - start <= size {
                len
            } else {
                start + size
            };
            let piece = vstd::slice::slice_to_vec(vstd::slice::slice_subrange(payload, start, end));
            proof {
                let rest = payload@.skip(start as int);
                let after = payload@.skip(end as int);
                assert(piece@ =~= rest.take(end - start));
                if len - start <= size {
                    assert(after.len() == 0);
                    assert(chunks_of(after, size as nat) =~= Seq::<Seq<u8>>::empty());
                    assert(piece@ =~= rest);
                    assert(chunks_of(rest, size as nat) =~= seq![piece@] + chunks_of(
                        after,
                        size as nat,
                    ));
                } else {
                    assert(rest.skip(size as int) =~= after);
                }
                assert(views(pieces@.push(piece)) =~= views(pieces@) + seq![piece@]);
                assert(views(pieces@.push(piece)) + chunks_of(after, size as nat) =~= views(
                    pieces@,
                ) + (seq![piece@] + chunks_of(after, size as nat)));
            }
            pieces.push(piece);
            start = end;
        }
        proof {
            assert(payload@.skip(len as int).len() == 0);
            assert(views(pieces@) + Seq::<Seq<u8>>::empty() =~= views(pieces@));
            lemma_chunks_reassemble(payload@, size as nat);
            lemma_chunks_count(payload@, size as nat);
            assert(views(pieces@).len() == pieces@.len());
        }
        pieces
    }

    /// The messages to release, in order, for one input payload: its pieces
    /// if it reaches the threshold, the payload itself otherwise.
    pub fn pace(&self, payload: Vec<u8>) -> (pieces: Vec<Vec<u8>>)
        ensures
            views(pieces@) == paced(payload@, self.spec_threshold(), self.spec_chunk_size()),
            join(views(pieces@)) == payload@,
            pieces@.len() == self.spec_piece_count(payload@.len()),
    {
        if self.needs_chunking(payload.len()) {
            self.split(payload.as_slice())
        } else {
            let mut pieces: Vec<Vec<u8>> = Vec::new();
            pieces.push(payload);
            proof {
                assert(views(pieces@) =~= seq![payload@]);
                lemma_join_single(payload@);
            }
            pieces
        }
    }
}

} // verus!
