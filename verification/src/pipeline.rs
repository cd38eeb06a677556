//! The copy-and-verify pipeline's verified core.
//!
//! One Read stage fills fixed-size buffers drawn from a bounded pool and
//! fans every filled chunk out, in order, to a Write stage and a Hash stage.
//! The I/O and the worker threads live outside this library; what is here is
//! everything the pipeline decides: the read-failure recovery policy that
//! keeps the output byte-aligned, and the session bookkeeping whose
//! invariants bound memory use and keep the write order and the hash order
//! identical.

use crate::hash::{hex_of, spec_digest, ForensicHasher, HashAlgo};
use vstd::prelude::*;

verus! {

/// How many buffers the pool pre-allocates by default.
pub const DEFAULT_POOL_CAPACITY: usize = 16;

/// The default bound of each hand-off queue.
pub const DEFAULT_QUEUE_DEPTH: usize = 8;

/// The bytes of all chunks, concatenated in delivery order.
pub open spec fn concat_chunks(cs: Seq<Seq<u8>>) -> Seq<u8>
    decreases cs.len(),
{
    if cs.len() == 0 {
        Seq::empty()
    } else {
        cs[0] + concat_chunks(cs.drop_first())
    }
}

/// An all-zero block of `n` bytes.
pub open spec fn zero_block(n: nat) -> Seq<u8> {
    Seq::new(n, |i: int| 0u8)
}

/// One iteration's valid payload: a buffer plus the count of bytes that are
/// payload for this iteration (short reads leave the tail meaningless).
pub struct Chunk {
    data: Vec<u8>,
    len: usize,
}

impl Chunk {
    /// The payload never extends past the buffer.
    pub closed spec fn wf(self) -> bool {
        self.len <= self.data@.len()
    }

    /// The whole underlying buffer, valid payload and meaningless tail.
    pub closed spec fn buffer(self) -> Seq<u8> {
        self.data@
    }

    /// The valid bytes of this iteration.
    pub closed spec fn payload(self) -> Seq<u8> {
        self.data@.subrange(0, self.len as int)
    }

    /// Wraps a filled buffer with its valid-byte count.
    pub fn new(data: Vec<u8>, len: usize) -> (r: Chunk)
        requires
            len <= data@.len(),
        ensures
            r.wf(),
            r.payload() == data@.subrange(0, len as int),
    {
        Chunk { data, len }
    }

    /// How many bytes are valid payload.
    pub fn len(&self) -> (r: usize)
        requires
            self.wf(),
        ensures
            r == self.payload().len(),
    {
        self.len
    }

    /// The payload bytes.
    pub fn bytes(&self) -> (r: &[u8])
        requires
            self.wf(),
        ensures
            r@ == self.payload(),
    {
        vstd::slice::slice_subrange(self.data.as_slice(), 0, self.len)
    }

    /// Releases the buffer for reuse.
    pub fn into_buffer(self) -> (r: Vec<u8>)
        ensures
            r@ == self.buffer(),
    {
        self.data
    }
}

/// Overwrites every byte of the buffer with zero, keeping its length.
pub fn zero_fill(buffer: &mut Vec<u8>)
    ensures
        final(buffer)@ == zero_block(old(buffer)@.len()),
{
    let n = buffer.len();
    let mut i: usize = 0;
    while i < n
        invariant
            i <= n,
            buffer@.len() == n,
            forall|j: int| 0 <= j < i ==> buffer@[j] == 0u8,
        decreases n - i,
    {
        buffer.set(i, 0u8);
        i = i + 1;
    }
    assert(buffer@ =~= zero_block(old(buffer)@.len()));
}

/// What the source reported for one block: `Data(n)` for a successful read
/// of `n` bytes (`n == 0` at end of stream), `Failed` for a read error.
#[derive(Clone, Copy, PartialEq, Eq, Structural, Debug)]
pub enum ReadOutcome {
    Data(usize),
    Failed,
}

/// What the Read stage does next: emit the buffer's first `len` bytes as a
/// chunk — zero-filling the whole buffer first, and seeking one block ahead
/// afterwards, when the flags say so — or finish the stream.
#[derive(Clone, Copy, PartialEq, Eq, Structural, Debug)]
pub enum ReadStep {
    Emit { len: usize, fill_zero: bool, skip_ahead: bool },
    Finish,
}

/// The Read stage's policy for one iteration over a buffer of `block_size`
/// bytes. A successful read emits exactly the bytes read, and a zero-length
/// read ends the stream. A failed read orders the buffer zero-filled and
/// emitted full-length, followed by a seek one block ahead: an unreadable
/// region becomes a block of zeros rather than a size-shifting gap, so byte
/// offsets in the output are preserved.
pub fn read_step(block_size: usize, outcome: ReadOutcome) -> (r: ReadStep)
    requires
        outcome matches ReadOutcome::Data(n) ==> n <= block_size,
    ensures
        r == match outcome {
            ReadOutcome::Data(n) => if n == 0 {
                ReadStep::Finish
            } else {
                (ReadStep::Emit { len: n, fill_zero: false, skip_ahead: false })
            },
            ReadOutcome::Failed => (ReadStep::Emit {
                len: block_size,
                fill_zero: true,
                skip_ahead: true,
            }),
        },
{
    match outcome {
        ReadOutcome::Data(n) => {
            if n == 0 {
                ReadStep::Finish
            } else {
                ReadStep::Emit { len: n, fill_zero: false, skip_ahead: false }
            }
        },
        ReadOutcome::Failed => {
            ReadStep::Emit { len: block_size, fill_zero: true, skip_ahead: true }
        },
    }
}

/// The orchestrator's states.
#[derive(Clone, Copy, PartialEq, Eq, Structural, Debug)]
pub enum SessionState {
    Opening,
    Streaming,
    Draining,
    Finalizing,
    Done,
    Failed,
}

/// One copy operation's bookkeeping: the bounded buffer pool, the two
/// hand-off queues' configured depth, and the fan-out of every produced
/// chunk to the Write and Hash stages, in one order.
pub struct PipelineSession {
    pool_capacity: usize,
    queue_depth: usize,
    in_flight: usize,
    state: SessionState,
    produced_write: Ghost<Seq<Seq<u8>>>,
    produced_hash: Ghost<Seq<Seq<u8>>>,
}

impl PipelineSession {
    /// The fixed number of buffers the pool was created with.
    pub closed spec fn pool_cap(self) -> nat {
        self.pool_capacity as nat
    }

    /// The bound of each hand-off queue.
    pub closed spec fn depth(self) -> nat {
        self.queue_depth as nat
    }

    /// Buffers acquired from the pool and not yet returned.
    pub closed spec fn buffers_in_flight(self) -> nat {
        self.in_flight as nat
    }

    /// The orchestrator's current state.
    pub closed spec fn spec_state(self) -> SessionState {
        self.state
    }

    /// The payloads handed to the Write stage, in delivery order.
    pub closed spec fn write_sequence(self) -> Seq<Seq<u8>> {
        self.produced_write@
    }

    /// The payloads handed to the Hash stage, in delivery order.
    pub closed spec fn hash_sequence(self) -> Seq<Seq<u8>> {
        self.produced_hash@
    }

    /// The pool bound is respected and both consumers see one ordered
    /// sequence of chunks.
    pub closed spec fn wf(self) -> bool {
        &&& self.pool_capacity >= 1
        &&& self.queue_depth >= 1
        &&& self.in_flight <= self.pool_capacity
        &&& self.produced_write@ == self.produced_hash@
    }

    /// Opens a session over a pool of `pool_capacity` buffers and two
    /// hand-off queues bounded at `queue_depth`.
    pub fn new(pool_capacity: usize, queue_depth: usize) -> (r: PipelineSession)
        requires
            pool_capacity >= 1,
            queue_depth >= 1,
        ensures
            r.wf(),
            r.pool_cap() == pool_capacity,
            r.depth() == queue_depth,
            r.buffers_in_flight() == 0,
            r.spec_state() == SessionState::Opening,
            r.write_sequence() == Seq::<Seq<u8>>::empty(),
            r.hash_sequence() == Seq::<Seq<u8>>::empty(),
    {
        PipelineSession {
            pool_capacity,
            queue_depth,
            in_flight: 0,
            state: SessionState::Opening,
            produced_write: Ghost(Seq::empty()),
            produced_hash: Ghost(Seq::empty()),
        }
    }

    /// Both endpoints opened and both consumer stages started.
    pub fn begin_streaming(&mut self)
        requires
            old(self).wf(),
            old(self).spec_state() == SessionState::Opening,
        ensures
            final(self).wf(),
            final(self).spec_state() == SessionState::Streaming,
            final(self).pool_cap() == old(self).pool_cap(),
            final(self).depth() == old(self).depth(),
            final(self).buffers_in_flight() == old(self).buffers_in_flight(),
            final(self).write_sequence() == old(self).write_sequence(),
            final(self).hash_sequence() == old(self).hash_sequence(),
    {
        self.state = SessionState::Streaming;
    }

    /// Whether a buffer may be drawn from the pool now. When it may not, the
    /// Read stage must block: pool exhaustion is the sole throttle on it.
    pub fn can_acquire(&self) -> (r: bool)
        ensures
            r == (self.buffers_in_flight() < self.pool_cap()),
    {
        self.in_flight < self.pool_capacity
    }

    /// Records that the Read stage drew one buffer from the pool.
    pub fn acquire_buffer(&mut self)
        requires
            old(self).wf(),
            old(self).buffers_in_flight() < old(self).pool_cap(),
        ensures
            final(self).wf(),
            final(self).buffers_in_flight() == old(self).buffers_in_flight() + 1,
            final(self).spec_state() == old(self).spec_state(),
            final(self).pool_cap() == old(self).pool_cap(),
            final(self).depth() == old(self).depth(),
            final(self).write_sequence() == old(self).write_sequence(),
            final(self).hash_sequence() == old(self).hash_sequence(),
    {
        self.in_flight = self.in_flight + 1;
    }

    /// Records that a buffer fully drained by both consumers returned to the
    /// pool.
    pub fn release_buffer(&mut self)
        requires
            old(self).wf(),
            old(self).buffers_in_flight() >= 1,
        ensures
            final(self).wf(),
            final(self).buffers_in_flight() == old(self).buffers_in_flight() - 1,
            final(self).spec_state() == old(self).spec_state(),
            final(self).pool_cap() == old(self).pool_cap(),
            final(self).depth() == old(self).depth(),
            final(self).write_sequence() == old(self).write_sequence(),
            final(self).hash_sequence() == old(self).hash_sequence(),
    {
        self.in_flight = self.in_flight - 1;
    }

    /// Records one produced chunk, fanned out to the write queue and the
    /// hash queue in the same delivery order.
    pub fn produce(&mut self, payload: &[u8])
        requires
            old(self).wf(),
            old(self).spec_state() == SessionState::Streaming,
        ensures
            final(self).wf(),
            final(self).write_sequence() == old(self).write_sequence().push(payload@),
            final(self).hash_sequence() == old(self).hash_sequence().push(payload@),
            final(self).spec_state() == old(self).spec_state(),
            final(self).pool_cap() == old(self).pool_cap(),
            final(self).depth() == old(self).depth(),
            final(self).buffers_in_flight() == old(self).buffers_in_flight(),
    {
        let ghost p = payload@;
        proof {
            self.produced_write@ = self.produced_write@.push(p);
            self.produced_hash@ = self.produced_hash@.push(p);
        }
    }

    /// End of stream reached: sentinels pushed to both queues.
    pub fn begin_drain(&mut self)
        requires
            old(self).wf(),
            old(self).spec_state() == SessionState::Streaming,
        ensures
            final(self).wf(),
            final(self).spec_state() == SessionState::Draining,
            final(self).pool_cap() == old(self).pool_cap(),
            final(self).depth() == old(self).depth(),
            final(self).buffers_in_flight() == old(self).buffers_in_flight(),
            final(self).write_sequence() == old(self).write_sequence(),
            final(self).hash_sequence() == old(self).hash_sequence(),
    {
        self.state = SessionState::Draining;
    }

    /// Both consumer stages terminated; the hash record is being collected.
    pub fn begin_finalize(&mut self)
        requires
            old(self).wf(),
            old(self).spec_state() == SessionState::Draining,
        ensures
            final(self).wf(),
            final(self).spec_state() == SessionState::Finalizing,
            final(self).pool_cap() == old(self).pool_cap(),
            final(self).depth() == old(self).depth(),
            final(self).buffers_in_flight() == old(self).buffers_in_flight(),
            final(self).write_sequence() == old(self).write_sequence(),
            final(self).hash_sequence() == old(self).hash_sequence(),
    {
        self.state = SessionState::Finalizing;
    }

    /// Digests collected and destination durably flushed.
    pub fn complete(&mut self)
        requires
            old(self).wf(),
            old(self).spec_state() == SessionState::Finalizing,
        ensures
            final(self).wf(),
            final(self).spec_state() == SessionState::Done,
            final(self).pool_cap() == old(self).pool_cap(),
            final(self).depth() == old(self).depth(),
            final(self).buffers_in_flight() == old(self).buffers_in_flight(),
            final(self).write_sequence() == old(self).write_sequence(),
            final(self).hash_sequence() == old(self).hash_sequence(),
    {
        self.state = SessionState::Done;
    }

    /// A stage reported a fatal error; the session aborts and the partial
    /// destination is left in place.
    pub fn fail(&mut self)
        requires
            old(self).wf(),
            old(self).spec_state() != SessionState::Done,
        ensures
            final(self).wf(),
            final(self).spec_state() == SessionState::Failed,
            final(self).pool_cap() == old(self).pool_cap(),
            final(self).depth() == old(self).depth(),
            final(self).buffers_in_flight() == old(self).buffers_in_flight(),
            final(self).write_sequence() == old(self).write_sequence(),
            final(self).hash_sequence() == old(self).hash_sequence(),
    {
        self.state = SessionState::Failed;
    }

    /// How many buffers are currently out of the pool.
    pub fn buffers_outstanding(&self) -> (r: usize)
        ensures
            r == self.buffers_in_flight(),
    {
        self.in_flight
    }

    /// The orchestrator's current state.
    pub fn current_state(&self) -> (r: SessionState)
        ensures
            r == self.spec_state(),
    {
        self.state
    }
}

/// Order preservation: the Write stage and the Hash stage observe chunks in
/// exactly the production order, so the stream the Write stage persists is
/// byte-identical to the stream the Hash stage digests, and every digest of
/// one equals the digest of the other.
pub proof fn lemma_order_preservation(s: PipelineSession)
    requires
        s.wf(),
    ensures
        concat_chunks(s.write_sequence()) == concat_chunks(s.hash_sequence()),
        forall|a: HashAlgo|
            spec_digest(a, concat_chunks(s.write_sequence())) == spec_digest(
                a,
                concat_chunks(s.hash_sequence()),
            ),
{
}

/// Pool boundedness: a session never has more buffers in flight than the
/// pool's configured capacity.
pub proof fn lemma_pool_bounded(s: PipelineSession)
    requires
        s.wf(),
    ensures
        s.buffers_in_flight() <= s.pool_cap(),
{
}

/// Backpressure: once every pool buffer is in flight, the Read stage cannot
/// acquire another — however far behind the consumers are, the producer's
/// buffer usage never grows past the pool capacity, and its next acquire
/// blocks.
pub proof fn lemma_backpressure(s: PipelineSession)
    requires
        s.wf(),
        s.buffers_in_flight() == s.pool_cap(),
    ensures
        !(s.buffers_in_flight() < s.pool_cap()),
{
}

/// The payloads of a sequence of chunks, in order.
pub open spec fn payloads_of(cs: Seq<Chunk>) -> Seq<Seq<u8>> {
    cs.map_values(|c: Chunk| c.payload())
}

/// Extending the delivered sequence by one chunk appends exactly its payload
/// to the concatenated stream.
pub proof fn lemma_concat_take_step(cs: Seq<Seq<u8>>, i: int)
    requires
        0 <= i < cs.len(),
    ensures
        concat_chunks(cs.take(i + 1)) == concat_chunks(cs.take(i)) + cs[i],
    decreases i,
{
    if i == 0 {
        assert(cs.take(0) =~= Seq::<Seq<u8>>::empty());
        assert(cs.take(1).drop_first() =~= Seq::<Seq<u8>>::empty());
        assert(cs.take(1)[0] == cs[0]);
        assert(cs[0] + Seq::<u8>::empty() =~= Seq::<u8>::empty() + cs[0]);
    } else {
        lemma_concat_take_step(cs.drop_first(), i - 1);
        assert(cs.drop_first().take(i) =~= cs.take(i + 1).drop_first());
        assert(cs.drop_first().take(i - 1) =~= cs.take(i).drop_first());
        assert(cs.take(i + 1)[0] == cs[0]);
        assert(cs.take(i)[0] == cs[0]);
        assert(cs.drop_first()[i - 1] == cs[i]);
        assert((cs[0] + concat_chunks(cs.drop_first().take(i - 1))) + cs[i] =~= cs[0] + (
        concat_chunks(cs.drop_first().take(i - 1)) + cs[i]));
    }
}

/// The Hash stage's loop: feeds every chunk's payload, in delivery order,
/// into the digest engine, which afterwards has absorbed exactly the
/// concatenation of those payloads — no byte skipped, duplicated or
/// reordered.
pub fn hash_chunks(hasher: &mut ForensicHasher, chunks: &Vec<Chunk>)
    requires
        old(hasher).wf(),
        forall|i: int| 0 <= i < chunks@.len() ==> chunks@[i].wf(),
    ensures
        final(hasher).wf(),
        final(hasher).fed() == old(hasher).fed() + concat_chunks(payloads_of(chunks@)),
        final(hasher).algorithm() == old(hasher).algorithm(),
        final(hasher).filename() == old(hasher).filename(),
        final(hasher).timestamp() == old(hasher).timestamp(),
{
    let ghost ps = payloads_of(chunks@);
    let n = chunks.len();
    let mut i: usize = 0;
    proof {
        assert(ps.take(0) =~= Seq::<Seq<u8>>::empty());
        assert(old(hasher).fed() + concat_chunks(ps.take(0)) =~= old(hasher).fed());
    }
    while i < n
        invariant
            0 <= i <= n,
            n == chunks@.len(),
            ps == payloads_of(chunks@),
            forall|j: int| 0 <= j < chunks@.len() ==> chunks@[j].wf(),
            hasher.wf(),
            hasher.fed() == old(hasher).fed() + concat_chunks(ps.take(i as int)),
            hasher.algorithm() == old(hasher).algorithm(),
            hasher.filename() == old(hasher).filename(),
            hasher.timestamp() == old(hasher).timestamp(),
        decreases n - i,
    {
        let c = &chunks[i];
        hasher.update(c.bytes());
        proof {
            lemma_concat_take_step(ps, i as int);
            assert(ps[i as int] == chunks@[i as int].payload());
            assert((old(hasher).fed() + concat_chunks(ps.take(i as int))) + ps[i as int] =~= old(
                hasher,
            ).fed() + concat_chunks(ps.take(i as int + 1)));
        }
        i = i + 1;
    }
    proof {
        assert(ps.take(n as int) =~= ps);
    }
}

/// The Write stage's work between I/O calls: appends every chunk's payload,
/// in delivery order, to the destination image. The destination grows by
/// exactly the concatenation of the payloads — strictly sequential, no
/// seeking, no byte skipped, duplicated or reordered.
pub fn write_chunks(destination: &mut Vec<u8>, chunks: &Vec<Chunk>)
    requires
        forall|i: int| 0 <= i < chunks@.len() ==> chunks@[i].wf(),
    ensures
        final(destination)@ == old(destination)@ + concat_chunks(payloads_of(chunks@)),
{
    let ghost ps = payloads_of(chunks@);
    let n = chunks.len();
    let mut i: usize = 0;
    proof {
        assert(ps.take(0) =~= Seq::<Seq<u8>>::empty());
        assert(old(destination)@ + concat_chunks(ps.take(0)) =~= old(destination)@);
    }
    while i < n
        invariant
            0 <= i <= n,
            n == chunks@.len(),
            ps == payloads_of(chunks@),
            forall|k: int| 0 <= k < chunks@.len() ==> chunks@[k].wf(),
            destination@ == old(destination)@ + concat_chunks(ps.take(i as int)),
        decreases n - i,
    {
        let c = &chunks[i];
        let bytes = c.bytes();
        let m = bytes.len();
        let mut j: usize = 0;
        proof {
            assert(bytes@.take(0) =~= Seq::<u8>::empty());
            assert(destination@ + bytes@.take(0) =~= destination@);
        }
        while j < m
            invariant
                0 <= j <= m,
                m == bytes@.len(),
                i < n,
                n == chunks@.len(),
                ps == payloads_of(chunks@),
                bytes@ == chunks@[i as int].payload(),
                destination@ == old(destination)@ + concat_chunks(ps.take(i as int))
                    + bytes@.take(j as int),
            decreases m - j,
        {
            destination.push(bytes[j]);
            proof {
                assert(bytes@.take(j as int).push(bytes@[j as int]) =~= bytes@.take(
                    j as int + 1,
                ));
                assert((old(destination)@ + concat_chunks(ps.take(i as int)) + bytes@.take(
                    j as int,
                )).push(bytes@[j as int]) =~= old(destination)@ + concat_chunks(ps.take(i as int))
                    + bytes@.take(j as int + 1));
            }
            j = j + 1;
        }
        proof {
            assert(bytes@.take(m as int) =~= bytes@);
            lemma_concat_take_step(ps, i as int);
            assert(ps[i as int] == chunks@[i as int].payload());
            assert(old(destination)@ + concat_chunks(ps.take(i as int)) + ps[i as int] =~= old(
                destination,
            )@ + concat_chunks(ps.take(i as int + 1)));
        }
        i = i + 1;
    }
    proof {
        assert(ps.take(n as int) =~= ps);
    }
}

/// Order preservation, end to end: an engine that has absorbed exactly the
/// chunks the session delivered to the Hash stage reports the standard
/// digest of precisely the byte stream the Write stage persists.
pub proof fn lemma_write_stream_matches_digest(s: PipelineSession, h: ForensicHasher)
    requires
        s.wf(),
        h.fed() == concat_chunks(s.hash_sequence()),
    ensures
        h.standard_hex() == hex_of(spec_digest(h.algorithm(), concat_chunks(s.write_sequence()))),
{
}

/// Lengths: chunk-for-chunk equal payload lengths give equal total lengths.
pub proof fn lemma_concat_len_eq(cs1: Seq<Seq<u8>>, cs2: Seq<Seq<u8>>)
    requires
        cs1.len() == cs2.len(),
        forall|i: int| 0 <= i < cs1.len() ==> cs1[i].len() == cs2[i].len(),
    ensures
        concat_chunks(cs1).len() == concat_chunks(cs2).len(),
    decreases cs1.len(),
{
    if cs1.len() > 0 {
        assert forall|i: int| 0 <= i < cs1.drop_first().len() implies cs1.drop_first()[i].len()
            == cs2.drop_first()[i].len() by {
            assert(cs1.drop_first()[i] == cs1[i + 1]);
            assert(cs2.drop_first()[i] == cs2[i + 1]);
        }
        lemma_concat_len_eq(cs1.drop_first(), cs2.drop_first());
    }
}

/// Where chunk `k` lands in the concatenated stream: byte `d` of chunk `k`
/// is byte `offset + d` of the whole, where `offset` is the total length of
/// the chunks before `k`.
pub proof fn lemma_concat_index(cs: Seq<Seq<u8>>, k: int, d: int)
    requires
        0 <= k < cs.len(),
        0 <= d < cs[k].len(),
    ensures
        concat_chunks(cs.take(k)).len() + d < concat_chunks(cs).len(),
        concat_chunks(cs)[concat_chunks(cs.take(k)).len() + d] == cs[k][d],
    decreases k,
{
    if k == 0 {
        assert(cs.take(0) =~= Seq::<Seq<u8>>::empty());
        assert(concat_chunks(cs) == cs[0] + concat_chunks(cs.drop_first()));
        assert((cs[0] + concat_chunks(cs.drop_first()))[d] == cs[0][d]);
    } else {
        lemma_concat_index(cs.drop_first(), k - 1, d);
        assert(cs.drop_first().take(k - 1) =~= cs.take(k).drop_first());
        assert(concat_chunks(cs.take(k)) == cs.take(k)[0] + concat_chunks(
            cs.take(k).drop_first(),
        ));
        assert(cs.take(k)[0] == cs[0]);
        let off = concat_chunks(cs.drop_first().take(k - 1)).len();
        assert(concat_chunks(cs.take(k)).len() == cs[0].len() + off);
        assert(cs.drop_first()[k - 1] == cs[k]);
        assert(concat_chunks(cs) == cs[0] + concat_chunks(cs.drop_first()));
        assert((cs[0] + concat_chunks(cs.drop_first()))[cs[0].len() + off + d] == concat_chunks(
            cs.drop_first(),
        )[off + d]);
    }
}

/// Alignment preservation under read failure: against a fault-free run that
/// delivered `good`, a run `faulty` that differs only in chunk `k` — which
/// the recovery policy replaced by a zero block of the same length — yields
/// an output of the same total length, whose bytes at chunk `k`'s offset are
/// all zero. The offset itself is unchanged, because the chunks before `k`
/// are unchanged.
pub proof fn lemma_alignment_preserved(good: Seq<Seq<u8>>, faulty: Seq<Seq<u8>>, k: int)
    requires
        good.len() == faulty.len(),
        0 <= k < good.len(),
        forall|i: int| 0 <= i < good.len() && i != k ==> faulty[i] == good[i],
        faulty[k] == zero_block(good[k].len()),
    ensures
        concat_chunks(faulty).len() == concat_chunks(good).len(),
        concat_chunks(faulty.take(k)).len() == concat_chunks(good.take(k)).len(),
        forall|j: int|
            concat_chunks(faulty.take(k)).len() <= j < concat_chunks(faulty.take(k)).len()
                + good[k].len() ==> concat_chunks(faulty)[j] == 0u8,
{
    assert forall|i: int| 0 <= i < good.len() implies faulty[i].len() == good[i].len() by {
        if i == k {
            assert(faulty[k] == zero_block(good[k].len()));
        }
    }
    lemma_concat_len_eq(faulty, good);
    assert(faulty.take(k) =~= good.take(k));
    let off = concat_chunks(faulty.take(k)).len();
    assert forall|j: int| off <= j < off + good[k].len() implies concat_chunks(faulty)[j]
        == 0u8 by {
        let d = j - off;
        lemma_concat_index(faulty, k, d);
        assert(faulty[k][d] == 0u8);
    }
}

} // verus!
