//! Fixed-capacity circular store that hands out fixed-length chunks, each one
//! starting with the tail of the chunk before it.

use crate::arith::{lemma_div_mod_unique, lemma_mod_back, lemma_mod_succ, lemma_mod_window_distinct};
use vstd::prelude::*;

verus! {

/// Why a buffer could not be built from the requested durations.
#[derive(Debug, Clone, Copy, PartialEq, Eq, Structural)]
pub enum BufferError {
    /// The overlap covers at least as many samples as the chunk.
    OverlapNotShorterThanChunk,
    /// One chunk would not fit into the buffer.
    ChunkLongerThanBuffer,
    /// The capacity cannot be addressed on this machine.
    BufferTooLarge,
}

/// Number of whole samples that `millis` milliseconds hold at `rate` samples per second.
pub open spec fn samples_in_millis(rate: nat, millis: nat) -> nat {
    rate * millis / 1000
}

/// The verdict on a requested geometry: `None` when a buffer can be built.
pub open spec fn geometry_error(rate: nat, chunk_ms: nat, overlap_ms: nat, seconds: nat) -> Option<
    BufferError,
> {
    if samples_in_millis(rate, overlap_ms) >= samples_in_millis(rate, chunk_ms) {
        Some(BufferError::OverlapNotShorterThanChunk)
    } else if samples_in_millis(rate, chunk_ms) > rate * seconds {
        Some(BufferError::ChunkLongerThanBuffer)
    } else if rate * seconds > usize::MAX {
        Some(BufferError::BufferTooLarge)
    } else {
        None
    }
}

/// Mathematical model of the buffer: the whole stream written so far, and the
/// bookkeeping that decides when a chunk is due.
pub struct RingModel<T> {
    /// Every sample ever written, oldest first. Its length is the write cursor.
    pub written: Seq<T>,
    /// Samples written since the last extraction.
    pub pending: nat,
    /// Samples the physical store holds.
    pub capacity: nat,
    /// Samples per extracted chunk.
    pub chunk_size: nat,
    /// Samples a chunk shares with the one before it.
    pub overlap_size: nat,
    /// What a slot holds before anything is written to it.
    pub fill: T,
}

impl<T> RingModel<T> {
    /// A model with nothing written.
    pub open spec fn fresh(capacity: nat, chunk_size: nat, overlap_size: nat, fill: T) -> Self {
        RingModel { written: Seq::empty(), pending: 0, capacity, chunk_size, overlap_size, fill }
    }

    /// The sizes are consistent and the bookkeeping never counts more than was written.
    pub open spec fn wf(self) -> bool {
        &&& self.overlap_size < self.chunk_size
        &&& self.chunk_size <= self.capacity
        &&& self.pending <= self.written.len()
    }

    /// Logical write position: the number of samples written so far.
    pub open spec fn cursor(self) -> nat {
        self.written.len()
    }

    /// Whether a chunk is due.
    pub open spec fn has_chunk(self) -> bool {
        &&& self.pending >= self.chunk_size - self.overlap_size
        &&& self.cursor() >= self.chunk_size
    }

    /// The `chunk_size` most recent samples, oldest first.
    pub open spec fn latest_chunk(self) -> Seq<T>
        recommends
            self.cursor() >= self.chunk_size,
    {
        self.written.subrange(self.cursor() - self.chunk_size, self.cursor() as int)
    }

    /// The model after `samples` were appended.
    pub open spec fn write(self, samples: Seq<T>) -> Self {
        RingModel {
            written: self.written + samples,
            pending: self.pending + samples.len(),
            ..self
        }
    }

    /// The model after a chunk was taken: only the pending count changes.
    pub open spec fn extract(self) -> Self {
        RingModel { pending: 0, ..self }
    }

    /// Stream position of the sample that physical slot `slot` currently holds,
    /// for a slot that has been written at least once.
    pub open spec fn position_in_slot(self, slot: int) -> int
        recommends
            0 <= slot < self.capacity,
            slot < self.cursor(),
    {
        slot + self.capacity * ((self.cursor() - 1 - slot) / (self.capacity as int))
    }

    /// Content of physical slot `slot`: sample `p` of the stream lives in slot
    /// `p mod capacity` until a later sample overwrites it.
    pub open spec fn slot(self, slot: int) -> T
        recommends
            0 <= slot < self.capacity,
    {
        if slot < self.cursor() {
            self.written[self.position_in_slot(slot)]
        } else {
            self.fill
        }
    }
}

/// A count as a machine word holds it: exact while it fits, pinned at the top after that.
pub open spec fn saturated(n: nat) -> usize {
    if n <= usize::MAX {
        n as usize
    } else {
        usize::MAX
    }
}

/// The physical state behind [`AudioRingBuffer`].
struct RingStore<T> {
    data: Vec<T>,
    head: usize,
    written: usize,
    pending: usize,
    chunk_size: usize,
    overlap_size: usize,
    fill: T,
    stream: Ghost<Seq<T>>,
    pending_exact: Ghost<nat>,
}

impl<T> RingStore<T> {
    spec fn model(&self) -> RingModel<T> {
        RingModel {
            written: self.stream@,
            pending: self.pending_exact@,
            capacity: self.data.len() as nat,
            chunk_size: self.chunk_size as nat,
            overlap_size: self.overlap_size as nat,
            fill: self.fill,
        }
    }

    spec fn wf(&self) -> bool {
        let n = self.stream@.len() as int;
        let cap = self.data.len() as int;
        &&& self.model().wf()
        &&& self.head == n % cap
        &&& self.written == saturated(self.stream@.len())
        &&& self.pending == saturated(self.pending_exact@)
        &&& forall|p: int|
            0 <= p < n && n - p <= cap ==> self.data@[p % cap] == #[trigger] self.stream@[p]
        &&& forall|i: int| n <= i < cap ==> #[trigger] self.data@[i] == self.fill
    }
}

impl<T: Copy> RingStore<T> {
    fn put(&mut self, sample: T)
        requires
            old(self).wf(),
        ensures
            final(self).wf(),
            final(self).model() == old(self).model().write(seq![sample]),
        no_unwind
    {
        let cap: usize = self.data.len();
        let ghost n = self.stream@.len() as int;
        let ghost before = self.data@;
        proof {
            lemma_mod_succ(n, cap as int);
            if n < cap {
                lemma_div_mod_unique(n, cap as int, 0, n);
            }
        }
        self.data[self.head] = sample;
        self.head = if self.head + 1 == cap {
            0
        } else {
            self.head + 1
        };
        if self.written < usize::MAX {
            self.written = self.written + 1;
        }
        if self.pending < usize::MAX {
            self.pending = self.pending + 1;
        }
        proof {
            self.stream@ = self.stream@.push(sample);
            self.pending_exact@ = self.pending_exact@ + 1;
            assert(self.stream@ =~= old(self).stream@ + seq![sample]);
            assert forall|p: int| 0 <= p < n + 1 && n + 1 - p <= cap implies self.data@[p % (
                cap as int)] == #[trigger] self.stream@[p] by {
                if p < n {
                    lemma_mod_window_distinct(p, n, cap as int);
                    assert(self.data@[p % (cap as int)] == before[p % (cap as int)]);
                    assert(before[p % (cap as int)] == old(self).stream@[p]);
                }
            }
        }
    }

    fn reset_pending(&mut self)
        requires
            old(self).wf(),
        ensures
            final(self).wf(),
            final(self).model() == old(self).model().extract(),
        no_unwind
    {
        self.pending = 0;
        proof {
            self.pending_exact@ = 0;
        }
    }

    fn latest(&self) -> (chunk: Vec<T>)
        requires
            self.wf(),
            self.model().cursor() >= self.model().chunk_size,
        ensures
            chunk@ == self.model().latest_chunk(),
    {
        let cap: usize = self.data.len();
        let ghost n = self.stream@.len() as int;
        let ghost first = n - self.chunk_size;
        let mut idx: usize = if self.head >= self.chunk_size {
            self.head - self.chunk_size
        } else {
            cap - (self.chunk_size - self.head)
        };
        proof {
            lemma_mod_back(n, self.chunk_size as int, cap as int);
        }
        let mut chunk: Vec<T> = Vec::with_capacity(self.chunk_size);
        let mut k: usize = 0;
        while k < self.chunk_size
            invariant
                self.wf(),
                cap == self.data.len(),
                n == self.stream@.len(),
                first == n - self.chunk_size,
                first >= 0,
                k <= self.chunk_size,
                idx == (first + k) % (cap as int),
                chunk@ == self.stream@.subrange(first, first + k),
            decreases self.chunk_size - k,
        {
            proof {
                lemma_mod_succ(first + k, cap as int);
                vstd::arithmetic::div_mod::lemma_mod_bound(first + k, cap as int);
                assert(self.data@[(first + k) % (cap as int)] == self.stream@[first + k]);
            }
            chunk.push(self.data[idx]);
            idx = if idx + 1 == cap {
                0
            } else {
                idx + 1
            };
            k = k + 1;
            assert(chunk@ =~= self.stream@.subrange(first, first + k));
        }
        chunk
    }
}

/// Accumulates a mono stream and hands it out in overlapping chunks.
///
/// Samples are written at the cursor and kept until a later lap of the cursor
/// overwrites them. A chunk is the `chunk_size` most recent samples; taking one
/// does not move the cursor, so the next chunk begins with the last
/// `overlap_size` samples of this one when it is taken as soon as it is due.
pub struct AudioRingBuffer<T> {
    store: RingStore<T>,
}

impl<T> AudioRingBuffer<T> {
    #[verifier::type_invariant]
    spec fn inv(self) -> bool {
        self.store.wf()
    }
}

impl<T> View for AudioRingBuffer<T> {
    type V = RingModel<T>;

    closed spec fn view(&self) -> RingModel<T> {
        self.store.model()
    }
}

impl<T: Copy> AudioRingBuffer<T> {
    /// Builds an empty buffer for `sample_rate` samples per second that holds
    /// `buffer_duration_s` seconds and yields chunks of `chunk_duration_ms`
    /// milliseconds overlapping by `overlap_ms` milliseconds. Every slot starts
    /// out as `fill`.
    pub fn new(
        sample_rate: u32,
        chunk_duration_ms: u32,
        overlap_ms: u32,
        buffer_duration_s: u32,
        fill: T,
    ) -> (built: Result<Self, BufferError>)
        ensures
            match built {
                Ok(buffer) => {
                    &&& geometry_error(
                        sample_rate as nat,
                        chunk_duration_ms as nat,
                        overlap_ms as nat,
                        buffer_duration_s as nat,
                    ) is None
                    &&& buffer@ == RingModel::fresh(
                        sample_rate as nat * buffer_duration_s as nat,
                        samples_in_millis(sample_rate as nat, chunk_duration_ms as nat),
                        samples_in_millis(sample_rate as nat, overlap_ms as nat),
                        fill,
                    )
                    &&& buffer@.wf()
                },
                Err(error) => geometry_error(
                    sample_rate as nat,
                    chunk_duration_ms as nat,
                    overlap_ms as nat,
                    buffer_duration_s as nat,
                ) == Some(error),
            },
    {
        let rate: u64 = sample_rate as u64;
        assert(rate * (chunk_duration_ms as u64) <= u64::MAX && rate * (overlap_ms as u64)
            <= u64::MAX && rate * (buffer_duration_s as u64) <= u64::MAX) by (nonlinear_arith)
            requires
                rate <= u32::MAX,
                chunk_duration_ms <= u32::MAX,
                overlap_ms <= u32::MAX,
                buffer_duration_s <= u32::MAX,
        ;
        let chunk: u64 = rate * (chunk_duration_ms as u64) / 1000;
        let overlap: u64 = rate * (overlap_ms as u64) / 1000;
        let capacity: u64 = rate * (buffer_duration_s as u64);
        if overlap >= chunk {
            return Err(BufferError::OverlapNotShorterThanChunk);
        }
        if chunk > capacity {
            return Err(BufferError::ChunkLongerThanBuffer);
        }
        if capacity > usize::MAX as u64 {
            return Err(BufferError::BufferTooLarge);
        }
        let slots: usize = capacity as usize;
        let mut data: Vec<T> = Vec::with_capacity(slots);
        while data.len() < slots
            invariant
                data.len() <= slots,
                forall|i: int| 0 <= i < data.len() ==> #[trigger] data@[i] == fill,
            decreases slots - data.len(),
        {
            data.push(fill);
        }
        proof {
            lemma_div_mod_unique(0, capacity as int, 0, 0);
        }
        Ok(
            AudioRingBuffer {
                store: RingStore {
                    data,
                    head: 0,
                    written: 0,
                    pending: 0,
                    chunk_size: chunk as usize,
                    overlap_size: overlap as usize,
                    fill,
                    stream: Ghost(Seq::empty()),
                    pending_exact: Ghost(0),
                },
            },
        )
    }

    /// Appends `samples` at the cursor, oldest data giving way once the store is full.
    pub fn write(&mut self, samples: &[T])
        ensures
            final(self)@ == old(self)@.write(samples@),
            final(self)@.wf(),
    {
        proof {
            use_type_invariant(&*self);
        }
        let mut i: usize = 0;
        assert(old(self)@.write(samples@.take(0)) == old(self)@) by {
            assert(old(self)@.written + samples@.take(0) =~= old(self)@.written);
        }
        while i < samples.len()
            invariant
                i <= samples.len(),
                self.store.wf(),
                self@ == old(self)@.write(samples@.take(i as int)),
            decreases samples.len() - i,
        {
            let ghost mid = self@;
            let sample: T = samples[i];
            self.store.put(sample);
            proof {
                assert(samples@.take(i as int + 1) =~= samples@.take(i as int).push(sample));
                assert(mid.written + seq![sample] =~= old(self)@.written + samples@.take(
                    i as int + 1,
                ));
            }
            i = i + 1;
        }
        assert(samples@.take(samples.len() as int) =~= samples@);
    }

    /// Whether enough has been written, in total and since the last chunk, for a chunk to be due.
    pub fn has_chunk(&self) -> (due: bool)
        ensures
            due == self@.has_chunk(),
            self@.wf(),
    {
        proof {
            use_type_invariant(self);
        }
        self.store.pending >= self.store.chunk_size - self.store.overlap_size && self.store.written
            >= self.store.chunk_size
    }

    /// Takes the latest chunk if one is due. The cursor and the stored samples stay as they are.
    pub fn extract_chunk(&mut self) -> (taken: Option<Vec<T>>)
        ensures
            match taken {
                Some(chunk) => {
                    &&& old(self)@.has_chunk()
                    &&& chunk@ == old(self)@.latest_chunk()
                    &&& final(self)@ == old(self)@.extract()
                },
                None => !old(self)@.has_chunk() && final(self)@ == old(self)@,
            },
            final(self)@.wf(),
    {
        proof {
            use_type_invariant(&*self);
        }
        if !self.has_chunk() {
            return None;
        }
        let chunk = self.store.latest();
        self.store.reset_pending();
        Some(chunk)
    }

    /// Number of samples the store holds.
    pub fn capacity(&self) -> (n: usize)
        ensures
            n == self@.capacity,
    {
        self.store.data.len()
    }

    /// Number of samples in every extracted chunk.
    pub fn chunk_size(&self) -> (n: usize)
        ensures
            n == self@.chunk_size,
    {
        self.store.chunk_size
    }

    /// Number of samples a chunk shares with the one before it.
    pub fn overlap_size(&self) -> (n: usize)
        ensures
            n == self@.overlap_size,
    {
        self.store.overlap_size
    }

    /// The write cursor: how many samples have been written in total.
    pub fn write_pos(&self) -> (n: usize)
        ensures
            n == saturated(self@.cursor()),
    {
        proof {
            use_type_invariant(self);
        }
        self.store.written
    }

    /// How many samples have been written since the last chunk was taken.
    pub fn samples_since_last(&self) -> (n: usize)
        ensures
            n == saturated(self@.pending),
    {
        proof {
            use_type_invariant(self);
        }
        self.store.pending
    }

    /// What physical slot `index` holds right now, or `None` past the capacity.
    pub fn slot(&self, index: usize) -> (held: Option<T>)
        ensures
            held == if index < self@.capacity {
                Some(self@.slot(index as int))
            } else {
                None
            },
    {
        proof {
            use_type_invariant(self);
        }
        if index >= self.store.data.len() {
            return None;
        }
        proof {
            let n = self.store.stream@.len() as int;
            let cap = self.store.data.len() as int;
            if index < n {
                let q = (n - 1 - index) / cap;
                let r = (n - 1 - index) % cap;
                let p = self@.position_in_slot(index as int);
                vstd::arithmetic::div_mod::lemma_fundamental_div_mod(n - 1 - index, cap);
                vstd::arithmetic::div_mod::lemma_mod_bound(n - 1 - index, cap);
                vstd::arithmetic::div_mod::lemma_div_pos_is_pos(n - 1 - index, cap);
                assert(p == q * cap + index) by (nonlinear_arith)
                    requires
                        p == index + cap * q,
                ;
                lemma_div_mod_unique(p, cap, q, index as int);
                assert(self.store.data@[p % cap] == self.store.stream@[p]);
            }
        }
        Some(self.store.data[index])
    }
}

/// The model after each batch of `batches` was written in turn.
pub open spec fn write_all<T>(model: RingModel<T>, batches: Seq<Seq<T>>) -> RingModel<T>
    decreases batches.len(),
{
    if batches.len() == 0 {
        model
    } else {
        write_all(model, batches.drop_last()).write(batches.last())
    }
}

/// Number of samples in all of `batches` together.
pub open spec fn total_len<T>(batches: Seq<Seq<T>>) -> nat
    decreases batches.len(),
{
    if batches.len() == 0 {
        0
    } else {
        total_len(batches.drop_last()) + batches.last().len()
    }
}

/// Whatever is written and however it is split into batches, a chunk is due
/// exactly when the samples written since the last extraction number at least
/// `chunk_size - overlap_size` and the samples written in total number at least
/// `chunk_size`. Writing only ever adds to both counts.
pub proof fn lemma_chunk_due_after_writes<T>(model: RingModel<T>, batches: Seq<Seq<T>>)
    ensures
        write_all(model, batches).pending == model.pending + total_len(batches),
        write_all(model, batches).cursor() == model.cursor() + total_len(batches),
        write_all(model, batches).chunk_size == model.chunk_size,
        write_all(model, batches).overlap_size == model.overlap_size,
        write_all(model, batches).capacity == model.capacity,
        write_all(model, batches).has_chunk() <==> (model.pending + total_len(batches)
            >= model.chunk_size - model.overlap_size && model.cursor() + total_len(batches)
            >= model.chunk_size),
    decreases batches.len(),
{
    if batches.len() > 0 {
        lemma_chunk_due_after_writes(model, batches.drop_last());
    }
}

/// Taking a chunk leaves the cursor and everything written where they were,
/// and no second chunk is due until more is written.
pub proof fn lemma_extract_keeps_cursor<T>(model: RingModel<T>)
    ensures
        model.extract().cursor() == model.cursor(),
        model.extract().written == model.written,
        model.wf() ==> !model.extract().has_chunk(),
{
}

/// Two chunks taken one after the other, with `between` written in between,
/// overlap by `chunk_size - between.len()` samples: the later chunk begins with
/// the samples that ended the earlier one and goes on with `between`. When the
/// later chunk is taken as soon as it is due, `between` holds
/// `chunk_size - overlap_size` samples and the chunks share exactly
/// `overlap_size` samples.
pub proof fn lemma_consecutive_chunks_overlap<T>(model: RingModel<T>, between: Seq<T>)
    requires
        model.wf(),
        model.has_chunk(),
        model.chunk_size - model.overlap_size <= between.len() <= model.chunk_size,
    ensures
        ({
            let later = model.extract().write(between);
            let shared = model.chunk_size - between.len();
            &&& later.has_chunk()
            &&& 0 <= shared <= model.overlap_size
            &&& between.len() == model.chunk_size - model.overlap_size ==> shared
                == model.overlap_size
            &&& later.latest_chunk().subrange(0, shared) == model.latest_chunk().subrange(
                between.len() as int,
                model.chunk_size as int,
            )
            &&& later.latest_chunk().subrange(shared, model.chunk_size as int) == between
        }),
{
    let later = model.extract().write(between);
    let shared = model.chunk_size - between.len();
    assert(later.latest_chunk().subrange(0, shared) =~= model.latest_chunk().subrange(
        between.len() as int,
        model.chunk_size as int,
    ));
    assert(later.latest_chunk().subrange(shared, model.chunk_size as int) =~= between);
}

/// Writing one value as many times as the store has slots makes a chunk due,
/// and that chunk holds nothing but the value.
pub proof fn lemma_full_lap_of_one_value<T>(model: RingModel<T>, value: T)
    requires
        model.wf(),
    ensures
        ({
            let after = model.write(Seq::new(model.capacity, |i: int| value));
            &&& after.has_chunk()
            &&& after.latest_chunk() == Seq::new(model.chunk_size, |i: int| value)
        }),
{
    let after = model.write(Seq::new(model.capacity, |i: int| value));
    assert(after.latest_chunk() =~= Seq::new(model.chunk_size, |i: int| value));
}


} // verus!
