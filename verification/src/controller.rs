//! The allocation controller: it claims a requested number of bytes chunk
//! by chunk, fills every chunk with zeros, keeps the chunks until they are
//! released, and releases them in the order they were claimed.

use vstd::prelude::*;
use crate::chunks::{
    chunk_count, chunk_plan, chunk_size_after, held_after, lemma_chunk_count, lemma_held_step,
    lemma_plan_prefix_total, next_chunk_size, planned_chunk, total, CHUNK_CAP,
};

verus! {

/// How long the memory is held before it is given back, in seconds.
pub const HOLD_SECONDS: u64 = 10;

/// A block of `size` bytes, each of them zero.
pub open spec fn zeros(size: nat) -> Seq<u8> {
    Seq::new(size, |i: int| 0u8)
}

/// The lengths of a sequence of chunks, in order.
pub open spec fn sizes_of(chunks: Seq<Seq<u8>>) -> Seq<nat> {
    Seq::new(chunks.len(), |i: int| chunks[i].len())
}

/// The memory provider would not hand out a chunk of `chunk_size` bytes.
#[derive(Clone, Copy, Debug, PartialEq, Eq)]
pub struct AllocationFailure {
    pub chunk_size: usize,
}

impl AllocationFailure {
    /// The text shown to the user for this error.
    pub fn message(&self) -> (text: &'static str)
        ensures
            text@ == "Failed to allocate memory"@,
    {
        "Failed to allocate memory"
    }
}

/// One claimed block of memory. Its size is the length of the block; the
/// block is given back when the record is dropped.
pub struct AllocationRecord {
    bytes: Vec<u8>,
}

impl View for AllocationRecord {
    type V = Seq<u8>;

    closed spec fn view(&self) -> Seq<u8> {
        self.bytes@
    }
}

impl AllocationRecord {
    /// Claims a block of `size` bytes and writes a zero to each of them.
    /// `None` when the memory provider refuses; nothing is claimed then.
    ///
    /// A block of no bytes asks nothing of the memory provider and is always
    /// had. For any other size the provider decides, and what follows its
    /// answer is [`AllocationRecord::from_reservation`].
    pub fn zeroed(size: usize) -> (record: Option<AllocationRecord>)
        ensures
            record is Some ==> record.unwrap()@ == zeros(size as nat),
            size == 0 ==> record is Some,
    {
        let mut bytes: Vec<u8> = Vec::new();
        if size == 0 {
            return AllocationRecord::from_reservation(bytes, true, size);
        }
        let granted: bool = match bytes.try_reserve(size) {
            Ok(_) => true,
            Err(_) => false,
        };
        AllocationRecord::from_reservation(bytes, granted, size)
    }

    /// Makes the record of a block out of the memory provider's answer.
    ///
    /// `buffer` is the buffer that room for `size` bytes was asked for. When
    /// the room was granted, whatever the buffer held is dropped, it is
    /// filled with `size` zeros, and it becomes the record. When it was
    /// refused there is no record.
    pub fn from_reservation(buffer: Vec<u8>, granted: bool, size: usize) -> (record: Option<AllocationRecord>)
        ensures
            granted ==> record is Some && record.unwrap()@ == zeros(size as nat),
            !granted ==> record is None,
    {
        if !granted {
            return None;
        }
        let mut bytes = buffer;
        bytes.clear();
        bytes.resize(size, 0u8);
        assert(bytes@ =~= zeros(size as nat));
        Some(AllocationRecord { bytes })
    }

    /// The size of the block in bytes.
    pub fn size(&self) -> (size: usize)
        ensures
            size == self@.len(),
    {
        self.bytes.len()
    }

    /// The byte at `index` of the block.
    pub fn byte(&self, index: usize) -> (value: u8)
        requires
            index < self@.len(),
        ensures
            value == self@[index as int],
    {
        self.bytes[index]
    }
}

/// The state of an allocation run: what was asked for, what is held, and
/// the records of the chunks held, oldest first.
pub struct Controller {
    requested: usize,
    allocated: usize,
    records: Vec<AllocationRecord>,
}

/// A controller as contracts see it.
pub struct ControllerView {
    /// The bytes asked for.
    pub requested: nat,
    /// The bytes held so far.
    pub allocated: nat,
    /// The contents of the chunks held, oldest first.
    pub chunks: Seq<Seq<u8>>,
}

impl ControllerView {
    /// The chunks held are the first chunks of the plan for the request,
    /// each of them all zeros, and the counter is their total size.
    pub open spec fn wf(self) -> bool {
        &&& self.chunks.len() <= chunk_count(self.requested)
        &&& forall|i: int|
            0 <= i < self.chunks.len() ==> #[trigger] self.chunks[i] == zeros(
                planned_chunk(self.requested, i as nat),
            )
        &&& self.allocated == held_after(self.requested, self.chunks.len())
    }

    /// Everything asked for is held.
    pub open spec fn is_complete(self) -> bool {
        self.allocated >= self.requested
    }

    /// The sizes of the chunks held, oldest first.
    pub open spec fn sizes(self) -> Seq<nat> {
        sizes_of(self.chunks)
    }
}

impl View for Controller {
    type V = ControllerView;

    closed spec fn view(&self) -> ControllerView {
        ControllerView {
            requested: self.requested as nat,
            allocated: self.allocated as nat,
            chunks: Seq::new(self.records@.len(), |i: int| self.records@[i]@),
        }
    }
}

impl Controller {
    /// See [`ControllerView::wf`].
    pub open spec fn wf(&self) -> bool {
        self@.wf()
    }

    /// A controller for `requested` bytes that holds nothing yet.
    pub fn new(requested: usize) -> (controller: Controller)
        ensures
            controller.wf(),
            controller@ == (ControllerView {
                requested: requested as nat,
                allocated: 0,
                chunks: Seq::empty(),
            }),
    {
        let controller = Controller { requested, allocated: 0, records: Vec::new() };
        assert(controller@.chunks =~= Seq::empty());
        assert(0 * (CHUNK_CAP as nat) == 0);
        controller
    }

    /// The bytes asked for.
    pub fn requested(&self) -> (bytes: usize)
        ensures
            bytes == self@.requested,
    {
        self.requested
    }

    /// The bytes held so far.
    pub fn allocated(&self) -> (bytes: usize)
        ensures
            bytes == self@.allocated,
    {
        self.allocated
    }

    /// The number of chunks held.
    pub fn chunks_held(&self) -> (count: usize)
        ensures
            count == self@.chunks.len(),
    {
        self.records.len()
    }

    /// The size of the chunk at `index`, counting from the oldest.
    pub fn chunk_size(&self, index: usize) -> (size: usize)
        requires
            index < self@.chunks.len(),
        ensures
            size == self@.chunks[index as int].len(),
    {
        self.records[index].size()
    }

    /// The chunk at `index`, counting from the oldest.
    pub fn record(&self, index: usize) -> (record: &AllocationRecord)
        requires
            index < self@.chunks.len(),
        ensures
            record@ == self@.chunks[index as int],
    {
        &self.records[index]
    }

    /// Whether everything asked for is held.
    pub fn is_complete(&self) -> (done: bool)
        ensures
            done == self@.is_complete(),
    {
        self.allocated >= self.requested
    }

    /// The size of the chunk that the next step will claim; zero when the
    /// request is complete.
    pub fn next_chunk_size(&self) -> (size: usize)
        ensures
            size == chunk_size_after(self@.requested, self@.allocated),
    {
        next_chunk_size(self.requested, self.allocated)
    }

    /// Takes in what the memory provider answered to a request for the next
    /// chunk.
    ///
    /// With a block, the block joins the chunks held and the counter grows
    /// by its size, which is returned. With `None`, the failure is reported
    /// and nothing changes.
    pub fn record_outcome(&mut self, outcome: Option<AllocationRecord>) -> (step: Result<usize, AllocationFailure>)
        requires
            old(self).wf(),
            !old(self)@.is_complete(),
            outcome is Some ==> outcome.unwrap()@ == zeros(
                chunk_size_after(old(self)@.requested, old(self)@.allocated),
            ),
        ensures
            final(self).wf(),
            match outcome {
                Some(block) => step == Ok::<usize, AllocationFailure>(block@.len() as usize)
                    && final(self)@ == (ControllerView {
                    requested: old(self)@.requested,
                    allocated: old(self)@.allocated + block@.len(),
                    chunks: old(self)@.chunks.push(block@),
                }),
                None => step == Err::<usize, AllocationFailure>(
                    AllocationFailure {
                        chunk_size: chunk_size_after(
                            old(self)@.requested,
                            old(self)@.allocated,
                        ) as usize,
                    },
                ) && final(self)@ == old(self)@,
            },
    {
        let size: usize = next_chunk_size(self.requested, self.allocated);
        match outcome {
            None => Err(AllocationFailure { chunk_size: size }),
            Some(block) => {
                let ghost held = self@.chunks.len();
                proof {
                    lemma_chunk_count(self@.requested, held);
                    lemma_held_step(self@.requested, held);
                }
                self.records.push(block);
                self.allocated = self.allocated + size;
                assert(self@.chunks =~= old(self)@.chunks.push(block@));
                Ok(size)
            },
        }
    }

    /// One step of the allocation loop: claims the next chunk, zeroed, and
    /// returns its size.
    ///
    /// When the request is already complete, nothing is claimed and the
    /// step returns zero. When the memory provider refuses, nothing changes
    /// and the failure names the size that was asked for.
    pub fn allocate_next(&mut self) -> (step: Result<usize, AllocationFailure>)
        requires
            old(self).wf(),
        ensures
            final(self).wf(),
            final(self)@.requested == old(self)@.requested,
            old(self)@.is_complete() ==> step == Ok::<usize, AllocationFailure>(0) && final(self)@
                == old(self)@,
            match step {
                Ok(size) => {
                    &&& size == chunk_size_after(old(self)@.requested, old(self)@.allocated)
                    &&& final(self)@.allocated == old(self)@.allocated + size
                    &&& size > 0 ==> final(self)@.chunks == old(self)@.chunks.push(
                        zeros(size as nat),
                    )
                },
                Err(failure) => {
                    &&& failure.chunk_size == chunk_size_after(
                        old(self)@.requested,
                        old(self)@.allocated,
                    )
                    &&& final(self)@ == old(self)@
                },
            },
    {
        let size: usize = self.next_chunk_size();
        if size == 0 {
            return Ok(0);
        }
        let outcome = AllocationRecord::zeroed(size);
        self.record_outcome(outcome)
    }

    /// Gives back every chunk, oldest first, and returns the sizes of the
    /// chunks in the order they were given back: the order they were
    /// claimed in. Together they are all that was held.
    pub fn release(self) -> (released: Vec<usize>)
        requires
            self.wf(),
        ensures
            released@.map_values(|size: usize| size as nat) == self@.sizes(),
            total(self@.sizes()) == self@.allocated,
    {
        let ghost view = self@;
        let ghost count = view.chunks.len();
        proof {
            lemma_held_is_plan_prefix(view);
        }
        let mut newest_first = self.records;
        let mut oldest_first: Vec<AllocationRecord> = Vec::new();
        while newest_first.len() > 0
            invariant
                newest_first@.len() + oldest_first@.len() == count,
                forall|i: int|
                    0 <= i < newest_first@.len() ==> (#[trigger] newest_first@[i])@
                        == view.chunks[i],
                forall|j: int|
                    0 <= j < oldest_first@.len() ==> (#[trigger] oldest_first@[j])@
                        == view.chunks[count - 1 - j],
            decreases newest_first@.len(),
        {
            let record = newest_first.pop().unwrap();
            oldest_first.push(record);
        }
        let mut released: Vec<usize> = Vec::new();
        while oldest_first.len() > 0
            invariant
                count == view.chunks.len(),
                released@.len() + oldest_first@.len() == count,
                forall|j: int|
                    0 <= j < oldest_first@.len() ==> (#[trigger] oldest_first@[j])@
                        == view.chunks[count - 1 - j],
                forall|i: int|
                    0 <= i < released@.len() ==> #[trigger] released@[i] == view.chunks[i].len(),
            decreases oldest_first@.len(),
        {
            let record = oldest_first.pop().unwrap();
            released.push(record.size());
        }
        assert(released@.map_values(|size: usize| size as nat) =~= view.sizes());
        released
    }
}

/// What a well-formed controller holds is a prefix of the plan for its
/// request, and its counter is the total size of the chunks held.
pub proof fn lemma_held_is_plan_prefix(state: ControllerView)
    requires
        state.wf(),
    ensures
        state.sizes() == chunk_plan(state.requested).take(state.chunks.len() as int),
        total(state.sizes()) == state.allocated,
        state.allocated <= state.requested,
{
    assert(state.sizes() =~= chunk_plan(state.requested).take(state.chunks.len() as int));
    lemma_plan_prefix_total(state.requested, state.chunks.len());
}

/// Once the request is complete, the chunks held are exactly the plan for
/// it: the counter equals the request, and no chunk is missing or extra.
pub proof fn lemma_complete_is_whole_plan(state: ControllerView)
    requires
        state.wf(),
        state.is_complete(),
    ensures
        state.allocated == state.requested,
        state.sizes() == chunk_plan(state.requested),
        total(state.sizes()) == state.requested,
{
    lemma_held_is_plan_prefix(state);
    let held = state.chunks.len();
    lemma_chunk_count(state.requested, held);
    assert(held == chunk_count(state.requested));
    assert(chunk_plan(state.requested).take(held as int) =~= chunk_plan(state.requested));
}

} // verus!
