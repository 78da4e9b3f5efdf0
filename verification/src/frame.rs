//! The global dispenser state and its single-flight refill protocol.
//!
//! [`BlockFrame`] models the shared state of the dispenser — the bounded
//! block queue, the time cursor and the refill flag — and exposes the steps
//! of the refill protocol as verified transitions. A concurrent runner
//! performs these same steps over atomic primitives; every step here keeps
//! the dispenser invariants: the queue never exceeds [`QUEUE_SIZE`], a refill
//! begins only while no other is in progress, and the cursor never moves
//! backwards.

use crate::block::{Block, ConstructBlock, BLOCK_SIZE};
use crate::cursor::Cursor;
use rand::seq::SliceRandom;
use vstd::math::min;
use vstd::prelude::*;

verus! {

/// How many items one refill generation provides in total.
pub const ELEMENT_CAP: usize = 65536;

/// The capacity of the block queue: one refill generation's worth of blocks.
/// Kept at `ELEMENT_CAP / BLOCK_SIZE` so that `batch_index * BLOCK_SIZE +
/// slot_offset` spans exactly the 16-bit space downstream identity bytes use.
pub const QUEUE_SIZE: usize = ELEMENT_CAP / BLOCK_SIZE;

/// Every block of `s` is well formed and still undrained.
pub open spec fn all_fresh<T>(s: Seq<Block<T>>) -> bool {
    forall|i: int| 0 <= i < s.len() ==> (#[trigger] s[i]).wf() && s[i].dispensed() == 0
}

/// The dispenser: a bounded queue of fresh blocks, the cursor of the last
/// refill generation, and the single-flight refill flag.
pub struct BlockFrame<T> {
    /// The time anchor the most recent refill generation was built for.
    cursor: Cursor,
    /// Fresh blocks awaiting consumers, oldest first.
    queue: Vec<Block<T>>,
    /// Whether a refill holds the single-flight lock right now.
    refill_in_progress: bool,
}

impl<T> BlockFrame<T> {
    /// The raw value of the dispenser's cursor.
    pub closed spec fn cursor_val(self) -> u32 {
        self.cursor.raw()
    }

    /// The queued blocks, oldest first.
    pub closed spec fn queue_view(self) -> Seq<Block<T>> {
        self.queue@
    }

    /// Whether a refill holds the single-flight lock.
    pub closed spec fn refilling(self) -> bool {
        self.refill_in_progress
    }

    /// The dispenser invariant: the queue never exceeds its capacity and
    /// holds only fresh blocks.
    pub open spec fn wf(self) -> bool {
        self.queue_view().len() <= QUEUE_SIZE && all_fresh(self.queue_view())
    }

    /// A dispenser whose first refill generation will succeed `cursor`.
    pub fn new(cursor: Cursor) -> (frame: BlockFrame<T>)
        ensures
            frame.wf(),
            frame.cursor_val() == cursor.raw(),
            frame.queue_view().len() == 0,
            !frame.refilling(),
    {
        BlockFrame { cursor, queue: Vec::new(), refill_in_progress: false }
    }

    /// The cursor of the current refill generation.
    pub fn current_cursor(&self) -> (cursor: Cursor)
        ensures
            cursor.raw() == self.cursor_val(),
    {
        self.cursor
    }

    /// How many blocks are queued right now.
    pub fn queue_len(&self) -> (n: usize)
        ensures
            n == self.queue_view().len(),
    {
        self.queue.len()
    }

    /// The fast path of `next_block`: takes the oldest queued block, or
    /// reports an empty queue, in which case the caller triggers a refill
    /// and retries once blocks have been enqueued.
    pub fn next_block(&mut self) -> (block: Option<Block<T>>)
        requires
            old(self).wf(),
        ensures
            final(self).wf(),
            final(self).cursor_val() == old(self).cursor_val(),
            final(self).refilling() == old(self).refilling(),
            block is Some <==> old(self).queue_view().len() > 0,
            block is Some ==> {
                &&& block->0 == old(self).queue_view()[0]
                &&& block->0.wf()
                &&& block->0.dispensed() == 0
                &&& final(self).queue_view() == old(self).queue_view().skip(1)
            },
            block is None ==> *final(self) == *old(self),
    {
        if self.queue.len() > 0 {
            Some(self.queue.remove(0))
        } else {
            None
        }
    }

    /// The single-flight gate: claims the refill lock and reports whether
    /// this caller won it. At most one claim can succeed until the winner
    /// releases the lock again.
    pub fn try_begin_refill(&mut self) -> (won: bool)
        requires
            old(self).wf(),
        ensures
            final(self).wf(),
            won == !old(self).refilling(),
            final(self).refilling(),
            final(self).cursor_val() == old(self).cursor_val(),
            final(self).queue_view() == old(self).queue_view(),
            !won ==> *final(self) == *old(self),
    {
        if self.refill_in_progress {
            false
        } else {
            self.refill_in_progress = true;
            true
        }
    }

    /// The monotone cursor advance of a refill that holds the lock: adopts
    /// `candidate` exactly when it lies strictly after the current cursor,
    /// so the cursor value never decreases and every completed refill owns
    /// a strictly greater cursor than the one before it.
    pub fn advance_cursor(&mut self, candidate: Cursor) -> (advanced: bool)
        requires
            old(self).wf(),
            old(self).refilling(),
        ensures
            final(self).wf(),
            advanced == (candidate.raw() > old(self).cursor_val()),
            advanced ==> final(self).cursor_val() == candidate.raw(),
            !advanced ==> *final(self) == *old(self),
            final(self).cursor_val() >= old(self).cursor_val(),
            final(self).refilling() == old(self).refilling(),
            final(self).queue_view() == old(self).queue_view(),
    {
        let current = self.cursor;
        match current.next_from(candidate) {
            Some(next) => {
                self.cursor = next;
                true
            },
            None => false,
        }
    }

    /// One enqueue step of a refill: appends a fresh block unless the queue
    /// is already at capacity. The queue length never exceeds [`QUEUE_SIZE`].
    pub fn push_block(&mut self, block: Block<T>) -> (pushed: bool)
        requires
            old(self).wf(),
            old(self).refilling(),
            block.wf(),
            block.dispensed() == 0,
        ensures
            final(self).wf(),
            final(self).queue_view().len() <= QUEUE_SIZE,
            pushed == (old(self).queue_view().len() < QUEUE_SIZE),
            pushed ==> final(self).queue_view() == old(self).queue_view().push(block),
            !pushed ==> *final(self) == *old(self),
            final(self).cursor_val() == old(self).cursor_val(),
            final(self).refilling() == old(self).refilling(),
    {
        if self.queue.len() < QUEUE_SIZE {
            self.queue.push(block);
            true
        } else {
            false
        }
    }

    /// Releases the single-flight lock at the end of a refill, whether or
    /// not every block could be enqueued.
    pub fn end_refill(&mut self)
        requires
            old(self).wf(),
            old(self).refilling(),
        ensures
            final(self).wf(),
            !final(self).refilling(),
            final(self).cursor_val() == old(self).cursor_val(),
            final(self).queue_view() == old(self).queue_view(),
    {
        self.refill_in_progress = false;
    }
}

impl<T: ConstructBlock> BlockFrame<T> {
    /// The refill routine, run to completion: claim the single-flight lock
    /// (skipping everything if another refill holds it), adopt the strictly
    /// newer `candidate` cursor, construct one block per batch index and
    /// enqueue it, stopping early only on a full queue, then release the
    /// lock. Returns whether the lock was won and how many blocks were
    /// enqueued.
    pub fn refill(&mut self, indices: &Vec<usize>, candidate: Cursor) -> (outcome: (bool, usize))
        requires
            old(self).wf(),
            candidate.raw() > old(self).cursor_val(),
            forall|i: int| 0 <= i < indices@.len() ==> #[trigger] indices@[i] < QUEUE_SIZE,
        ensures
            final(self).wf(),
            final(self).queue_view().len() <= QUEUE_SIZE,
            final(self).cursor_val() >= old(self).cursor_val(),
            outcome.0 == !old(self).refilling(),
            !outcome.0 ==> *final(self) == *old(self) && outcome.1 == 0,
            outcome.0 ==> {
                &&& !final(self).refilling()
                &&& final(self).cursor_val() == candidate.raw()
                &&& outcome.1 == min(
                    indices@.len() as int,
                    QUEUE_SIZE - old(self).queue_view().len(),
                )
                &&& final(self).queue_view().len() == old(self).queue_view().len() + outcome.1
                &&& final(self).queue_view().take(old(self).queue_view().len() as int)
                    == old(self).queue_view()
            },
    {
        if !self.try_begin_refill() {
            return (false, 0);
        }
        let advanced = self.advance_cursor(candidate);
        assert(advanced);

        let ghost orig = *self;
        let mut pushed: usize = 0;
        let mut i: usize = 0;
        let mut full = false;
        while i < indices.len() && !full
            invariant
                self.wf(),
                self.refilling(),
                self.cursor_val() == candidate.raw(),
                i <= indices@.len(),
                pushed == i,
                full ==> self.queue_view().len() == QUEUE_SIZE,
                self.queue_view().len() == orig.queue_view().len() + pushed,
                self.queue_view().take(orig.queue_view().len() as int) == orig.queue_view(),
                forall|j: int| 0 <= j < indices@.len() ==> #[trigger] indices@[j] < QUEUE_SIZE,
            decreases indices@.len() - i, (if full { 0int } else { 1int }),
        {
            let block = T::construct_block(indices[i], candidate);
            if self.push_block(block) {
                assert(self.queue_view().take(orig.queue_view().len() as int)
                    =~= orig.queue_view());
                pushed = pushed + 1;
                i = i + 1;
            } else {
                full = true;
            }
        }
        self.end_refill();
        proof {
            if pushed < indices@.len() {
                assert(full);
            }
        }
        (true, pushed)
    }
}

/// The batch indices of one refill generation, in ascending order:
/// `0, 1, …, QUEUE_SIZE − 1`.
pub fn batch_indices() -> (indices: Vec<usize>)
    ensures
        indices@.len() == QUEUE_SIZE,
        forall|i: int| 0 <= i < QUEUE_SIZE ==> #[trigger] indices@[i] == i,
{
    let mut indices: Vec<usize> = Vec::new();
    let mut n: usize = 0;
    while n < QUEUE_SIZE
        invariant
            n <= QUEUE_SIZE,
            indices@.len() == n,
            forall|i: int| 0 <= i < n ==> #[trigger] indices@[i] == i,
        decreases QUEUE_SIZE - n,
    {
        indices.push(n);
        n = n + 1;
    }
    indices
}

/// Relies on `rand::seq::SliceRandom::shuffle` (with `rand::thread_rng`):
/// it permutes the slice in place, so the new order holds exactly the old
/// elements. Nothing is assumed about which permutation comes out.
#[verifier::external_body]
fn shuffle_in_place(indices: &mut Vec<usize>)
    ensures
        final(indices)@.len() == old(indices)@.len(),
        final(indices)@.to_multiset() == old(indices)@.to_multiset(),
{
    indices.as_mut_slice().shuffle(&mut rand::thread_rng());
}

/// The batch indices of one refill generation in a uniformly random order:
/// a permutation of `0, 1, …, QUEUE_SIZE − 1`. Consumers read items in queue
/// order, so shuffling the batch indices obscures any ordering relationship
/// between outputs without changing what one generation contains.
pub fn shuffled_batch_indices() -> (indices: Vec<usize>)
    ensures
        indices@.len() == QUEUE_SIZE,
        indices@.to_multiset() == Seq::new(QUEUE_SIZE as nat, |i: int| i as usize).to_multiset(),
        forall|i: int| 0 <= i < indices@.len() ==> #[trigger] indices@[i] < QUEUE_SIZE,
{
    let mut indices = batch_indices();
    proof {
        assert(indices@ =~= Seq::new(QUEUE_SIZE as nat, |i: int| i as usize));
    }
    shuffle_in_place(&mut indices);
    proof {
        broadcast use vstd::seq_lib::group_to_multiset_ensures;

        assert forall|i: int| 0 <= i < indices@.len() implies #[trigger] indices@[i]
            < QUEUE_SIZE by {
            let x = indices@[i];
            assert(indices@.contains(x));
            assert(indices@.to_multiset().count(x) > 0);
            let identity = Seq::new(QUEUE_SIZE as nat, |i: int| i as usize);
            assert(identity.contains(x));
            let j = choose|j: int| 0 <= j < identity.len() && identity[j] == x;
            assert(identity[j] == j as usize);
        }
    }
    indices
}

} // verus!
