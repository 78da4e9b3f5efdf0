//! Fixed-capacity draining buffers of pre-constructed items.

use crate::cursor::Cursor;
use vstd::prelude::*;

verus! {

/// The number of items every block carries when fresh.
pub const BLOCK_SIZE: usize = 8;

/// A pre-allocated buffer of [`BLOCK_SIZE`] items, drained one item per call.
///
/// Draining advances a private index and never touches the stored items, so a
/// block yields at most [`BLOCK_SIZE`] items and the remaining count is always
/// exactly `BLOCK_SIZE - index`. A block is meant to live in exactly one place
/// at a time: a queue slot, a value in flight, or one thread's cache.
#[derive(Debug, Copy, Clone)]
pub struct Block<T> {
    /// How many items have been dispensed so far.
    index: usize,
    /// The items, all constructed up front.
    array: [T; 8],
}

impl<T> Block<T> {
    /// All items this block was constructed with, dispensed or not.
    pub closed spec fn items(self) -> Seq<T> {
        self.array@
    }

    /// How many items have already been dispensed.
    pub closed spec fn dispensed(self) -> int {
        self.index as int
    }

    /// A block is well formed while its drain index has not run past the end.
    pub open spec fn wf(self) -> bool {
        0 <= self.dispensed() <= BLOCK_SIZE && self.items().len() == BLOCK_SIZE
    }

    /// The items still to be dispensed, in the order they will come out.
    pub open spec fn remaining_items(self) -> Seq<T> {
        self.items().skip(self.dispensed())
    }

    /// Wraps an array of items into a fresh, undrained block.
    pub fn new(array: [T; 8]) -> (block: Block<T>)
        ensures
            block.wf(),
            block.items() == array@,
            block.dispensed() == 0,
    {
        Block { index: 0, array }
    }

    /// How many items are still to be dispensed.
    pub fn remaining(&self) -> (n: usize)
        requires
            self.wf(),
        ensures
            n == BLOCK_SIZE - self.dispensed(),
            n == self.remaining_items().len(),
    {
        BLOCK_SIZE - self.index
    }
}

impl<T: Copy> Block<T> {
    /// Dispenses the next item, or `None` once all [`BLOCK_SIZE`] items are
    /// out. Dispensing advances the drain index and leaves the items intact.
    pub fn next(&mut self) -> (item: Option<T>)
        requires
            old(self).wf(),
        ensures
            final(self).wf(),
            final(self).items() == old(self).items(),
            item is Some <==> old(self).dispensed() < BLOCK_SIZE,
            item is Some ==> {
                &&& item->0 == old(self).items()[old(self).dispensed()]
                &&& final(self).dispensed() == old(self).dispensed() + 1
            },
            item is None ==> *final(self) == *old(self),
    {
        if self.index >= BLOCK_SIZE {
            return None;
        }
        let current = self.array[self.index];
        self.index = self.index + 1;
        Some(current)
    }
}

/// A freshly constructed block holds exactly [`BLOCK_SIZE`] items to
/// dispense; since every successful `next` lowers the remaining count by
/// exactly one and leaves the items untouched, a delivered block dispenses
/// exactly [`BLOCK_SIZE`] items before running empty.
pub proof fn lemma_fresh_block_dispenses_all<T>(block: Block<T>)
    requires
        block.wf(),
        block.dispensed() == 0,
    ensures
        block.remaining_items().len() == BLOCK_SIZE,
        block.remaining_items() == block.items(),
{
    assert(block.remaining_items() =~= block.items());
}

/// The capability of constructing one fresh block for a batch index and a
/// cursor. The dispenser invokes it once per batch index during a refill;
/// construction must neither block nor fail.
pub trait ConstructBlock: Sized {
    /// Constructs a fresh, undrained block for batch index `n` within the
    /// refill generation anchored at `cursor`. The dispenser only passes
    /// batch indices below its queue capacity,
    /// [`crate::frame::QUEUE_SIZE`].
    fn construct_block(n: usize, cursor: Cursor) -> (block: Block<Self>)
        ensures
            block.wf(),
            block.dispensed() == 0,
    ;
}

} // verus!
