//! The leak tracker: owns the allocated-and-retained blocks and keeps
//! the accounting exact: the counter always equals the number of blocks,
//! and the total leaked is the counter times the fixed block size.

use vstd::prelude::*;

verus! {

/// Size of one leaked block in bytes (100 KiB).
pub const LEAK_SIZE: usize = 1024 * 100;

/// The byte every leaked block is filled with (ASCII `A`), so the
/// memory is committed and cannot be elided by the allocator or
/// optimizer.
pub const FILL_BYTE: u8 = 65;

/// Owns the growing collection of allocated-and-retained memory blocks.
/// Blocks are never freed individually; they live until the process exits.
pub struct LeakTracker {
    leaks: Vec<Vec<u8>>,
    count: usize,
}

impl LeakTracker {
    /// The number of blocks allocated so far.
    pub closed spec fn spec_count(&self) -> nat {
        self.count as nat
    }

    /// Well-formedness: the counter equals the collection's length, the
    /// total leaked fits in `usize`, and every block is a fully
    /// initialized buffer of exactly `LEAK_SIZE` fill bytes.
    pub closed spec fn wf(&self) -> bool {
        &&& self.count == self.leaks.len()
        &&& self.count * LEAK_SIZE <= usize::MAX
        &&& forall|i: int|
            0 <= i < self.leaks.len() ==> (#[trigger] self.leaks[i])@ == Seq::new(
                LEAK_SIZE as nat,
                |j: int| FILL_BYTE,
            )
    }

    /// Starts with no blocks and a zero counter.
    pub fn new() -> (r: Self)
        ensures
            r.wf(),
            r.spec_count() == 0,
    {
        Self { leaks: Vec::new(), count: 0 }
    }

    /// Allocates one new `LEAK_SIZE` block, fills it with `FILL_BYTE`,
    /// appends it to the owned collection and increments the counter.
    pub fn add_leak(&mut self)
        requires
            old(self).wf(),
            (old(self).spec_count() + 1) * LEAK_SIZE <= usize::MAX,
        ensures
            final(self).wf(),
            final(self).spec_count() == old(self).spec_count() + 1,
    {
        let mut block: Vec<u8> = Vec::new();
        let mut i: usize = 0;
        while i < LEAK_SIZE
            invariant
                i <= LEAK_SIZE,
                block@.len() == i,
                forall|j: int| 0 <= j < i ==> block@[j] == FILL_BYTE,
            decreases LEAK_SIZE - i,
        {
            block.push(FILL_BYTE);
            i = i + 1;
        }
        proof {
            assert(block@ =~= Seq::new(LEAK_SIZE as nat, |j: int| FILL_BYTE));
            let c = old(self).count as int;
            assert(c * LEAK_SIZE + LEAK_SIZE <= usize::MAX) by (nonlinear_arith)
                requires
                    (c + 1) * LEAK_SIZE <= usize::MAX,
            ;
        }
        self.leaks.push(block);
        self.count = self.count + 1;
    }

    /// Total bytes leaked: exactly the counter times the block size.
    pub fn get_total_leaked(&self) -> (r: usize)
        requires
            self.wf(),
        ensures
            r == self.spec_count() * LEAK_SIZE,
    {
        self.count * LEAK_SIZE
    }

    /// The number of successful allocations so far.
    pub fn get_leak_count(&self) -> (r: usize)
        ensures
            r == self.spec_count(),
    {
        self.count
    }
}

} // verus!
