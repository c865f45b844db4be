//! Wrappers to provide additional functionality for allocators.
//!
//! These wrappers enforce bounds on what is allocated through an inner
//! allocator. The work of the inner allocator is handed to each operation as
//! a closure that receives the inner allocator and the sizes the wrapper
//! charges for the request (the size of an allocation or deallocation; the
//! old and new sizes of a growth or shrink); the wrapper decides whether
//! the request fits its budget, makes the call, and keeps its books.

use vstd::prelude::*;

pub mod bounded;
pub mod total;

pub use bounded::BoundedAllocator;
pub use total::BoundedTotalAllocator;

verus! {

/// The error of a request that could not be served: either the budget of the
/// wrapper was too small, or the inner allocator failed.
#[derive(Debug, Clone, Copy, PartialEq, Eq)]
pub struct AllocError;

/// A block of memory: the address it starts at and its length in bytes.
#[derive(Debug, Clone, Copy, PartialEq, Eq)]
pub struct Block {
    pub addr: usize,
    pub len: usize,
}

impl Block {
    /// What becomes of an inner allocator's answer when the block it hands
    /// out is cut to `len` bytes: the same start, exactly `len` bytes, and a
    /// failure passed on as it is.
    pub open spec fn fitted(r: Result<Block, AllocError>, len: usize) -> Result<Block, AllocError> {
        match r {
            Ok(b) => Ok(Block { addr: b.addr, len }),
            Err(e) => Err(e),
        }
    }

    /// This block cut to `len` bytes.
    pub fn fit(self, len: usize) -> (b: Block)
        ensures
            b == (Block { addr: self.addr, len }),
    {
        Block { addr: self.addr, len }
    }
}

/// What a [`BoundedAllocator`](bounded::BoundedAllocator) hands out for a
/// served request: the block of the inner allocator, from the address the
/// inner allocator gave, with exactly the `len` bytes asked for, whatever the
/// length of the inner block. An answer of the inner allocator is served
/// exactly when it is `Ok`, and a failure is passed on as it is.
pub proof fn served_block_fits_exactly(q: Result<Block, AllocError>, len: usize)
    ensures
        q matches Ok(b) ==> Block::fitted(q, len) == Ok::<Block, AllocError>(
            Block { addr: b.addr, len },
        ),
        q matches Ok(b) ==> Block::fitted(q, len) matches Ok(c) && c.addr == b.addr && c.len
            == len,
        q is Err ==> Block::fitted(q, len) == q,
        Block::fitted(q, len) is Ok <==> q is Ok,
{
}

/// The bookkeeping of a wrapper: the bound it was made with, and the bytes
/// that it may still hand out.
pub ghost struct Budget {
    pub capacity: nat,
    pub remaining: nat,
}

impl Budget {
    /// The budget of a wrapper made with `bound`.
    pub open spec fn fresh(bound: nat) -> Budget {
        Budget { capacity: bound, remaining: bound }
    }

    /// What may still be handed out never exceeds the bound.
    pub open spec fn wf(self) -> bool {
        self.remaining <= self.capacity
    }

    /// The budget after `amount` bytes were reserved.
    pub open spec fn take(self, amount: nat) -> Budget {
        Budget { capacity: self.capacity, remaining: (self.remaining - amount) as nat }
    }

    /// The budget after `amount` bytes were given back.
    pub open spec fn give(self, amount: nat) -> Budget {
        Budget { capacity: self.capacity, remaining: self.remaining + amount }
    }
}

/// Giving back a reservation undoes it: what the wrappers do when the inner
/// allocator fails a request whose bytes they had reserved.
pub proof fn release_undoes_acquire(b: Budget, amount: nat)
    requires
        b.wf(),
        amount <= b.remaining,
    ensures
        b.take(amount).give(amount) == b,
        b.take(amount).wf(),
{
}

/// One request made to a wrapper, with whether it was served.
pub ghost enum Event {
    Allocate { size: nat, granted: bool },
    Deallocate { size: nat },
    Grow { old_size: nat, new_size: nat, granted: bool },
    Shrink { old_size: nat, new_size: nat, granted: bool },
}

} // verus!
