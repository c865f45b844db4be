use vstd::prelude::*;

use super::{AllocError, Block, Budget, Event};

verus! {

/// What a request does to the budget of a [`BoundedAllocator`]: a served
/// allocation or growth takes its bytes, a deallocation or a served shrink
/// gives its bytes back, and a request that was not served changes nothing.
pub open spec fn bounded_step(b: Budget, e: Event) -> Budget {
    match e {
        Event::Allocate { size, granted } => if granted { b.take(size) } else { b },
        Event::Deallocate { size } => b.give(size),
        Event::Grow { old_size, new_size, granted } =>
            if granted { b.take((new_size - old_size) as nat) } else { b },
        Event::Shrink { old_size, new_size, granted } =>
            if granted { b.give((old_size - new_size) as nat) } else { b },
    }
}

/// The requests a [`BoundedAllocator`] serves or accepts in a given state: it
/// serves only what fits in what remains, and it takes back only what was
/// handed out.
pub open spec fn bounded_admits(b: Budget, e: Event) -> bool {
    match e {
        Event::Allocate { size, granted } => granted ==> size <= b.remaining,
        Event::Deallocate { size } => b.remaining + size <= b.capacity,
        Event::Grow { old_size, new_size, granted } =>
            old_size <= new_size && (granted ==> new_size - old_size <= b.remaining),
        Event::Shrink { old_size, new_size, granted } =>
            new_size <= old_size && (granted ==> b.remaining + (old_size - new_size) <= b.capacity),
    }
}

/// The budget after a sequence of requests, the last one last.
pub open spec fn bounded_run(b: Budget, events: Seq<Event>) -> Budget
    decreases events.len(),
{
    if events.len() == 0 {
        b
    } else {
        bounded_step(bounded_run(b, events.drop_last()), events.last())
    }
}

/// Every request of the sequence is admitted in the state that the earlier
/// ones left.
pub open spec fn bounded_trace_admitted(b: Budget, events: Seq<Event>) -> bool
    decreases events.len(),
{
    if events.len() == 0 {
        true
    } else {
        bounded_trace_admitted(b, events.drop_last()) && bounded_admits(
            bounded_run(b, events.drop_last()),
            events.last(),
        )
    }
}

/// How a request changes the bytes that its caller holds.
pub open spec fn held_delta(e: Event) -> int {
    match e {
        Event::Allocate { size, granted } => if granted { size as int } else { 0 },
        Event::Deallocate { size } => -size,
        Event::Grow { old_size, new_size, granted } =>
            if granted { new_size - old_size } else { 0 },
        Event::Shrink { old_size, new_size, granted } =>
            if granted { new_size - old_size } else { 0 },
    }
}

/// The bytes held by the callers after a sequence of requests: what was
/// handed out and not given back.
pub open spec fn bytes_held(events: Seq<Event>) -> int
    decreases events.len(),
{
    if events.len() == 0 {
        0
    } else {
        bytes_held(events.drop_last()) + held_delta(events.last())
    }
}

/// Allocator that imposes a limit on the amount of memory allocated through
/// its structure.
///
/// It does not keep track of the overhead caused by the implementation
/// choices of the inner allocator.
///
/// This allocator limits the bytes allocated at any one moment: freeing
/// memory makes room again. If instead the total number of bytes allocated
/// through the allocator over its lifetime must be limited, consider a
/// [`BoundedTotalAllocator`](super::BoundedTotalAllocator).
///
/// Its bookkeeping counts exactly the sizes that were asked for, so it only
/// ever hands out exactly fitting blocks: where the inner allocator provides a
/// larger block, the block handed out is cut to the size asked for.
#[derive(Debug)]
pub struct BoundedAllocator<A> {
    capacity: usize,
    remaining: usize,
    inner: A,
}

impl<A> View for BoundedAllocator<A> {
    type V = Budget;

    closed spec fn view(&self) -> Budget {
        Budget { capacity: self.capacity as nat, remaining: self.remaining as nat }
    }
}

impl<A> BoundedAllocator<A> {
    /// What may still be handed out never exceeds the bound.
    #[verifier::type_invariant]
    closed spec fn budget_within_bound(&self) -> bool {
        self.remaining <= self.capacity
    }

    /// The inner allocator.
    pub closed spec fn inner(&self) -> A {
        self.inner
    }

    /// The bytes that may still be handed out never exceed the bound.
    pub open spec fn wf(&self) -> bool {
        self@.wf()
    }

    /// Create a new [`BoundedAllocator`] that may be used to allocate `bound`
    /// bytes at any one time.
    pub fn new(inner: A, bound: usize) -> (s: Self)
        ensures
            s@ == Budget::fresh(bound as nat),
            s.inner() == inner,
            s.wf(),
    {
        BoundedAllocator { capacity: bound, remaining: bound, inner }
    }

    /// The bound this allocator was made with.
    pub fn capacity(&self) -> (c: usize)
        ensures
            c == self@.capacity,
            self.wf(),
    {
        proof {
            use_type_invariant(self);
        }
        self.capacity
    }

    /// The bytes that may still be allocated before the bound is reached.
    pub fn remaining(&self) -> (r: usize)
        ensures
            r == self@.remaining,
            self.wf(),
    {
        proof {
            use_type_invariant(self);
        }
        self.remaining
    }

    /// The inner allocator.
    pub fn inner_allocator(&self) -> (a: &A)
        ensures
            *a == self.inner(),
    {
        &self.inner
    }

    /// Reserve `amount` bytes of the budget, or fail without change if fewer
    /// remain.
    pub fn acquire(&mut self, amount: usize) -> (r: Result<(), AllocError>)
        ensures
            final(self).wf(),
            final(self).inner() == old(self).inner(),
            r == if amount <= old(self)@.remaining {
                Ok::<(), AllocError>(())
            } else {
                Err::<(), AllocError>(AllocError)
            },
            final(self)@ == if r is Ok {
                old(self)@.take(amount as nat)
            } else {
                old(self)@
            },
    {
        proof {
            use_type_invariant(&*self);
        }
        match self.remaining.checked_sub(amount) {
            Some(post) => {
                self.remaining = post;
                Ok(())
            },
            None => Err(AllocError),
        }
    }

    /// Give back a reservation of `amount` bytes for a request that the inner
    /// allocator failed.
    pub fn release_err(&mut self, amount: usize)
        requires
            old(self)@.remaining + amount <= old(self)@.capacity,
        ensures
            final(self).wf(),
            final(self).inner() == old(self).inner(),
            final(self)@ == old(self)@.give(amount as nat),
    {
        self.remaining = self.remaining + amount;
    }

    /// Give back `amount` bytes that were freed.
    pub fn release(&mut self, amount: usize)
        requires
            old(self)@.remaining + amount <= old(self)@.capacity,
        ensures
            final(self).wf(),
            final(self).inner() == old(self).inner(),
            final(self)@ == old(self)@.give(amount as nat),
    {
        self.remaining = self.remaining + amount;
    }

    /// Allocate `size` bytes: reserve them, then let `inner_allocate` ask the
    /// inner allocator, and hand out the block it gives cut to exactly `size`
    /// bytes. Where the inner allocator fails, the reservation is given back.
    /// The inner allocator is not asked when `size` bytes do not remain.
    pub fn allocate<F>(&mut self, size: usize, inner_allocate: F) -> (r: Result<Block, AllocError>) where
        F: FnOnce(&A, usize) -> Result<Block, AllocError>,
        requires
            size <= old(self)@.remaining ==> inner_allocate.requires((&old(self).inner(), size)),
        ensures
            final(self).wf(),
            final(self).inner() == old(self).inner(),
            r matches Ok(b) ==> b.len == size,
            bounded_admits(old(self)@, Event::Allocate { size: size as nat, granted: r is Ok }),
            final(self)@ == bounded_step(
                old(self)@,
                Event::Allocate { size: size as nat, granted: r is Ok },
            ),
            size > old(self)@.remaining ==> r == Err::<Block, AllocError>(AllocError),
            size <= old(self)@.remaining ==> exists|q: Result<Block, AllocError>|
                #[trigger] inner_allocate.ensures((&old(self).inner(), size), q) && r == Block::fitted(
                    q,
                    size,
                ),
    {
        proof {
            use_type_invariant(&*self);
        }
        if self.acquire(size).is_err() {
            return Err(AllocError);
        }
        let q = inner_allocate(&self.inner, size);
        match q {
            Ok(allocation) => Ok(allocation.fit(size)),
            Err(e) => {
                self.release_err(size);
                Err(e)
            },
        }
    }

    /// As [`Self::allocate`], for an inner request that zeroes the memory.
    pub fn allocate_zeroed<F>(&mut self, size: usize, inner_allocate_zeroed: F) -> (r: Result<
        Block,
        AllocError,
    >) where F: FnOnce(&A, usize) -> Result<Block, AllocError>,
        requires
            size <= old(self)@.remaining ==> inner_allocate_zeroed.requires((&old(self).inner(), size),
            ),
        ensures
            final(self).wf(),
            final(self).inner() == old(self).inner(),
            r matches Ok(b) ==> b.len == size,
            bounded_admits(old(self)@, Event::Allocate { size: size as nat, granted: r is Ok }),
            final(self)@ == bounded_step(
                old(self)@,
                Event::Allocate { size: size as nat, granted: r is Ok },
            ),
            size > old(self)@.remaining ==> r == Err::<Block, AllocError>(AllocError),
            size <= old(self)@.remaining ==> exists|q: Result<Block, AllocError>|
                #[trigger] inner_allocate_zeroed.ensures((&old(self).inner(), size), q) && r
                    == Block::fitted(q, size),
    {
        proof {
            use_type_invariant(&*self);
        }
        if self.acquire(size).is_err() {
            return Err(AllocError);
        }
        let q = inner_allocate_zeroed(&self.inner, size);
        match q {
            Ok(allocation) => Ok(allocation.fit(size)),
            Err(e) => {
                self.release_err(size);
                Err(e)
            },
        }
    }

    /// Free a block of `size` bytes: let `inner_deallocate` give it to the
    /// inner allocator, then give its bytes back to the budget.
    pub fn deallocate<F>(&mut self, size: usize, inner_deallocate: F) where F: FnOnce(&A, usize)
        requires
            old(self)@.remaining + size <= old(self)@.capacity,
            inner_deallocate.requires((&old(self).inner(), size)),
        ensures
            final(self).wf(),
            final(self).inner() == old(self).inner(),
            bounded_admits(old(self)@, Event::Deallocate { size: size as nat }),
            final(self)@ == bounded_step(old(self)@, Event::Deallocate { size: size as nat }),
            inner_deallocate.ensures((&old(self).inner(), size), ()),
    {
        inner_deallocate(&self.inner, size);
        self.release(size);
    }

    /// Grow a block from `old_size` to `new_size` bytes: reserve the
    /// difference, then let `inner_grow` ask the inner allocator, and hand out
    /// the block it gives cut to exactly `new_size` bytes. Where the inner
    /// allocator fails, the reservation is given back. The inner allocator is
    /// not asked when the difference does not remain.
    pub fn grow<F>(&mut self, old_size: usize, new_size: usize, inner_grow: F) -> (r: Result<
        Block,
        AllocError,
    >) where F: FnOnce(&A, usize, usize) -> Result<Block, AllocError>,
        requires
            old_size <= new_size,
            new_size - old_size <= old(self)@.remaining ==> inner_grow.requires((&old(self).inner(), old_size, new_size),
            ),
        ensures
            final(self).wf(),
            final(self).inner() == old(self).inner(),
            r matches Ok(b) ==> b.len == new_size,
            bounded_admits(
                old(self)@,
                Event::Grow { old_size: old_size as nat, new_size: new_size as nat, granted: r is Ok },
            ),
            final(self)@ == bounded_step(
                old(self)@,
                Event::Grow { old_size: old_size as nat, new_size: new_size as nat, granted: r is Ok },
            ),
            new_size - old_size > old(self)@.remaining ==> r == Err::<Block, AllocError>(
                AllocError,
            ),
            new_size - old_size <= old(self)@.remaining ==> exists|q: Result<Block, AllocError>|
                #[trigger] inner_grow.ensures((&old(self).inner(), old_size, new_size), q) && r == Block::fitted(
                    q,
                    new_size,
                ),
    {
        proof {
            use_type_invariant(&*self);
        }
        let additional = new_size - old_size;
        if self.acquire(additional).is_err() {
            return Err(AllocError);
        }
        let q = inner_grow(&self.inner, old_size, new_size);
        match q {
            Ok(allocation) => Ok(allocation.fit(new_size)),
            Err(e) => {
                self.release_err(additional);
                Err(e)
            },
        }
    }

    /// As [`Self::grow`], for an inner request that zeroes the new memory.
    pub fn grow_zeroed<F>(
        &mut self,
        old_size: usize,
        new_size: usize,
        inner_grow_zeroed: F,
    ) -> (r: Result<Block, AllocError>) where F: FnOnce(&A, usize, usize) -> Result<Block, AllocError>,
        requires
            old_size <= new_size,
            new_size - old_size <= old(self)@.remaining ==> inner_grow_zeroed.requires((&old(self).inner(), old_size, new_size),
            ),
        ensures
            final(self).wf(),
            final(self).inner() == old(self).inner(),
            r matches Ok(b) ==> b.len == new_size,
            bounded_admits(
                old(self)@,
                Event::Grow { old_size: old_size as nat, new_size: new_size as nat, granted: r is Ok },
            ),
            final(self)@ == bounded_step(
                old(self)@,
                Event::Grow { old_size: old_size as nat, new_size: new_size as nat, granted: r is Ok },
            ),
            new_size - old_size > old(self)@.remaining ==> r == Err::<Block, AllocError>(
                AllocError,
            ),
            new_size - old_size <= old(self)@.remaining ==> exists|q: Result<Block, AllocError>|
                #[trigger] inner_grow_zeroed.ensures((&old(self).inner(), old_size, new_size), q) && r
                    == Block::fitted(q, new_size),
    {
        proof {
            use_type_invariant(&*self);
        }
        let additional = new_size - old_size;
        if self.acquire(additional).is_err() {
            return Err(AllocError);
        }
        let q = inner_grow_zeroed(&self.inner, old_size, new_size);
        match q {
            Ok(allocation) => Ok(allocation.fit(new_size)),
            Err(e) => {
                self.release_err(additional);
                Err(e)
            },
        }
    }

    /// Shrink a block from `old_size` to `new_size` bytes: let `inner_shrink`
    /// ask the inner allocator, and where it succeeds hand out the block it
    /// gives cut to exactly `new_size` bytes and give the difference back to
    /// the budget.
    pub fn shrink<F>(&mut self, old_size: usize, new_size: usize, inner_shrink: F) -> (r: Result<
        Block,
        AllocError,
    >) where F: FnOnce(&A, usize, usize) -> Result<Block, AllocError>,
        requires
            new_size <= old_size,
            old(self)@.remaining + (old_size - new_size) <= old(self)@.capacity,
            inner_shrink.requires((&old(self).inner(), old_size, new_size)),
        ensures
            final(self).wf(),
            final(self).inner() == old(self).inner(),
            r matches Ok(b) ==> b.len == new_size,
            bounded_admits(
                old(self)@,
                Event::Shrink {
                    old_size: old_size as nat,
                    new_size: new_size as nat,
                    granted: r is Ok,
                },
            ),
            final(self)@ == bounded_step(
                old(self)@,
                Event::Shrink {
                    old_size: old_size as nat,
                    new_size: new_size as nat,
                    granted: r is Ok,
                },
            ),
            exists|q: Result<Block, AllocError>|
                #[trigger] inner_shrink.ensures((&old(self).inner(), old_size, new_size), q) && r == Block::fitted(
                    q,
                    new_size,
                ),
    {
        let q = inner_shrink(&self.inner, old_size, new_size);
        match q {
            Ok(allocation) => {
                self.release(old_size - new_size);
                Ok(allocation.fit(new_size))
            },
            Err(e) => Err(e),
        }
    }
}

/// Every admitted request keeps the balance of a [`BoundedAllocator`]: what
/// remains plus the bytes its callers hold is the bound, before and after. A
/// served growth counts the block at its new size, a growth that was not
/// served at its old one.
pub proof fn bounded_step_keeps_balance(b: Budget, e: Event, held: int)
    requires
        b.remaining + held == b.capacity,
        bounded_admits(b, e),
    ensures
        bounded_step(b, e).remaining + (held + held_delta(e)) == bounded_step(b, e).capacity,
        bounded_step(b, e).capacity == b.capacity,
{
}

/// Freeing a block returns its bytes: an allocation of `size` bytes that was
/// served, followed by the deallocation of that block, leaves the budget as it
/// was.
pub proof fn free_returns_capacity(b: Budget, size: nat)
    requires
        b.wf(),
        bounded_admits(b, Event::Allocate { size, granted: true }),
    ensures
        bounded_admits(
            bounded_step(b, Event::Allocate { size, granted: true }),
            Event::Deallocate { size },
        ),
        bounded_step(
            bounded_step(b, Event::Allocate { size, granted: true }),
            Event::Deallocate { size },
        ) == b,
{
}

/// Shrinking a block back to its size before a served growth leaves the
/// budget as it was.
pub proof fn shrink_undoes_grow(b: Budget, old_size: nat, new_size: nat)
    requires
        b.wf(),
        bounded_admits(b, Event::Grow { old_size, new_size, granted: true }),
    ensures
        bounded_admits(
            bounded_step(b, Event::Grow { old_size, new_size, granted: true }),
            Event::Shrink { old_size: new_size, new_size: old_size, granted: true },
        ),
        bounded_step(
            bounded_step(b, Event::Grow { old_size, new_size, granted: true }),
            Event::Shrink { old_size: new_size, new_size: old_size, granted: true },
        ) == b,
{
}

/// Every admitted request keeps what remains within the bound.
pub proof fn bounded_step_keeps_wf(b: Budget, e: Event)
    requires
        b.wf(),
        bounded_admits(b, e),
    ensures
        bounded_step(b, e).wf(),
        bounded_step(b, e).capacity == b.capacity,
{
}

/// At any one moment, the bytes held through a [`BoundedAllocator`] made with
/// `bound` are what its budget lacks, and never more than `bound`: whatever
/// sequence of admitted requests came before.
pub proof fn bytes_held_never_exceed_bound(bound: nat, events: Seq<Event>)
    requires
        bounded_trace_admitted(Budget::fresh(bound), events),
    ensures
        bounded_run(Budget::fresh(bound), events).capacity == bound,
        bounded_run(Budget::fresh(bound), events).wf(),
        bounded_run(Budget::fresh(bound), events).remaining == bound - bytes_held(events),
        0 <= bytes_held(events) <= bound,
    decreases events.len(),
{
    if events.len() > 0 {
        bytes_held_never_exceed_bound(bound, events.drop_last());
    }
}

} // verus!
