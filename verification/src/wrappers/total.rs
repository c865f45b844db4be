use vstd::prelude::*;

use super::{AllocError, Budget, Event};

verus! {

/// What a request does to the budget of a [`BoundedTotalAllocator`]: a served
/// allocation or growth takes its bytes for good; deallocations, shrinks and
/// requests that were not served change nothing.
pub open spec fn total_step(b: Budget, e: Event) -> Budget {
    match e {
        Event::Allocate { size, granted } => if granted { b.take(size) } else { b },
        Event::Deallocate { size } => b,
        Event::Grow { old_size, new_size, granted } =>
            if granted { b.take((new_size - old_size) as nat) } else { b },
        Event::Shrink { old_size, new_size, granted } => b,
    }
}

/// The requests a [`BoundedTotalAllocator`] serves or accepts in a given
/// state: it serves only what fits in what remains.
pub open spec fn total_admits(b: Budget, e: Event) -> bool {
    match e {
        Event::Allocate { size, granted } => granted ==> size <= b.remaining,
        Event::Deallocate { size } => true,
        Event::Grow { old_size, new_size, granted } =>
            old_size <= new_size && (granted ==> new_size - old_size <= b.remaining),
        Event::Shrink { old_size, new_size, granted } => new_size <= old_size,
    }
}

/// The budget after a sequence of requests, the last one last.
pub open spec fn total_run(b: Budget, events: Seq<Event>) -> Budget
    decreases events.len(),
{
    if events.len() == 0 {
        b
    } else {
        total_step(total_run(b, events.drop_last()), events.last())
    }
}

/// Every request of the sequence is admitted in the state that the earlier
/// ones left.
pub open spec fn total_trace_admitted(b: Budget, events: Seq<Event>) -> bool
    decreases events.len(),
{
    if events.len() == 0 {
        true
    } else {
        total_trace_admitted(b, events.drop_last()) && total_admits(
            total_run(b, events.drop_last()),
            events.last(),
        )
    }
}

/// The bytes a served request handed out: the size of an allocation, the
/// growth of a block.
pub open spec fn granted_delta(e: Event) -> int {
    match e {
        Event::Allocate { size, granted } => if granted { size as int } else { 0 },
        Event::Grow { old_size, new_size, granted } =>
            if granted { new_size - old_size } else { 0 },
        _ => 0,
    }
}

/// The bytes handed out over a sequence of requests, whatever was freed.
pub open spec fn bytes_granted(events: Seq<Event>) -> int
    decreases events.len(),
{
    if events.len() == 0 {
        0
    } else {
        bytes_granted(events.drop_last()) + granted_delta(events.last())
    }
}

/// Allocator that imposes a limit on the amount of memory allocated through
/// its structure over its lifetime.
///
/// It does not keep track of the overhead caused by the implementation
/// choices of the inner allocator.
///
/// Freeing memory does not increase the future amount that can be allocated
/// through this allocator. If that is desired, consider a
/// [`BoundedAllocator`](super::BoundedAllocator) instead.
#[derive(Debug)]
pub struct BoundedTotalAllocator<A> {
    capacity: usize,
    remaining: usize,
    inner: A,
}

impl<A> View for BoundedTotalAllocator<A> {
    type V = Budget;

    closed spec fn view(&self) -> Budget {
        Budget { capacity: self.capacity as nat, remaining: self.remaining as nat }
    }
}

impl<A> BoundedTotalAllocator<A> {
    /// What may still be handed out never exceeds the bound.
    #[verifier::type_invariant]
    closed spec fn budget_within_bound(&self) -> bool {
        self.remaining <= self.capacity
    }

    /// The inner allocator.
    pub closed spec fn inner(&self) -> A {
        self.inner
    }

    /// The bytes that may still be handed out never exceed the bound.
    pub open spec fn wf(&self) -> bool {
        self@.wf()
    }

    /// Create a new [`BoundedTotalAllocator`] that may be used to allocate
    /// `bound` bytes over its existence.
    pub fn new(inner: A, bound: usize) -> (s: Self)
        ensures
            s@ == Budget::fresh(bound as nat),
            s.inner() == inner,
            s.wf(),
    {
        BoundedTotalAllocator { capacity: bound, remaining: bound, inner }
    }

    /// The bound this allocator was made with.
    pub fn capacity(&self) -> (c: usize)
        ensures
            c == self@.capacity,
            self.wf(),
    {
        proof {
            use_type_invariant(self);
        }
        self.capacity
    }

    /// The bytes that may still be allocated over the rest of its lifetime.
    pub fn remaining(&self) -> (r: usize)
        ensures
            r == self@.remaining,
            self.wf(),
    {
        proof {
            use_type_invariant(self);
        }
        self.remaining
    }

    /// The inner allocator.
    pub fn inner_allocator(&self) -> (a: &A)
        ensures
            *a == self.inner(),
    {
        &self.inner
    }

    /// Reserve `amount` bytes of the budget, or fail without change if fewer
    /// remain.
    pub fn acquire(&mut self, amount: usize) -> (r: Result<(), AllocError>)
        ensures
            final(self).wf(),
            final(self).inner() == old(self).inner(),
            r == if amount <= old(self)@.remaining {
                Ok::<(), AllocError>(())
            } else {
                Err::<(), AllocError>(AllocError)
            },
            final(self)@ == if r is Ok {
                old(self)@.take(amount as nat)
            } else {
                old(self)@
            },
    {
        proof {
            use_type_invariant(&*self);
        }
        match self.remaining.checked_sub(amount) {
            Some(post) => {
                self.remaining = post;
                Ok(())
            },
            None => Err(AllocError),
        }
    }

    /// Give back a reservation of `amount` bytes for a request that the inner
    /// allocator failed: nothing was allocated, so it stays available.
    pub fn release_err(&mut self, amount: usize)
        requires
            old(self)@.remaining + amount <= old(self)@.capacity,
        ensures
            final(self).wf(),
            final(self).inner() == old(self).inner(),
            final(self)@ == old(self)@.give(amount as nat),
    {
        self.remaining = self.remaining + amount;
    }

    /// Allocate `size` bytes: reserve them, then let `inner_allocate` ask the
    /// inner allocator. Where the inner allocator fails, the reservation is
    /// given back. The inner allocator is not asked when `size` bytes do not
    /// remain.
    pub fn allocate<T, F>(&mut self, size: usize, inner_allocate: F) -> (r: Result<T, AllocError>) where
        F: FnOnce(&A, usize) -> Result<T, AllocError>,
        requires
            size <= old(self)@.remaining ==> inner_allocate.requires((&old(self).inner(), size)),
        ensures
            final(self).wf(),
            final(self).inner() == old(self).inner(),
            total_admits(old(self)@, Event::Allocate { size: size as nat, granted: r is Ok }),
            final(self)@ == total_step(
                old(self)@,
                Event::Allocate { size: size as nat, granted: r is Ok },
            ),
            size > old(self)@.remaining ==> r == Err::<T, AllocError>(AllocError),
            size <= old(self)@.remaining ==> inner_allocate.ensures((&old(self).inner(), size), r),
    {
        proof {
            use_type_invariant(&*self);
        }
        if self.acquire(size).is_err() {
            return Err(AllocError);
        }
        match inner_allocate(&self.inner, size) {
            Ok(allocation) => Ok(allocation),
            Err(e) => {
                self.release_err(size);
                Err(e)
            },
        }
    }

    /// As [`Self::allocate`], for an inner request that zeroes the memory.
    pub fn allocate_zeroed<T, F>(&mut self, size: usize, inner_allocate_zeroed: F) -> (r: Result<
        T,
        AllocError,
    >) where F: FnOnce(&A, usize) -> Result<T, AllocError>,
        requires
            size <= old(self)@.remaining ==> inner_allocate_zeroed.requires((&old(self).inner(), size)),
        ensures
            final(self).wf(),
            final(self).inner() == old(self).inner(),
            total_admits(old(self)@, Event::Allocate { size: size as nat, granted: r is Ok }),
            final(self)@ == total_step(
                old(self)@,
                Event::Allocate { size: size as nat, granted: r is Ok },
            ),
            size > old(self)@.remaining ==> r == Err::<T, AllocError>(AllocError),
            size <= old(self)@.remaining ==> inner_allocate_zeroed.ensures((&old(self).inner(), size),
                r,
            ),
    {
        proof {
            use_type_invariant(&*self);
        }
        if self.acquire(size).is_err() {
            return Err(AllocError);
        }
        match inner_allocate_zeroed(&self.inner, size) {
            Ok(allocation) => Ok(allocation),
            Err(e) => {
                self.release_err(size);
                Err(e)
            },
        }
    }

    /// Free a block of `size` bytes: let `inner_deallocate` give it to the
    /// inner allocator. The budget is not given anything back.
    pub fn deallocate<F>(&mut self, size: usize, inner_deallocate: F) where F: FnOnce(&A, usize)
        requires
            inner_deallocate.requires((&old(self).inner(), size)),
        ensures
            final(self).wf(),
            final(self).inner() == old(self).inner(),
            total_admits(old(self)@, Event::Deallocate { size: size as nat }),
            final(self)@ == total_step(old(self)@, Event::Deallocate { size: size as nat }),
            inner_deallocate.ensures((&old(self).inner(), size), ()),
    {
        proof {
            use_type_invariant(&*self);
        }
        inner_deallocate(&self.inner, size);
    }

    /// Grow a block from `old_size` to `new_size` bytes: reserve the
    /// difference, then let `inner_grow` ask the inner allocator. Where the
    /// inner allocator fails, the reservation is given back. The inner
    /// allocator is not asked when the difference does not remain.
    pub fn grow<T, F>(&mut self, old_size: usize, new_size: usize, inner_grow: F) -> (r: Result<
        T,
        AllocError,
    >) where F: FnOnce(&A, usize, usize) -> Result<T, AllocError>,
        requires
            old_size <= new_size,
            new_size - old_size <= old(self)@.remaining ==> inner_grow.requires((&old(self).inner(), old_size, new_size)),
        ensures
            final(self).wf(),
            final(self).inner() == old(self).inner(),
            total_admits(
                old(self)@,
                Event::Grow { old_size: old_size as nat, new_size: new_size as nat, granted: r is Ok },
            ),
            final(self)@ == total_step(
                old(self)@,
                Event::Grow { old_size: old_size as nat, new_size: new_size as nat, granted: r is Ok },
            ),
            new_size - old_size > old(self)@.remaining ==> r == Err::<T, AllocError>(AllocError),
            new_size - old_size <= old(self)@.remaining ==> inner_grow.ensures((&old(self).inner(), old_size, new_size),
                r,
            ),
    {
        proof {
            use_type_invariant(&*self);
        }
        let additional = new_size - old_size;
        if self.acquire(additional).is_err() {
            return Err(AllocError);
        }
        match inner_grow(&self.inner, old_size, new_size) {
            Ok(allocation) => Ok(allocation),
            Err(e) => {
                self.release_err(additional);
                Err(e)
            },
        }
    }

    /// As [`Self::grow`], for an inner request that zeroes the new memory.
    pub fn grow_zeroed<T, F>(
        &mut self,
        old_size: usize,
        new_size: usize,
        inner_grow_zeroed: F,
    ) -> (r: Result<T, AllocError>) where F: FnOnce(&A, usize, usize) -> Result<T, AllocError>,
        requires
            old_size <= new_size,
            new_size - old_size <= old(self)@.remaining ==> inner_grow_zeroed.requires((&old(self).inner(), old_size, new_size)),
        ensures
            final(self).wf(),
            final(self).inner() == old(self).inner(),
            total_admits(
                old(self)@,
                Event::Grow { old_size: old_size as nat, new_size: new_size as nat, granted: r is Ok },
            ),
            final(self)@ == total_step(
                old(self)@,
                Event::Grow { old_size: old_size as nat, new_size: new_size as nat, granted: r is Ok },
            ),
            new_size - old_size > old(self)@.remaining ==> r == Err::<T, AllocError>(AllocError),
            new_size - old_size <= old(self)@.remaining ==> inner_grow_zeroed.ensures((&old(self).inner(), old_size, new_size),
                r,
            ),
    {
        proof {
            use_type_invariant(&*self);
        }
        let additional = new_size - old_size;
        if self.acquire(additional).is_err() {
            return Err(AllocError);
        }
        match inner_grow_zeroed(&self.inner, old_size, new_size) {
            Ok(allocation) => Ok(allocation),
            Err(e) => {
                self.release_err(additional);
                Err(e)
            },
        }
    }

    /// Shrink a block from `old_size` to `new_size` bytes: let `inner_shrink`
    /// ask the inner allocator. The budget is not given anything back.
    pub fn shrink<T, F>(&mut self, old_size: usize, new_size: usize, inner_shrink: F) -> (r: Result<
        T,
        AllocError,
    >) where F: FnOnce(&A, usize, usize) -> Result<T, AllocError>,
        requires
            new_size <= old_size,
            inner_shrink.requires((&old(self).inner(), old_size, new_size)),
        ensures
            final(self).wf(),
            final(self).inner() == old(self).inner(),
            total_admits(
                old(self)@,
                Event::Shrink {
                    old_size: old_size as nat,
                    new_size: new_size as nat,
                    granted: r is Ok,
                },
            ),
            final(self)@ == total_step(
                old(self)@,
                Event::Shrink {
                    old_size: old_size as nat,
                    new_size: new_size as nat,
                    granted: r is Ok,
                },
            ),
            inner_shrink.ensures((&old(self).inner(), old_size, new_size), r),
    {
        proof {
            use_type_invariant(&*self);
        }
        inner_shrink(&self.inner, old_size, new_size)
    }
}

/// Every admitted request keeps the balance of a
/// [`BoundedTotalAllocator`]: what remains plus the bytes handed out so far is
/// the bound, before and after.
pub proof fn total_step_keeps_balance(b: Budget, e: Event, granted: int)
    requires
        b.remaining + granted == b.capacity,
        total_admits(b, e),
    ensures
        total_step(b, e).remaining + (granted + granted_delta(e)) == total_step(b, e).capacity,
        total_step(b, e).capacity == b.capacity,
{
}

/// Freeing does not return capacity: an allocation of `size` bytes that was
/// served, followed by the deallocation of that block, leaves `size` bytes
/// fewer to hand out than before.
pub proof fn free_does_not_return_capacity(b: Budget, size: nat)
    requires
        b.wf(),
        total_admits(b, Event::Allocate { size, granted: true }),
    ensures
        total_step(
            total_step(b, Event::Allocate { size, granted: true }),
            Event::Deallocate { size },
        ).remaining == b.remaining - size,
{
}

/// What remains to hand out never grows, whatever sequence of admitted
/// requests is made.
pub proof fn remaining_never_grows(b: Budget, events: Seq<Event>)
    requires
        b.wf(),
        total_trace_admitted(b, events),
    ensures
        total_run(b, events).remaining <= b.remaining,
        total_run(b, events).capacity == b.capacity,
        total_run(b, events).wf(),
    decreases events.len(),
{
    if events.len() > 0 {
        remaining_never_grows(b, events.drop_last());
    }
}

/// Over the lifetime of a [`BoundedTotalAllocator`] made with `bound`, the
/// bytes handed out are what its budget lacks, and never more than `bound`,
/// however much of it was freed.
pub proof fn bytes_granted_never_exceed_bound(bound: nat, events: Seq<Event>)
    requires
        total_trace_admitted(Budget::fresh(bound), events),
    ensures
        total_run(Budget::fresh(bound), events).capacity == bound,
        total_run(Budget::fresh(bound), events).remaining == bound - bytes_granted(events),
        0 <= bytes_granted(events) <= bound,
    decreases events.len(),
{
    if events.len() > 0 {
        bytes_granted_never_exceed_bound(bound, events.drop_last());
    }
}

} // verus!
