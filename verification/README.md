# alloctools

Wrappers that put a byte budget on an inner allocator, verified with Verus.

- `src/wrappers/bounded.rs`: `BoundedAllocator`, which limits the bytes
  allocated at any one moment; freeing gives bytes back to the budget.
- `src/wrappers/total.rs`: `BoundedTotalAllocator`, which limits the bytes
  allocated over its lifetime; freeing gives nothing back.
- `src/wrappers.rs`: the shared model: `Budget` (the view of a wrapper),
  `Event` (one request and whether it was served), `Block` (an address and a
  length) and `AllocError`.
- `src/noalloc.rs`: the `NoAlloc` marker.

Each operation takes the work of the inner allocator as a closure that is
handed the inner allocator and the sizes the wrapper charges; the contracts say what the budget becomes for every
outcome of that work. Each wrapper module also states its laws over sequences
of requests, as proof functions.

`app/lib.rs` puts each wrapper behind a `Mutex` and implements
`std::alloc::GlobalAlloc` for it, and holds the link-time failing `NoAlloc`
global allocator.
