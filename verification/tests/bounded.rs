use std::cell::{Cell, RefCell};

use alloctools::wrappers::{AllocError, Block, BoundedAllocator};

/// An inner allocator for the tests: it hands out buffers of the global
/// allocator, each 64 bytes longer than asked for, and counts its calls.
struct Pool {
    blocks: RefCell<Vec<Vec<u8>>>,
    calls: Cell<usize>,
}

impl Pool {
    const SLACK: usize = 64;

    fn new() -> Pool {
        Pool { blocks: RefCell::new(Vec::new()), calls: Cell::new(0) }
    }

    fn hand_out(&self, buffer: Vec<u8>) -> Result<Block, AllocError> {
        self.calls.set(self.calls.get() + 1);
        let block = Block { addr: buffer.as_ptr() as usize, len: buffer.capacity() };
        self.blocks.borrow_mut().push(buffer);
        Ok(block)
    }

    fn allocate(&self, size: usize) -> Result<Block, AllocError> {
        self.hand_out(Vec::with_capacity(size + Self::SLACK))
    }

    fn allocate_zeroed(&self, size: usize) -> Result<Block, AllocError> {
        self.hand_out(vec![0u8; size + Self::SLACK])
    }

    fn take_back(&self, addr: usize) -> Vec<u8> {
        let mut blocks = self.blocks.borrow_mut();
        let at = blocks.iter().position(|b| b.as_ptr() as usize == addr).expect("a live block");
        blocks.swap_remove(at)
    }

    fn deallocate(&self, addr: usize) {
        self.calls.set(self.calls.get() + 1);
        drop(self.take_back(addr));
    }

    fn resize(&self, addr: usize, new_size: usize) -> Result<Block, AllocError> {
        let old = self.take_back(addr);
        let mut buffer: Vec<u8> = Vec::with_capacity(new_size + Self::SLACK);
        buffer.extend_from_slice(&old);
        self.hand_out(buffer)
    }

    fn fill(&self, addr: usize, n: usize) {
        let mut blocks = self.blocks.borrow_mut();
        let block = blocks.iter_mut().find(|b| b.as_ptr() as usize == addr).expect("a live block");
        block.extend(core::iter::repeat(0).take(n));
    }

    fn filled(&self, addr: usize) -> usize {
        let blocks = self.blocks.borrow();
        blocks.iter().find(|b| b.as_ptr() as usize == addr).map(|b| b.len()).unwrap_or(0)
    }

    fn live(&self) -> usize {
        self.blocks.borrow().len()
    }

    fn calls(&self) -> usize {
        self.calls.get()
    }
}

#[test]
fn bounded_allocator_basic() {
    let mut alloc = BoundedAllocator::new(Pool::new(), 1024);

    let data = alloc.allocate(128, |p: &Pool, n: usize| p.allocate(n)).unwrap();
    alloc.inner_allocator().fill(data.addr, 128);
    // should not crash
    assert_eq!(data.len, 128);
    assert_eq!(alloc.inner_allocator().filled(data.addr), 128);
    assert_eq!(alloc.remaining(), 1024 - 128);
}

#[test]
#[should_panic]
fn bounded_allocator_enforces_limit() {
    let mut alloc = BoundedAllocator::new(Pool::new(), 128);

    let data = match alloc.allocate(129, |p: &Pool, n: usize| p.allocate(n)) {
        Ok(data) => data,
        Err(AllocError) => panic!("memory allocation of {} bytes failed", 129),
    };
    alloc.inner_allocator().fill(data.addr, 129);
}

#[test]
fn bounded_allocator_free_returns_capacity() {
    let mut alloc = BoundedAllocator::new(Pool::new(), 1024);

    for _ in 0..16 {
        let data = alloc.allocate(128, |p: &Pool, n: usize| p.allocate(n)).unwrap();
        alloc.inner_allocator().fill(data.addr, 128);
        alloc.deallocate(128, |p: &Pool, _: usize| p.deallocate(data.addr));
    }
    // should not crash
    assert_eq!(alloc.remaining(), 1024);
    assert_eq!(alloc.inner_allocator().live(), 0);
}

#[test]
fn bounded_new_starts_full() {
    let alloc = BoundedAllocator::new(7u32, 4096);
    assert_eq!(alloc.capacity(), 4096);
    assert_eq!(alloc.remaining(), 4096);
    assert_eq!(*alloc.inner_allocator(), 7);
}

#[test]
fn bounded_served_blocks_fit_exactly() {
    let mut alloc = BoundedAllocator::new(Pool::new(), 1000);
    let a = alloc.allocate(100, |p: &Pool, n: usize| p.allocate(n)).unwrap();
    assert_eq!(a.len, 100);
    let z = alloc.allocate_zeroed(50, |p: &Pool, n: usize| p.allocate_zeroed(n)).unwrap();
    assert_eq!(z.len, 50);
    let g = alloc.grow(100, 300, |p: &Pool, _: usize, n: usize| p.resize(a.addr, n)).unwrap();
    assert_eq!(g.len, 300);
    let gz = alloc.grow_zeroed(50, 80, |p: &Pool, _: usize, n: usize| p.resize(z.addr, n)).unwrap();
    assert_eq!(gz.len, 80);
    let s = alloc.shrink(300, 10, |p: &Pool, _: usize, n: usize| p.resize(g.addr, n)).unwrap();
    assert_eq!(s.len, 10);
    assert_eq!(alloc.remaining(), 1000 - 10 - 80);
    assert_eq!(alloc.inner_allocator().live(), 2);
}

#[test]
fn bounded_refused_request_leaves_budget_and_skips_inner() {
    let mut alloc = BoundedAllocator::new(Pool::new(), 100);
    assert_eq!(alloc.allocate(101, |p: &Pool, n: usize| p.allocate(n)), Err(AllocError));
    assert_eq!(alloc.allocate_zeroed(101, |p: &Pool, n: usize| p.allocate_zeroed(n)), Err(AllocError));
    assert_eq!(alloc.inner_allocator().calls(), 0);
    assert_eq!(alloc.remaining(), 100);
    let a = alloc.allocate(60, |p: &Pool, n: usize| p.allocate(n)).unwrap();
    assert_eq!(alloc.grow(60, 101, |p: &Pool, _: usize, n: usize| p.resize(a.addr, n)), Err(AllocError));
    assert_eq!(alloc.grow_zeroed(60, 101, |p: &Pool, _: usize, n: usize| p.resize(a.addr, n)), Err(AllocError));
    assert_eq!(alloc.inner_allocator().calls(), 1);
    assert_eq!(alloc.remaining(), 40);
}

#[test]
fn bounded_exact_fit_then_nothing() {
    let mut alloc = BoundedAllocator::new(Pool::new(), 100);
    assert!(alloc.allocate(100, |p: &Pool, n: usize| p.allocate(n)).is_ok());
    assert_eq!(alloc.remaining(), 0);
    assert_eq!(alloc.allocate(1, |p: &Pool, n: usize| p.allocate(n)), Err(AllocError));
    assert_eq!(alloc.allocate(0, |p: &Pool, n: usize| p.allocate(n)).map(|b| b.len), Ok(0));
    assert_eq!(alloc.remaining(), 0);
}

#[test]
fn bounded_inner_failure_gives_reservation_back() {
    let mut alloc = BoundedAllocator::new(Pool::new(), 256);
    assert_eq!(alloc.allocate(200, |_: &Pool, _: usize| Err(AllocError)), Err(AllocError));
    assert_eq!(alloc.remaining(), 256);
    assert_eq!(alloc.allocate_zeroed(200, |_: &Pool, _: usize| Err(AllocError)), Err(AllocError));
    assert_eq!(alloc.remaining(), 256);
    let a = alloc.allocate(100, |p: &Pool, n: usize| p.allocate(n)).unwrap();
    assert_eq!(alloc.grow(100, 150, |_: &Pool, _: usize, _: usize| Err(AllocError)), Err(AllocError));
    assert_eq!(alloc.grow_zeroed(100, 150, |_: &Pool, _: usize, _: usize| Err(AllocError)), Err(AllocError));
    assert_eq!(alloc.remaining(), 156);
    assert_eq!(alloc.shrink(100, 10, |_: &Pool, _: usize, _: usize| Err(AllocError)), Err(AllocError));
    assert_eq!(alloc.remaining(), 156);
    assert_eq!(alloc.inner_allocator().filled(a.addr), 0);
}

#[test]
fn bounded_allocate_zeroed_takes_its_size() {
    let mut alloc = BoundedAllocator::new(Pool::new(), 64);
    let z = alloc.allocate_zeroed(48, |p: &Pool, n: usize| p.allocate_zeroed(n)).unwrap();
    assert_eq!(z.len, 48);
    assert_eq!(alloc.inner_allocator().filled(z.addr), 48 + Pool::SLACK);
    assert_eq!(alloc.remaining(), 16);
    assert_eq!(alloc.allocate_zeroed(17, |p: &Pool, n: usize| p.allocate_zeroed(n)), Err(AllocError));
    assert_eq!(alloc.remaining(), 16);
}

#[test]
fn bounded_grow_takes_the_difference() {
    let mut alloc = BoundedAllocator::new(Pool::new(), 100);
    let a = alloc.allocate(40, |p: &Pool, n: usize| p.allocate(n)).unwrap();
    let g = alloc.grow(40, 90, |p: &Pool, _: usize, n: usize| p.resize(a.addr, n)).unwrap();
    assert_eq!(alloc.remaining(), 10);
    let g2 = alloc.grow_zeroed(90, 100, |p: &Pool, _: usize, n: usize| p.resize(g.addr, n)).unwrap();
    assert_eq!(g2.len, 100);
    assert_eq!(alloc.remaining(), 0);
}

#[test]
fn bounded_shrink_gives_the_difference_back() {
    let mut alloc = BoundedAllocator::new(Pool::new(), 100);
    let a = alloc.allocate(80, |p: &Pool, n: usize| p.allocate(n)).unwrap();
    let s = alloc.shrink(80, 30, |p: &Pool, _: usize, n: usize| p.resize(a.addr, n)).unwrap();
    assert_eq!(s.len, 30);
    assert_eq!(alloc.remaining(), 70);
}

#[test]
fn bounded_shrink_undoes_grow() {
    let mut alloc = BoundedAllocator::new(Pool::new(), 100);
    let a = alloc.allocate(10, |p: &Pool, n: usize| p.allocate(n)).unwrap();
    let g = alloc.grow(10, 60, |p: &Pool, _: usize, n: usize| p.resize(a.addr, n)).unwrap();
    let s = alloc.shrink(60, 10, |p: &Pool, _: usize, n: usize| p.resize(g.addr, n)).unwrap();
    assert_eq!(s.len, 10);
    assert_eq!(alloc.remaining(), 90);
}

#[test]
fn bounded_deallocate_frees_in_the_inner_allocator() {
    let mut alloc = BoundedAllocator::new(Pool::new(), 100);
    let a = alloc.allocate(30, |p: &Pool, n: usize| p.allocate(n)).unwrap();
    assert_eq!(alloc.inner_allocator().live(), 1);
    alloc.deallocate(30, |p: &Pool, _: usize| p.deallocate(a.addr));
    assert_eq!(alloc.inner_allocator().live(), 0);
    assert_eq!(alloc.inner_allocator().calls(), 2);
    assert_eq!(alloc.remaining(), 100);
}

#[test]
fn bounded_acquire_and_release() {
    let mut alloc = BoundedAllocator::new(Pool::new(), 10);
    assert_eq!(alloc.acquire(11), Err(AllocError));
    assert_eq!(alloc.remaining(), 10);
    assert_eq!(alloc.acquire(4), Ok(()));
    assert_eq!(alloc.remaining(), 6);
    alloc.release_err(4);
    assert_eq!(alloc.remaining(), 10);
    assert_eq!(alloc.acquire(10), Ok(()));
    assert_eq!(alloc.remaining(), 0);
    alloc.release(3);
    assert_eq!(alloc.remaining(), 3);
}

#[test]
fn bounded_held_bytes_stay_within_bound() {
    let mut alloc = BoundedAllocator::new(Pool::new(), 300);
    let mut held: usize = 0;
    let sizes = [100usize, 150, 80, 60, 300, 20];
    let mut live: Vec<Block> = Vec::new();
    for (i, size) in sizes.iter().enumerate() {
        if let Ok(block) = alloc.allocate(*size, |p: &Pool, n: usize| p.allocate(n)) {
            held += block.len;
            live.push(block);
        }
        if i % 2 == 1 {
            if let Some(freed) = live.pop() {
                alloc.deallocate(freed.len, |p: &Pool, _: usize| p.deallocate(freed.addr));
                held -= freed.len;
            }
        }
        assert!(held <= 300);
        assert_eq!(alloc.remaining(), 300 - held);
    }
}
