//! Allocator that fails at link time.
//!
//! `NoAlloc` stands for a global allocator whose every use is an unresolved
//! symbol, so that a program which allocates through it does not link. The
//! registration as the global allocator lives with the program that does it.

use vstd::prelude::*;

verus! {

/// Allocator which causes linker errors on use.
pub struct NoAlloc;

} // verus!
