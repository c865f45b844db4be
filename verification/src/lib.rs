//! alloctools provides a number of tools for working with custom allocators.
//! Its [`wrappers`] limit allocation and deallocation through an inner
//! allocator, and keep the bookkeeping that runtime statistics are read from.
//!
//! The [`noalloc`] module provides a marker for builds in which no global
//! allocator may be used.

pub mod noalloc;
pub mod wrappers;
