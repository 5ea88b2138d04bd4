//! Allocation bookkeeping for a dynamic library that has to be unloadable.
//!
//! The library side records every allocation and deallocation made through its
//! global allocator, keeps the last event of each address in a cache, and ships
//! the cache to the host in batches; the host keeps the set of live allocations
//! and frees what is left when the library is unloaded. Thread-local
//! destructors of the main thread are kept in a registry of the library so
//! that they can be run before unloading.
pub mod shared;
pub mod replay;
pub mod custom_alloc;
pub mod dtors;
pub mod host;
pub mod text;

pub use shared::{Allocation, AllocatorOp, AllocatorPtr, CLayout};
pub use custom_alloc::{AllocRoute, AllocsCache, AllocsCacheGuard, CacheError, CustomAlloc, InitedGuard};
