# dylib_reload

Bookkeeping that lets a Rust dynamic library be unloaded and loaded again
without leaking: every allocation and deallocation of the library's global
allocator reaches the host, either at once or through a cache keyed by address
that is shipped in batches; the host keeps the live allocations and frees them
before it unloads the library. Destructors of the main thread's thread-locals
are kept in a registry of the library and run, last registered first, before
unloading.

- `src/` — the verified library (Verus):
  - `shared`: allocator events and allocations;
  - `replay`: what the host makes of a history of events, and the proofs that
    a cache that keeps the last event per address, shipped in any order, gives
    the host the same record as every event in order;
  - `custom_alloc`: routing of allocator events, the cache and its shipping;
  - `host`: the host's registry of live allocations and its small decisions;
  - `dtors`: the destructor registry and the routing of thread-local
    destructors;
  - `text`: prefixes, decimal and hexadecimal writing.
- `app/` — the library's FFI glue (global allocator, `__cxa_thread_atexit_impl`,
  exported functions) and the host program that loads and unloads it.
- `tests/` — tests of the library.
