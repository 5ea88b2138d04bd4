use std::collections::HashMap;

use vstd::prelude::*;

use crate::replay::{apply_ops, coalesce, flushed_batch_replays_history, keyed, lists};
use crate::shared::{Allocation, AllocatorOp, AllocatorPtr, CLayout};

verus! {

broadcast use vstd::std_specs::hash::group_hash_axioms;

/// Number of distinct addresses the cache holds before it is shipped to the host.
pub const CACHE_SIZE: usize = 20_000;

/// The tracking global allocator of the library. It holds no state of its own:
/// what it decides depends on the flags and the cache that it is handed.
#[derive(Default, Debug)]
pub struct CustomAlloc {}

/// Where an event of the allocator goes.
#[derive(Clone, Copy, PartialEq, Eq, Structural, Debug)]
pub enum AllocRoute {
    /// Not recorded at all.
    Skip,
    /// Handed to the host at once.
    Report,
    /// Put into the cache, to be shipped with the next batch.
    Cache,
}

impl CustomAlloc {
    /// The allocator, as the library installs it.
    pub fn new() -> (r: Self)
        ensures
            r == (CustomAlloc {}),
    {
        CustomAlloc {}
    }

    /// Where an allocation goes: while the cache itself is being set up
    /// (`alloc_init`), allocations are reported to the host directly; otherwise
    /// they are cached.
    pub fn alloc_route(&self, alloc_init: bool) -> (r: AllocRoute)
        ensures
            r == (if alloc_init {
                AllocRoute::Report
            } else {
                AllocRoute::Cache
            }),
    {
        if alloc_init {
            AllocRoute::Report
        } else {
            AllocRoute::Cache
        }
    }

    /// Where a deallocation goes: nothing is recorded once the host frees the
    /// remaining memory (`exit_deallocation`); while the cache is being torn
    /// down (`alloc_unload`) deallocations are reported to the host directly;
    /// otherwise they are cached.
    pub fn dealloc_route(&self, exit_deallocation: bool, alloc_unload: bool) -> (r: AllocRoute)
        ensures
            r == (if exit_deallocation {
                AllocRoute::Skip
            } else if alloc_unload {
                AllocRoute::Report
            } else {
                AllocRoute::Cache
            }),
    {
        if exit_deallocation {
            return AllocRoute::Skip;
        }
        if alloc_unload {
            AllocRoute::Report
        } else {
            AllocRoute::Cache
        }
    }
}

/// Why the allocation cache could not be used.
#[derive(Clone, Copy, PartialEq, Eq, Structural, Debug)]
pub enum CacheError {
    /// The cache was never set up, or it was already torn down.
    NotInitialized,
}

/// A slot that has to be filled before it is used.
pub struct InitedGuard<T>(Option<T>);

impl<T> View for InitedGuard<T> {
    type V = Option<T>;

    closed spec fn view(&self) -> Option<T> {
        self.0
    }
}

impl<T> InitedGuard<T> {
    /// An empty slot.
    pub fn uninit() -> (r: Self)
        ensures
            r@ is None,
    {
        InitedGuard(None)
    }

    /// Whether the slot is filled.
    pub fn is_inited(&self) -> (r: bool)
        ensures
            r == self@ is Some,
    {
        self.0.is_some()
    }

    /// The value in the slot, or `NotInitialized` where there is none.
    pub fn as_mut(&mut self) -> (r: Result<&mut T, CacheError>)
        ensures
            match r {
                Ok(v) => old(self)@ == Some(*v) && final(self)@ == Some(*final(v)),
                Err(e) => e == CacheError::NotInitialized && old(self)@ is None && final(self)@
                    == old(self)@,
            },
    {
        match &mut self.0 {
            Some(v) => Ok(v),
            None => Err(CacheError::NotInitialized),
        }
    }

    /// Fills the slot, and hands back what it held before.
    pub fn replace(&mut self, value: T) -> (r: Option<T>)
        ensures
            final(self)@ == Some(value),
            r == old(self)@,
    {
        let mut slot = Some(value);
        std::mem::swap(&mut slot, &mut self.0);
        slot
    }

    /// Empties the slot, and hands back what it held.
    pub fn take(&mut self) -> (r: Option<T>)
        ensures
            final(self)@ is None,
            r == old(self)@,
    {
        self.0.take()
    }
}

/// `after` is `before` followed by the events of the cache `c`, in some order.
pub open spec fn shipped(
    before: Seq<AllocatorOp>,
    after: Seq<AllocatorOp>,
    c: Map<usize, AllocatorOp>,
) -> bool {
    &&& after.len() == before.len() + c.len()
    &&& after.take(before.len() as int) == before
    &&& lists(after.skip(before.len() as int), c)
}

/// Appends every event of `ops` to `transport` and empties `ops`.
fn drain_ops(ops: &mut HashMap<usize, AllocatorOp>, transport: &mut Vec<AllocatorOp>)
    requires
        keyed(old(ops)@),
    ensures
        final(ops)@ == Map::<usize, AllocatorOp>::empty(),
        shipped(old(transport)@, final(transport)@, old(ops)@),
{
    let ghost before = transport@;
    let ghost m = ops@;
    let ghost entries = vstd::std_specs::iter::IteratorSpec::remaining(&ops.iter());
    for entry in it: ops.iter()
        invariant
            it.seq() == entries,
            transport@.len() == before.len() + it.index(),
            transport@.take(before.len() as int) == before,
            forall|j: int|
                0 <= j < it.index() ==> transport@[before.len() + j] == *(#[trigger] it.seq()[j]).1,
    {
        transport.push(*entry.1);
    }
    proof {
        let t = transport@.skip(before.len() as int);
        assert forall|i: int| 0 <= i < t.len() implies m.contains_key(#[trigger] t[i].addr())
            && m[t[i].addr()] == t[i] by {
            assert(t[i] == *entries[i].1);
            assert(m.contains_key(*entries[i].0));
            assert(m[*entries[i].0] == *entries[i].1);
        }
        assert forall|k: usize| m.contains_key(k) implies exists|i: int|
            0 <= i < t.len() && #[trigger] t[i].addr() == k by {
            assert(entries.contains((&k, &m[k])));
            let i = choose|i: int| 0 <= i < entries.len() && entries[i] == (&k, &m[k]);
            assert(t[i] == m[k]);
        }
    }
    ops.clear();
}

/// The cache of allocator events, keyed by address. Only the last event of
/// each address is kept, and it never holds `CACHE_SIZE` addresses: it is
/// shipped as soon as it reaches that size.
pub struct AllocsCache {
    ops: HashMap<usize, AllocatorOp>,
}

impl View for AllocsCache {
    type V = Map<usize, AllocatorOp>;

    closed spec fn view(&self) -> Map<usize, AllocatorOp> {
        self.ops@
    }
}

impl AllocsCache {
    #[verifier::type_invariant]
    spec fn inv(self) -> bool {
        &&& keyed(self.ops@)
        &&& self.ops@.len() < CACHE_SIZE
    }

    /// An empty cache with room for `CACHE_SIZE` addresses.
    pub fn new() -> (r: Self)
        ensures
            r@ == Map::<usize, AllocatorOp>::empty(),
    {
        AllocsCache { ops: HashMap::with_capacity(CACHE_SIZE) }
    }

    /// Number of addresses in the cache.
    pub fn len(&self) -> (n: usize)
        ensures
            n == self@.len(),
            n < CACHE_SIZE,
            keyed(self@),
            self@.dom().finite(),
    {
        proof {
            use_type_invariant(self);
        }
        self.ops.len()
    }

    /// Records `op` under its address; when that fills the cache, ships the
    /// whole cache to the end of `transport` and empties it. Returns whether it
    /// shipped.
    pub fn record(&mut self, op: AllocatorOp, transport: &mut Vec<AllocatorOp>) -> (sent: bool)
        ensures
            keyed(old(self)@),
            old(self)@.dom().finite(),
            old(self)@.len() < CACHE_SIZE,
            ({
                let next = old(self)@.insert(op.addr(), op);
                if next.len() < CACHE_SIZE {
                    &&& !sent
                    &&& final(self)@ == next
                    &&& final(transport)@ == old(transport)@
                } else {
                    &&& sent
                    &&& next.len() == CACHE_SIZE
                    &&& final(self)@ == Map::<usize, AllocatorOp>::empty()
                    &&& shipped(old(transport)@, final(transport)@, next)
                }
            }),
    {
        proof {
            use_type_invariant(&*self);
        }
        let ptr = op.ptr();
        let mut ops = HashMap::new();
        std::mem::swap(&mut ops, &mut self.ops);
        ops.insert(ptr.0, op);
        if ops.len() == CACHE_SIZE {
            drain_ops(&mut ops, transport);
            self.ops = ops;
            true
        } else {
            self.ops = ops;
            false
        }
    }

    /// Ships every cached event to the end of `transport` and empties the cache.
    pub fn drain_into(&mut self, transport: &mut Vec<AllocatorOp>)
        ensures
            keyed(old(self)@),
            old(self)@.dom().finite(),
            old(self)@.len() < CACHE_SIZE,
            final(self)@ == Map::<usize, AllocatorOp>::empty(),
            shipped(old(transport)@, final(transport)@, old(self)@),
    {
        proof {
            use_type_invariant(&*self);
        }
        let mut ops = HashMap::new();
        std::mem::swap(&mut ops, &mut self.ops);
        drain_ops(&mut ops, transport);
        self.ops = ops;
    }
}

/// The shared cache of the library: empty until `init`, and again after `unload`.
pub type AllocsCacheGuard = InitedGuard<AllocsCache>;

/// What the slot of the cache holds, by the cache's view.
pub open spec fn cache_view(g: AllocsCacheGuard) -> Option<Map<usize, AllocatorOp>> {
    match g@ {
        Some(c) => Some(c@),
        None => None,
    }
}

/// What pushing `op` does: without a cache it is refused and nothing changes;
/// otherwise `op` is stored under its address, and when that fills the cache,
/// the whole cache is appended to the transport buffer and emptied.
pub open spec fn push_outcome(
    before: Option<Map<usize, AllocatorOp>>,
    transport_before: Seq<AllocatorOp>,
    op: AllocatorOp,
    after: Option<Map<usize, AllocatorOp>>,
    transport_after: Seq<AllocatorOp>,
    r: Result<bool, CacheError>,
) -> bool {
    match before {
        None => {
            &&& r == Err::<bool, CacheError>(CacheError::NotInitialized)
            &&& after == before
            &&& transport_after == transport_before
        },
        Some(c) => {
            let next = c.insert(op.addr(), op);
            &&& c.dom().finite()
            &&& keyed(c)
            &&& c.len() < CACHE_SIZE
            &&& if next.len() < CACHE_SIZE {
                &&& r == Ok::<bool, CacheError>(false)
                &&& after == Some(next)
                &&& transport_after == transport_before
            } else {
                &&& r == Ok::<bool, CacheError>(true)
                &&& after == Some(Map::<usize, AllocatorOp>::empty())
                &&& shipped(transport_before, transport_after, next)
            }
        },
    }
}

/// Puts `op` into the cache; `Ok(true)` says that the cache was full and now
/// waits in `transport` to be sent to the host.
pub fn push_to_allocs_cache(
    op: AllocatorOp,
    cache: &mut AllocsCacheGuard,
    transport: &mut Vec<AllocatorOp>,
) -> (r: Result<bool, CacheError>)
    ensures
        cache_view(*old(cache)) is Some ==> r is Ok,
        cache_view(*old(cache)) is None ==> r == Err::<bool, CacheError>(CacheError::NotInitialized),
        push_outcome(
            cache_view(*old(cache)),
            old(transport)@,
            op,
            cache_view(*final(cache)),
            final(transport)@,
            r,
        ),
{
    match cache.as_mut() {
        Ok(c) => Ok(c.record(op, transport)),
        Err(e) => Err(e),
    }
}

/// Caches the allocation of `layout` at `ptr`.
pub fn save_alloc_in_buffer(
    ptr: usize,
    layout: CLayout,
    cache: &mut AllocsCacheGuard,
    transport: &mut Vec<AllocatorOp>,
) -> (r: Result<bool, CacheError>)
    ensures
        cache_view(*old(cache)) is Some ==> r is Ok,
        cache_view(*old(cache)) is None ==> r == Err::<bool, CacheError>(CacheError::NotInitialized),
        push_outcome(
            cache_view(*old(cache)),
            old(transport)@,
            AllocatorOp::Alloc(Allocation(AllocatorPtr(ptr), layout)),
            cache_view(*final(cache)),
            final(transport)@,
            r,
        ),
{
    push_to_allocs_cache(AllocatorOp::Alloc(Allocation(AllocatorPtr(ptr), layout)), cache, transport)
}

/// Caches the deallocation of `layout` at `ptr`.
pub fn save_dealloc_in_buffer(
    ptr: usize,
    layout: CLayout,
    cache: &mut AllocsCacheGuard,
    transport: &mut Vec<AllocatorOp>,
) -> (r: Result<bool, CacheError>)
    ensures
        cache_view(*old(cache)) is Some ==> r is Ok,
        cache_view(*old(cache)) is None ==> r == Err::<bool, CacheError>(CacheError::NotInitialized),
        push_outcome(
            cache_view(*old(cache)),
            old(transport)@,
            AllocatorOp::Dealloc(Allocation(AllocatorPtr(ptr), layout)),
            cache_view(*final(cache)),
            final(transport)@,
            r,
        ),
{
    let ptr = AllocatorPtr(ptr);
    push_to_allocs_cache(AllocatorOp::Dealloc(Allocation(ptr, layout)), cache, transport)
}

/// Moves every cached event to the end of the transport buffer, from which
/// the host takes them, and empties the cache.
pub fn send_cached_allocs(cache: &mut AllocsCacheGuard, transport: &mut Vec<AllocatorOp>) -> (r:
    Result<(), CacheError>)
    ensures
        match cache_view(*old(cache)) {
            Some(c) => {
                &&& c.dom().finite()
                &&& keyed(c)
                &&& c.len() < CACHE_SIZE
                &&& r is Ok
                &&& cache_view(*final(cache)) == Some(Map::<usize, AllocatorOp>::empty())
                &&& shipped(old(transport)@, final(transport)@, c)
            },
            None => {
                &&& r == Err::<(), CacheError>(CacheError::NotInitialized)
                &&& cache_view(*final(cache)) == cache_view(*old(cache))
                &&& final(transport)@ == old(transport)@
            },
        },
{
    match cache.as_mut() {
        Ok(c) => {
            c.drain_into(transport);
            Ok(())
        },
        Err(e) => Err(e),
    }
}

/// Sets up an empty cache in the empty slot, and makes room in the transport
/// buffer for a full cache. A cache that is already set up is not replaced:
/// dropping it would free its table while the cache is held.
pub fn init(cache: &mut AllocsCacheGuard, transport: &mut Vec<AllocatorOp>)
    requires
        old(cache)@ is None,
    ensures
        cache_view(*final(cache)) == Some(Map::<usize, AllocatorOp>::empty()),
        final(transport)@ == old(transport)@,
{
    cache.replace(AllocsCache::new());
    transport.reserve(CACHE_SIZE);
}

/// Tears the cache down and hands it back; `NotInitialized` when there was none.
pub fn unload(cache: &mut AllocsCacheGuard) -> (r: Result<AllocsCache, CacheError>)
    ensures
        cache_view(*final(cache)) is None,
        match r {
            Ok(c) => old(cache)@ == Some(c),
            Err(e) => e == CacheError::NotInitialized && old(cache)@ is None,
        },
{
    match cache.take() {
        Some(c) => Ok(c),
        None => Err(CacheError::NotInitialized),
    }
}

/// Law: the cache is a faithful summary of the events since the last shipment.
/// When it held the last event per address of the history `s`, pushing `op`
/// either leaves it holding that summary of `s` followed by `op`, or ships a
/// batch from which the host rebuilds exactly the registry that every event of
/// `s` and `op`, in order, gives.
pub proof fn push_keeps_history(
    m: Map<usize, Allocation>,
    s: Seq<AllocatorOp>,
    transport_before: Seq<AllocatorOp>,
    op: AllocatorOp,
    after: Option<Map<usize, AllocatorOp>>,
    transport_after: Seq<AllocatorOp>,
    r: Result<bool, CacheError>,
)
    requires
        push_outcome(Some(coalesce(s)), transport_before, op, after, transport_after, r),
    ensures
        r is Ok,
        r == Ok::<bool, CacheError>(false) ==> after == Some(coalesce(s.push(op))),
        r == Ok::<bool, CacheError>(true) ==> apply_ops(
            m,
            transport_after.skip(transport_before.len() as int),
        ) == apply_ops(m, s.push(op)),
{
    let h = s.push(op);
    assert(h.drop_last() =~= s);
    assert(coalesce(h) == coalesce(s).insert(op.addr(), op));
    if r == Ok::<bool, CacheError>(true) {
        flushed_batch_replays_history(m, h, transport_after.skip(transport_before.len() as int));
    }
}

/// Law: a set-up cache takes every event. Pushing `op` into a cache that is set
/// up succeeds, and `op` is not lost: either the cache now holds it under its
/// address, or it was shipped, with the rest of the cache, to the end of the
/// transport buffer, which keeps what it held before.
pub proof fn push_into_set_up_cache_keeps_event(
    c: Map<usize, AllocatorOp>,
    transport_before: Seq<AllocatorOp>,
    op: AllocatorOp,
    after: Option<Map<usize, AllocatorOp>>,
    transport_after: Seq<AllocatorOp>,
    r: Result<bool, CacheError>,
)
    requires
        push_outcome(Some(c), transport_before, op, after, transport_after, r),
    ensures
        r is Ok,
        after is Some,
        r == Ok::<bool, CacheError>(false) ==> after->0.contains_key(op.addr()) && after->0[op.addr()]
            == op && transport_after == transport_before,
        r == Ok::<bool, CacheError>(true) ==> after->0.is_empty() && transport_after.take(
            transport_before.len() as int,
        ) == transport_before && transport_after.skip(transport_before.len() as int).contains(op),
{
    let next = c.insert(op.addr(), op);
    if r == Ok::<bool, CacheError>(true) {
        let t = transport_after.skip(transport_before.len() as int);
        assert(next.contains_key(op.addr()));
        let i = choose|i: int| 0 <= i < t.len() && #[trigger] t[i].addr() == op.addr();
        assert(t[i] == next[t[i].addr()]);
        assert(after->0 =~= Map::<usize, AllocatorOp>::empty());
    }
}

/// Law: shipping the cache loses nothing. When the cache held the last event per
/// address of the history `s`, the batch that `send_cached_allocs` appends lets
/// the host rebuild the registry that every event of `s`, in order, gives.
pub proof fn shipped_cache_replays_history(
    m: Map<usize, Allocation>,
    s: Seq<AllocatorOp>,
    transport_before: Seq<AllocatorOp>,
    transport_after: Seq<AllocatorOp>,
)
    requires
        shipped(transport_before, transport_after, coalesce(s)),
    ensures
        apply_ops(m, transport_after.skip(transport_before.len() as int)) == apply_ops(m, s),
{
    flushed_batch_replays_history(m, s, transport_after.skip(transport_before.len() as int));
}

} // verus!
