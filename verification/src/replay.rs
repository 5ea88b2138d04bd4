use vstd::prelude::*;

use crate::shared::{Allocation, AllocatorOp};

verus! {

/// What the host knows of one event: an allocation is recorded under its
/// address, a deallocation forgets whatever is recorded under its address.
pub open spec fn apply_op(m: Map<usize, Allocation>, op: AllocatorOp) -> Map<usize, Allocation> {
    match op {
        AllocatorOp::Alloc(a) => m.insert(a.addr(), a),
        AllocatorOp::Dealloc(a) => m.remove(a.addr()),
    }
}

/// The events applied one after another, first to last.
pub open spec fn apply_ops(m: Map<usize, Allocation>, s: Seq<AllocatorOp>) -> Map<usize, Allocation>
    decreases s.len(),
{
    if s.len() == 0 {
        m
    } else {
        apply_op(apply_ops(m, s.drop_last()), s.last())
    }
}

/// The last event of each address in `s`: what a cache keyed by address holds
/// after the events of `s` were put into it in order.
pub open spec fn coalesce(s: Seq<AllocatorOp>) -> Map<usize, AllocatorOp>
    decreases s.len(),
{
    if s.len() == 0 {
        Map::empty()
    } else {
        coalesce(s.drop_last()).insert(s.last().addr(), s.last())
    }
}

/// Every event of the cache is stored under its own address.
pub open spec fn keyed(c: Map<usize, AllocatorOp>) -> bool {
    forall|k: usize| #[trigger] c.contains_key(k) ==> c[k].addr() == k
}

/// The registry after a whole cache was applied: addresses that the cache
/// speaks of end up as its last event says, the others are left alone.
pub open spec fn apply_cache(m: Map<usize, Allocation>, c: Map<usize, AllocatorOp>) -> Map<
    usize,
    Allocation,
> {
    Map::new(
        |k: usize|
            if c.contains_key(k) {
                c[k] is Alloc
            } else {
                m.contains_key(k)
            },
        |k: usize|
            if c.contains_key(k) {
                c[k].allocation()
            } else {
                m[k]
            },
    )
}

/// `t` lists the events of the cache `c`, in any order: each element of `t` is
/// the event that `c` holds under its address, and each address of `c` occurs.
pub open spec fn lists(t: Seq<AllocatorOp>, c: Map<usize, AllocatorOp>) -> bool {
    &&& forall|i: int|
        0 <= i < t.len() ==> c.contains_key(#[trigger] t[i].addr()) && c[t[i].addr()] == t[i]
    &&& forall|k: usize| c.contains_key(k) ==> exists|i: int| 0 <= i < t.len() && #[trigger] t[i].addr() == k
}

/// A cache filled from a history stores each event under its own address.
pub proof fn lemma_coalesce_keyed(s: Seq<AllocatorOp>)
    ensures
        keyed(coalesce(s)),
    decreases s.len(),
{
    if s.len() > 0 {
        lemma_coalesce_keyed(s.drop_last());
    }
}

/// Applying the cache of a history gives the registry that applying the whole
/// history, event by event, gives.
pub proof fn lemma_coalesced_replay(m: Map<usize, Allocation>, s: Seq<AllocatorOp>)
    ensures
        apply_ops(m, s) == apply_cache(m, coalesce(s)),
    decreases s.len(),
{
    if s.len() == 0 {
        assert(apply_cache(m, Map::empty()) =~= m);
    } else {
        let p = s.drop_last();
        let op = s.last();
        lemma_coalesced_replay(m, p);
        assert(apply_op(apply_cache(m, coalesce(p)), op) =~= apply_cache(
            m,
            coalesce(p).insert(op.addr(), op),
        ));
    }
}

/// Every address of the cache of `t` occurs in `t`, and the event stored there
/// is the one of the cache `c` that `t` draws from.
proof fn lemma_coalesce_of_listing(t: Seq<AllocatorOp>, c: Map<usize, AllocatorOp>)
    requires
        forall|i: int|
            0 <= i < t.len() ==> c.contains_key(#[trigger] t[i].addr()) && c[t[i].addr()] == t[i],
    ensures
        forall|k: usize| #[trigger]
            coalesce(t).contains_key(k) <==> exists|i: int| 0 <= i < t.len() && t[i].addr() == k,
        forall|k: usize| #[trigger] coalesce(t).contains_key(k) ==> coalesce(t)[k] == c[k],
    decreases t.len(),
{
    if t.len() > 0 {
        let p = t.drop_last();
        assert forall|i: int| 0 <= i < p.len() implies c.contains_key(#[trigger] p[i].addr())
            && c[p[i].addr()] == p[i] by {
            assert(p[i] == t[i]);
        }
        lemma_coalesce_of_listing(p, c);
        assert forall|k: usize| #[trigger]
            coalesce(t).contains_key(k) <==> exists|i: int| 0 <= i < t.len() && t[i].addr() == k by {
            if coalesce(t).contains_key(k) {
                if k == t.last().addr() {
                    assert(t[t.len() - 1].addr() == k);
                } else {
                    assert(coalesce(p).contains_key(k));
                    let i = choose|i: int| 0 <= i < p.len() && p[i].addr() == k;
                    assert(t[i] == p[i]);
                }
            }
            if exists|i: int| 0 <= i < t.len() && t[i].addr() == k {
                let i = choose|i: int| 0 <= i < t.len() && t[i].addr() == k;
                if i < t.len() - 1 {
                    assert(p[i] == t[i]);
                    assert(coalesce(p).contains_key(k));
                }
            }
        }
        assert(c.contains_key(t[t.len() - 1].addr()));
        assert forall|k: usize| #[trigger] coalesce(t).contains_key(k) implies coalesce(t)[k]
            == c[k] by {
            if k != t.last().addr() {
                assert(coalesce(p).contains_key(k));
            }
        }
    }
}

/// A cache that `t` lists is exactly the cache of `t`.
pub proof fn lemma_listing_coalesces(t: Seq<AllocatorOp>, c: Map<usize, AllocatorOp>)
    requires
        lists(t, c),
    ensures
        coalesce(t) == c,
{
    lemma_coalesce_of_listing(t, c);
    assert forall|k: usize| c.contains_key(k) implies #[trigger] coalesce(t).contains_key(k) by {
        let i = choose|i: int| 0 <= i < t.len() && #[trigger] t[i].addr() == k;
    }
    assert(coalesce(t) =~= c);
}

/// Law: the order in which a cache is sent does not matter. Applying its events
/// in any order that lists them gives the registry that applying the cache gives.
pub proof fn batch_order_is_irrelevant(
    m: Map<usize, Allocation>,
    c: Map<usize, AllocatorOp>,
    t: Seq<AllocatorOp>,
)
    requires
        lists(t, c),
    ensures
        apply_ops(m, t) == apply_cache(m, c),
{
    lemma_listing_coalesces(t, c);
    lemma_coalesced_replay(m, t);
}

/// Law: keeping only the last event per address loses nothing. When the events
/// of a history `s` were cached by address and the cache is sent as a batch `t`
/// in any order, the host that applies `t` ends with the registry that it would
/// have had from every event of `s`, in order.
pub proof fn flushed_batch_replays_history(
    m: Map<usize, Allocation>,
    s: Seq<AllocatorOp>,
    t: Seq<AllocatorOp>,
)
    requires
        lists(t, coalesce(s)),
    ensures
        apply_ops(m, t) == apply_ops(m, s),
{
    batch_order_is_irrelevant(m, coalesce(s), t);
    lemma_coalesced_replay(m, s);
}

/// Applying two histories one after the other is applying their concatenation.
pub proof fn lemma_apply_ops_concat(
    m: Map<usize, Allocation>,
    s1: Seq<AllocatorOp>,
    s2: Seq<AllocatorOp>,
)
    ensures
        apply_ops(apply_ops(m, s1), s2) == apply_ops(m, s1 + s2),
    decreases s2.len(),
{
    if s2.len() == 0 {
        assert(s1 + s2 =~= s1);
    } else {
        lemma_apply_ops_concat(m, s1, s2.drop_last());
        assert((s1 + s2).drop_last() =~= s1 + s2.drop_last());
    }
}

/// Law: batches shipped one after the other add up. When the events of `s1`
/// were shipped as `t1` and the later events of `s2` as `t2`, the host that
/// applies `t1` and then `t2` ends with the registry of the whole history.
pub proof fn consecutive_batches_replay_history(
    m: Map<usize, Allocation>,
    s1: Seq<AllocatorOp>,
    t1: Seq<AllocatorOp>,
    s2: Seq<AllocatorOp>,
    t2: Seq<AllocatorOp>,
)
    requires
        lists(t1, coalesce(s1)),
        lists(t2, coalesce(s2)),
    ensures
        apply_ops(apply_ops(m, t1), t2) == apply_ops(m, s1 + s2),
{
    flushed_batch_replays_history(m, s1, t1);
    flushed_batch_replays_history(apply_ops(m, s1), s2, t2);
    lemma_apply_ops_concat(m, s1, s2);
}

} // verus!
