use std::collections::HashMap;

use vstd::prelude::*;

use crate::replay::{apply_op, apply_ops};
use crate::shared::{Allocation, AllocatorOp, AllocatorPtr, CLayout};
use crate::text::{has_prefix, same_text, starts_with};

verus! {

broadcast use vstd::std_specs::hash::group_hash_axioms;

/// Every allocation of the registry is recorded under its own address.
pub open spec fn registry_keyed(m: Map<usize, Allocation>) -> bool {
    forall|k: usize| #[trigger] m.contains_key(k) ==> m[k].addr() == k
}

/// `v` lists the allocations of `m`, each once, in some order.
pub open spec fn lists_allocations(v: Seq<Allocation>, m: Map<usize, Allocation>) -> bool {
    &&& v.len() == m.len()
    &&& forall|i: int| 0 <= i < v.len() ==> m.contains_key(#[trigger] v[i].addr()) && m[v[i].addr()] == v[i]
    &&& forall|k: usize| m.contains_key(k) ==> exists|i: int| 0 <= i < v.len() && #[trigger] v[i].addr() == k
}

/// Why the host refuses a request of the library.
#[derive(Clone, Copy, PartialEq, Eq, Structural, Debug)]
pub enum HostError {
    /// A deallocation was reported for an address that the host does not know.
    UnknownAllocation,
    /// The library has already freed its memory: it was not unloaded since.
    NotUnloaded,
}

/// The host's record of the memory that the library holds.
pub struct AllocRegistry {
    allocs: HashMap<usize, Allocation>,
}

impl View for AllocRegistry {
    type V = Map<usize, Allocation>;

    closed spec fn view(&self) -> Map<usize, Allocation> {
        self.allocs@
    }
}

/// Events keep the registry keyed by address.
pub proof fn lemma_apply_ops_keyed(m: Map<usize, Allocation>, s: Seq<AllocatorOp>)
    requires
        registry_keyed(m),
    ensures
        registry_keyed(apply_ops(m, s)),
    decreases s.len(),
{
    if s.len() > 0 {
        lemma_apply_ops_keyed(m, s.drop_last());
    }
}

impl AllocRegistry {
    #[verifier::type_invariant]
    spec fn inv(self) -> bool {
        registry_keyed(self.allocs@)
    }

    /// An empty registry.
    pub fn new() -> (r: Self)
        ensures
            r@ == Map::<usize, Allocation>::empty(),
    {
        AllocRegistry { allocs: HashMap::new() }
    }

    /// Number of allocations recorded.
    pub fn len(&self) -> (n: usize)
        ensures
            n == self@.len(),
            registry_keyed(self@),
            self@.dom().finite(),
    {
        proof {
            use_type_invariant(self);
        }
        self.allocs.len()
    }

    /// Records an allocation that the library reports at once.
    pub fn on_alloc(&mut self, ptr: usize, layout: CLayout)
        ensures
            old(self)@.dom().finite(),
            final(self)@.dom().finite(),
            final(self)@ == apply_op(
                old(self)@,
                AllocatorOp::Alloc(Allocation(AllocatorPtr(ptr), layout)),
            ),
    {
        proof {
            use_type_invariant(&*self);
        }
        let mut allocs = HashMap::new();
        std::mem::swap(&mut allocs, &mut self.allocs);
        let ptr = AllocatorPtr(ptr);
        allocs.insert(ptr.0, Allocation(ptr, layout));
        self.allocs = allocs;
    }

    /// Forgets an allocation that the library reports as freed at once; an
    /// address that is not recorded is refused, and nothing changes.
    pub fn on_dealloc(&mut self, ptr: usize) -> (r: Result<Allocation, HostError>)
        ensures
            old(self)@.dom().finite(),
            final(self)@.dom().finite(),
            old(self)@.contains_key(ptr) ==> r == Ok::<Allocation, HostError>(old(self)@[ptr])
                && final(self)@ == old(self)@.remove(ptr),
            !old(self)@.contains_key(ptr) ==> r == Err::<Allocation, HostError>(
                HostError::UnknownAllocation,
            ) && final(self)@ == old(self)@,
    {
        proof {
            use_type_invariant(&*self);
        }
        let mut allocs = HashMap::new();
        std::mem::swap(&mut allocs, &mut self.allocs);
        let removed = allocs.remove(&ptr);
        self.allocs = allocs;
        match removed {
            Some(allocation) => Ok(allocation),
            None => Err(HostError::UnknownAllocation),
        }
    }

    /// Applies a batch of events that the library shipped, first to last. A
    /// deallocation of an address that is not recorded is no error here.
    pub fn receive_cached_allocs(&mut self, ops: &[AllocatorOp])
        ensures
            old(self)@.dom().finite(),
            final(self)@.dom().finite(),
            final(self)@ == apply_ops(old(self)@, ops@),
    {
        proof {
            use_type_invariant(&*self);
        }
        let mut allocs = HashMap::new();
        std::mem::swap(&mut allocs, &mut self.allocs);
        let ghost m = allocs@;
        let mut i: usize = 0;
        while i < ops.len()
            invariant
                i <= ops.len(),
                allocs@ == apply_ops(m, ops@.take(i as int)),
            decreases ops.len() - i,
        {
            assert(ops@.take(i + 1).drop_last() =~= ops@.take(i as int));
            match &ops[i] {
                AllocatorOp::Alloc(allocation) => {
                    let Allocation(ptr, ..) = allocation;
                    allocs.insert(ptr.0, *allocation);
                },
                AllocatorOp::Dealloc(Allocation(ptr, ..)) => {
                    let _ = allocs.remove(&ptr.0);
                },
            }
            i = i + 1;
        }
        assert(ops@.take(ops.len() as int) =~= ops@);
        proof {
            lemma_apply_ops_keyed(m, ops@);
        }
        self.allocs = allocs;
    }

    /// Hands out every recorded allocation, in some order, and empties the
    /// registry.
    pub fn take_allocations(&mut self) -> (r: Vec<Allocation>)
        ensures
            old(self)@.dom().finite(),
            final(self)@ == Map::<usize, Allocation>::empty(),
            lists_allocations(r@, old(self)@),
    {
        proof {
            use_type_invariant(&*self);
        }
        let mut allocs = HashMap::new();
        std::mem::swap(&mut allocs, &mut self.allocs);
        let ghost m = allocs@;
        let ghost entries = vstd::std_specs::iter::IteratorSpec::remaining(&allocs.iter());
        let mut out: Vec<Allocation> = Vec::new();
        for entry in it: allocs.iter()
            invariant
                it.seq() == entries,
                out@.len() == it.index(),
                forall|j: int| 0 <= j < it.index() ==> out@[j] == *(#[trigger] it.seq()[j]).1,
        {
            out.push(*entry.1);
        }
        proof {
            assert forall|i: int| 0 <= i < out@.len() implies m.contains_key(
                #[trigger] out@[i].addr(),
            ) && m[out@[i].addr()] == out@[i] by {
                assert(m.contains_key(*entries[i].0));
                assert(m[*entries[i].0] == *entries[i].1);
            }
            assert forall|k: usize| m.contains_key(k) implies exists|i: int|
                0 <= i < out@.len() && #[trigger] out@[i].addr() == k by {
                assert(entries.contains((&k, &m[k])));
                let i = choose|i: int| 0 <= i < entries.len() && entries[i] == (&k, &m[k]);
                assert(out@[i] == m[k]);
            }
        }
        out
    }
}

/// The library must not have freed its memory yet: a library that did so was
/// not unloaded since, and it cannot be started again.
pub fn check_not_exited(exit_deallocation: bool) -> (r: Result<(), HostError>)
    ensures
        r is Ok <==> !exit_deallocation,
        r is Err ==> r == Err::<(), HostError>(HostError::NotUnloaded),
{
    if exit_deallocation {
        Err(HostError::NotUnloaded)
    } else {
        Ok(())
    }
}

/// Whether a message of the library reports a fatal error, after which the host
/// prints a backtrace.
pub fn is_fatal_message(message: &str) -> (r: bool)
    ensures
        r == starts_with(message@, "fatal error:"@),
{
    has_prefix(message, "fatal error:")
}

/// Whether the line read between two runs asks the host to quit.
pub fn is_quit_command(line: &str) -> (r: bool)
    ensures
        r == (line@ == "q\n"@),
{
    same_text(line, "q\n")
}

/// Where the library is built: `target/debug` or `target/release`, by the kind
/// of build of the host.
pub fn library_path(debug_assertions: bool) -> (r: String)
    ensures
        r@ == "target/"@ + (if debug_assertions {
            "debug"@
        } else {
            "release"@
        }) + "/libexample_lib.so"@,
{
    let directory = if debug_assertions {
        "debug"
    } else {
        "release"
    };
    let mut path = String::from_str("target/");
    path.append(directory);
    path.append("/libexample_lib.so");
    path
}

/// Law: reporting the deallocation of a block that was just reported allocated,
/// at an address the registry did not hold, leaves the registry as it was.
pub proof fn dealloc_undoes_alloc(m: Map<usize, Allocation>, ptr: usize, layout: CLayout)
    requires
        !m.contains_key(ptr),
    ensures
        apply_op(m, AllocatorOp::Alloc(Allocation(AllocatorPtr(ptr), layout))).contains_key(ptr),
        apply_op(m, AllocatorOp::Alloc(Allocation(AllocatorPtr(ptr), layout))).remove(ptr) == m,
{
    assert(apply_op(m, AllocatorOp::Alloc(Allocation(AllocatorPtr(ptr), layout))).remove(ptr) =~= m);
}

} // verus!
