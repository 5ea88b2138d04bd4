use vstd::prelude::*;

use crate::text::{decimal, decimal_string, hex, hex_string};

verus! {

/// Address of a block handed out by the allocator.
#[derive(Clone, Copy, PartialEq, Eq, Structural, Hash, Debug)]
pub struct AllocatorPtr(pub usize);

/// Size and alignment of an allocation, as `std::alloc::Layout` reports them.
#[derive(Clone, Copy, PartialEq, Eq, Structural, Debug)]
pub struct CLayout {
    pub size: usize,
    pub align: usize,
}

/// One allocated block: where it lives and how it was laid out.
#[derive(Clone, Copy, PartialEq, Eq, Structural, Debug)]
pub struct Allocation(pub AllocatorPtr, pub CLayout);

/// An event of the global allocator.
#[derive(Clone, Copy, PartialEq, Eq, Structural, Debug)]
pub enum AllocatorOp {
    Alloc(Allocation),
    Dealloc(Allocation),
}

impl Allocation {
    /// The address of the block, as a plain integer.
    pub open spec fn addr(self) -> usize {
        self.0.0
    }

    /// How an allocation is shown: its address as a pointer is shown, and its size.
    pub open spec fn spec_debug_text(self) -> Seq<char> {
        "(0x"@ + hex(self.addr() as nat) + ", "@ + decimal(self.1.size as nat) + ")"@
    }

    /// The allocation as text: `(0x10, 8)` for 8 bytes at address 16.
    pub fn debug_text(&self) -> (r: String)
        ensures
            r@ == self.spec_debug_text(),
    {
        let mut text = String::from_str("(0x");
        let address = hex_string(self.0.0);
        text.append(address.as_str());
        text.append(", ");
        let size = decimal_string(self.1.size);
        text.append(size.as_str());
        text.append(")");
        text
    }
}

impl AllocatorOp {
    /// The allocation that the event is about.
    pub open spec fn allocation(self) -> Allocation {
        match self {
            AllocatorOp::Alloc(a) => a,
            AllocatorOp::Dealloc(a) => a,
        }
    }

    /// The address that the event is about.
    pub open spec fn addr(self) -> usize {
        self.allocation().addr()
    }

    /// The pointer that the event is about.
    pub fn ptr(&self) -> (r: AllocatorPtr)
        ensures
            r == self.allocation().0,
    {
        match self {
            AllocatorOp::Alloc(Allocation(ptr, ..)) => *ptr,
            AllocatorOp::Dealloc(Allocation(ptr, ..)) => *ptr,
        }
    }
}

} // verus!
