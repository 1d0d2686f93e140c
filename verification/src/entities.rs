//! Opaque handles for the entities the allocator works with.
//!
//! Each entity kind gets a distinct 32-bit newtype so that a handle of one
//! kind cannot be used where another kind is expected.  Handles are dense:
//! the store hands them out in creation order, as indices into its tables.

use vstd::prelude::*;

verus! {

/// Index value that no live handle ever carries.  A group member slot holding
/// a [`VirtReg`] with this index is a placeholder for a member that has not
/// been built yet.
pub const RESERVED_INDEX: u32 = 0xFFFF_FFFF;

/// An opaque reference to a virtual register.
#[derive(Clone, Copy, PartialEq, Eq, Structural, Debug)]
pub struct VirtReg(pub u32);

/// An opaque reference to a group of virtual registers that must be allocated
/// and evicted together.
#[derive(Clone, Copy, PartialEq, Eq, Structural, Debug)]
pub struct VirtRegGroup(pub u32);

/// An opaque reference to a program value carried by live-range segments.
#[derive(Clone, Copy, PartialEq, Eq, Structural, Debug)]
pub struct Value(pub u32);

/// An opaque reference to a set of coalesced values handed in by the liveness
/// stage; the spill allocator keys its reservations by it.
#[derive(Clone, Copy, PartialEq, Eq, Structural, Debug)]
pub struct ValueSet(pub u32);

/// An opaque reference to a register bank: the partition of the register file
/// a value must be allocated from.
#[derive(Clone, Copy, PartialEq, Eq, Structural, Debug)]
pub struct RegBank(pub u32);

/// An opaque reference to a register class: the constraint a virtual register
/// carries for its whole lifetime.
#[derive(Clone, Copy, PartialEq, Eq, Structural, Debug)]
pub struct RegClass(pub u32);

impl VirtReg {
    /// Placeholder written into a group member slot before the member itself
    /// is built; it must be overwritten before the group becomes visible.
    pub fn reserved() -> (r: VirtReg)
        ensures
            r.is_reserved(),
    {
        VirtReg(RESERVED_INDEX)
    }

    /// Whether this handle is the not-yet-built placeholder.
    pub open spec fn is_reserved(self) -> bool {
        self.0 == RESERVED_INDEX
    }

    /// Runtime test for the placeholder.
    pub fn is_reserved_value(&self) -> (r: bool)
        ensures
            r == self.is_reserved(),
    {
        self.0 == RESERVED_INDEX
    }
}

} // verus!
