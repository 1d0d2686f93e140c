//! Virtual-register assembly and bookkeeping core of a register allocator.
//!
//! The liveness stage produces, for each set of coalesced values, a sorted
//! list of live-range segments.  This crate turns those lists into virtual
//! registers — the allocatable units a later coloring pass maps to physical
//! registers or spill slots — and groups virtual registers that must be
//! allocated and evicted as a single unit (for example register pairs).
//!
//! The central type is [`virt_regs::VirtRegs`], a store backed by two
//! append-only pools.  It maintains, for every virtual register, a non-empty
//! ordered list of pairwise-disjoint segments, and for every group a complete
//! member list whose members agree on class and spill weight.

pub mod builder;
pub mod context;
pub mod entities;
pub mod laws;
pub mod segments;
pub mod spill_allocator;
pub mod stats;
pub mod value_live_ranges;
pub mod virt_regs;
