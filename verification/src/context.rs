//! Plain-data views of the two metadata collaborators that virtual-register
//! construction consults: the function under compilation (which bank each
//! value belongs to) and the register-file description (spill-slot size per
//! bank, class per bank, required group size per class).

use vstd::prelude::*;

use crate::entities::{RegBank, RegClass, Value};

verus! {

/// Per-bank metadata: the spill-slot size reserved for values of the bank and
/// the register class virtual registers of the bank are constrained to.
#[derive(Clone, Copy, PartialEq, Eq, Structural, Debug)]
pub struct RegBankInfo {
    pub spillslot_size: u32,
    pub class: RegClass,
}

/// Per-class metadata: how many virtual registers a group of this class must
/// have; 1 for classes whose registers are allocated alone.
#[derive(Clone, Copy, PartialEq, Eq, Structural, Debug)]
pub struct RegClassInfo {
    pub group_size: u8,
}

/// The function under compilation, reduced to the single total query this
/// crate makes of it: the register bank of each value.
#[derive(Clone, PartialEq, Eq, Debug)]
pub struct FuncInfo {
    /// Bank of value `v`, indexed by `v`'s handle.
    pub value_banks: Vec<RegBank>,
}

impl FuncInfo {
    pub fn new(value_banks: Vec<RegBank>) -> (r: FuncInfo)
        ensures
            r.value_banks@ == value_banks@,
    {
        FuncInfo { value_banks }
    }

    pub open spec fn num_values(self) -> int {
        self.value_banks@.len() as int
    }

    pub open spec fn valid_value(self, v: Value) -> bool {
        (v.0 as int) < self.num_values()
    }

    pub open spec fn bank_of(self, v: Value) -> RegBank {
        self.value_banks@[v.0 as int]
    }

    /// Register bank of `value`; a total function over the function's values.
    pub fn value_bank(&self, value: Value) -> (r: RegBank)
        requires
            self.valid_value(value),
        ensures
            r == self.bank_of(value),
    {
        self.value_banks[value.0 as usize]
    }
}

/// The register-file description, reduced to the queries this crate makes.
#[derive(Clone, PartialEq, Eq, Debug)]
pub struct RegInfoTable {
    pub banks: Vec<RegBankInfo>,
    pub classes: Vec<RegClassInfo>,
}

impl RegInfoTable {
    pub fn new(banks: Vec<RegBankInfo>, classes: Vec<RegClassInfo>) -> (r: RegInfoTable)
        ensures
            r.banks@ == banks@,
            r.classes@ == classes@,
    {
        RegInfoTable { banks, classes }
    }

    pub open spec fn num_banks(self) -> int {
        self.banks@.len() as int
    }

    pub open spec fn num_classes(self) -> int {
        self.classes@.len() as int
    }

    pub open spec fn valid_bank(self, b: RegBank) -> bool {
        (b.0 as int) < self.num_banks()
    }

    pub open spec fn valid_class(self, c: RegClass) -> bool {
        (c.0 as int) < self.num_classes()
    }

    pub open spec fn bank_class_of(self, b: RegBank) -> RegClass {
        self.banks@[b.0 as int].class
    }

    pub open spec fn spillslot_size_of(self, b: RegBank) -> u32 {
        self.banks@[b.0 as int].spillslot_size
    }

    pub open spec fn group_size_of(self, c: RegClass) -> int {
        self.classes@[c.0 as int].group_size as int
    }

    /// Every bank names a known class, and every class asks for at least one
    /// group member.
    pub open spec fn wf(self) -> bool {
        &&& forall|b: int|
            0 <= b < self.banks@.len() ==> ((#[trigger] self.banks@[b]).class.0 as int)
                < self.num_classes()
        &&& forall|c: int| 0 <= c < self.classes@.len() ==> (#[trigger] self.classes@[c]).group_size >= 1
    }

    /// Size of the spill slot a value of bank `b` needs; fixed per bank.
    pub fn spillslot_size(&self, b: RegBank) -> (r: u32)
        requires
            self.valid_bank(b),
        ensures
            r == self.spillslot_size_of(b),
    {
        self.banks[b.0 as usize].spillslot_size
    }

    /// Register class that virtual registers of bank `b` are built with.
    pub fn bank_class(&self, b: RegBank) -> (r: RegClass)
        requires
            self.valid_bank(b),
        ensures
            r == self.bank_class_of(b),
    {
        self.banks[b.0 as usize].class
    }

    /// Required member count of a group of class `c`.
    pub fn class_group_size(&self, c: RegClass) -> (r: u8)
        requires
            self.wf(),
            self.valid_class(c),
        ensures
            r as int == self.group_size_of(c),
            r >= 1,
    {
        self.classes[c.0 as usize].group_size
    }
}

} // verus!
