//! Bit sets over the coalitions and the top-level unit categories.

use vstd::prelude::*;

verus! {

/// A set of coalitions: NEUTRAL is bit 1, REDFOR bit 2, BLUFOR bit 4.
#[derive(Debug, Clone, Copy, PartialEq, Eq, Structural)]
pub struct CoalitionFlag(pub u8);

impl CoalitionFlag {
    /// The set holding only NEUTRAL, bit 1.
    #[allow(non_snake_case)]
    pub fn NEUTRAL() -> (r: CoalitionFlag)
        ensures
            r.0 == 1,
    {
        CoalitionFlag(1)
    }

    /// The set holding only REDFOR, bit 2.
    #[allow(non_snake_case)]
    pub fn REDFOR() -> (r: CoalitionFlag)
        ensures
            r.0 == 2,
    {
        CoalitionFlag(2)
    }

    /// The set holding only BLUFOR, bit 4.
    #[allow(non_snake_case)]
    pub fn BLUFOR() -> (r: CoalitionFlag)
        ensures
            r.0 == 4,
    {
        CoalitionFlag(4)
    }

    /// The empty set, `CoalitionFlag(0)`.
    pub fn empty() -> (r: CoalitionFlag)
        ensures
            r.0 == 0,
    {
        CoalitionFlag(0)
    }
}

impl core::ops::BitOr for CoalitionFlag {
    type Output = Self;

    fn bitor(self, rhs: Self) -> (r: Self) {
        CoalitionFlag(self.0 | rhs.0)
    }
}

impl vstd::std_specs::ops::BitOrSpecImpl for CoalitionFlag {
    open spec fn obeys_bitor_spec() -> bool {
        true
    }

    open spec fn bitor_req(self, rhs: Self) -> bool {
        true
    }

    open spec fn bitor_spec(self, rhs: Self) -> Self {
        CoalitionFlag(self.0 | rhs.0)
    }
}

impl core::ops::BitAnd for CoalitionFlag {
    type Output = Self;

    fn bitand(self, rhs: Self) -> (r: Self) {
        CoalitionFlag(self.0 & rhs.0)
    }
}

impl core::ops::BitOrAssign for CoalitionFlag {
    fn bitor_assign(&mut self, rhs: Self)
        ensures
            final(self).0 == old(self).0 | rhs.0,
    {
        self.0 = self.0 | rhs.0;
    }
}

impl core::ops::BitAndAssign for CoalitionFlag {
    fn bitand_assign(&mut self, rhs: Self)
        ensures
            final(self).0 == old(self).0 & rhs.0,
    {
        self.0 = self.0 & rhs.0;
    }
}

impl vstd::std_specs::ops::BitAndSpecImpl for CoalitionFlag {
    open spec fn obeys_bitand_spec() -> bool {
        true
    }

    open spec fn bitand_req(self, rhs: Self) -> bool {
        true
    }

    open spec fn bitand_spec(self, rhs: Self) -> Self {
        CoalitionFlag(self.0 & rhs.0)
    }
}

/// A set of top-level unit categories: GROUND is bit 1, AIR bit 2, SEA bit 4.
#[derive(Debug, Clone, Copy, PartialEq, Eq, Structural)]
pub struct UnitTypeFlag(pub u8);

impl UnitTypeFlag {
    /// The set holding only GROUND, bit 1.
    #[allow(non_snake_case)]
    pub fn GROUND() -> (r: UnitTypeFlag)
        ensures
            r.0 == 1,
    {
        UnitTypeFlag(1)
    }

    /// The set holding only AIR, bit 2.
    #[allow(non_snake_case)]
    pub fn AIR() -> (r: UnitTypeFlag)
        ensures
            r.0 == 2,
    {
        UnitTypeFlag(2)
    }

    /// The set holding only SEA, bit 4.
    #[allow(non_snake_case)]
    pub fn SEA() -> (r: UnitTypeFlag)
        ensures
            r.0 == 4,
    {
        UnitTypeFlag(4)
    }

    /// The empty set, `UnitTypeFlag(0)`.
    pub fn empty() -> (r: UnitTypeFlag)
        ensures
            r.0 == 0,
    {
        UnitTypeFlag(0)
    }
}

impl core::ops::BitOr for UnitTypeFlag {
    type Output = Self;

    fn bitor(self, rhs: Self) -> (r: Self) {
        UnitTypeFlag(self.0 | rhs.0)
    }
}

impl vstd::std_specs::ops::BitOrSpecImpl for UnitTypeFlag {
    open spec fn obeys_bitor_spec() -> bool {
        true
    }

    open spec fn bitor_req(self, rhs: Self) -> bool {
        true
    }

    open spec fn bitor_spec(self, rhs: Self) -> Self {
        UnitTypeFlag(self.0 | rhs.0)
    }
}

impl core::ops::BitAnd for UnitTypeFlag {
    type Output = Self;

    fn bitand(self, rhs: Self) -> (r: Self) {
        UnitTypeFlag(self.0 & rhs.0)
    }
}

impl core::ops::BitOrAssign for UnitTypeFlag {
    fn bitor_assign(&mut self, rhs: Self)
        ensures
            final(self).0 == old(self).0 | rhs.0,
    {
        self.0 = self.0 | rhs.0;
    }
}

impl core::ops::BitAndAssign for UnitTypeFlag {
    fn bitand_assign(&mut self, rhs: Self)
        ensures
            final(self).0 == old(self).0 & rhs.0,
    {
        self.0 = self.0 & rhs.0;
    }
}

impl vstd::std_specs::ops::BitAndSpecImpl for UnitTypeFlag {
    open spec fn obeys_bitand_spec() -> bool {
        true
    }

    open spec fn bitand_req(self, rhs: Self) -> bool {
        true
    }

    open spec fn bitand_spec(self, rhs: Self) -> Self {
        UnitTypeFlag(self.0 & rhs.0)
    }
}

} // verus!
