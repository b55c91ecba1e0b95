//! The user's selection of coalitions and unit categories, and the filter it defines.

use vstd::prelude::*;

use crate::flags::{CoalitionFlag, UnitTypeFlag};
use crate::unit::{Coalition, DcsUnit, Level1UnitType};

verus! {

/// The one-hot mask of a coalition in a `CoalitionFlag`.
pub open spec fn coalition_bit(c: Coalition) -> u8 {
    match c {
        Coalition::NEUTRAL => 1,
        Coalition::REDFOR => 2,
        Coalition::BLUFOR => 4,
    }
}

/// The one-hot mask of a top-level category in a `UnitTypeFlag`.
pub open spec fn unit_type_bit(t: Level1UnitType) -> u8 {
    match t {
        Level1UnitType::GROUND => 1,
        Level1UnitType::AIR => 2,
        Level1UnitType::SEA => 4,
    }
}

/// The settings the user chooses.
#[derive(Debug, Clone, Copy, PartialEq, Eq, Structural)]
pub struct UserConfig {
    /// The coalitions of interest.
    pub coalition_flag: CoalitionFlag,
    /// The unit categories of interest.
    pub unit_type_flag: UnitTypeFlag,
    /// How often the simulator exports units, in frames; not read here.
    pub export_frequency_frames: i32,
}

impl UserConfig {
    pub open spec fn admits_coalition(&self, c: Coalition) -> bool {
        self.coalition_flag.0 & coalition_bit(c) != 0
    }

    pub open spec fn admits_unit_type(&self, t: Level1UnitType) -> bool {
        self.unit_type_flag.0 & unit_type_bit(t) != 0
    }

    /// Whether the unit passes the filter: its coalition's bit and its category's bit are
    /// both set.
    pub fn is_unit_configured(&self, unit: &DcsUnit) -> (r: bool)
        ensures
            r == ((self.coalition_flag.0 & coalition_bit(unit.coalition) != 0) && (
            self.unit_type_flag.0 & unit_type_bit(unit.unit_type.level_1) != 0)),
    {
        self.is_coalition_configured(unit) && self.is_unit_type_configured(unit)
    }

    /// Whether the bit of the unit's category is set.
    pub fn is_unit_type_configured(&self, unit: &DcsUnit) -> (r: bool)
        ensures
            r == self.admits_unit_type(unit.unit_type.level_1),
    {
        match unit.unit_type.level_1 {
            Level1UnitType::AIR => (self.unit_type_flag & UnitTypeFlag::AIR())
                != UnitTypeFlag::empty(),
            Level1UnitType::GROUND => (self.unit_type_flag & UnitTypeFlag::GROUND())
                != UnitTypeFlag::empty(),
            Level1UnitType::SEA => (self.unit_type_flag & UnitTypeFlag::SEA())
                != UnitTypeFlag::empty(),
        }
    }

    /// Whether the bit of the unit's coalition is set.
    pub fn is_coalition_configured(&self, unit: &DcsUnit) -> (r: bool)
        ensures
            r == self.admits_coalition(unit.coalition),
    {
        match unit.coalition {
            Coalition::NEUTRAL => (self.coalition_flag & CoalitionFlag::NEUTRAL())
                != CoalitionFlag::empty(),
            Coalition::REDFOR => (self.coalition_flag & CoalitionFlag::REDFOR())
                != CoalitionFlag::empty(),
            Coalition::BLUFOR => (self.coalition_flag & CoalitionFlag::BLUFOR())
                != CoalitionFlag::empty(),
        }
    }
}

} // verus!
