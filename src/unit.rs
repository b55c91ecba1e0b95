//! The decoded unit record and the enumerations it carries.

use vstd::prelude::*;

verus! {

/// The top-level unit categories.
#[allow(non_camel_case_types)]
#[derive(Debug, Clone, Copy, PartialEq, Eq, Structural)]
pub enum Level1UnitType {
    AIR,
    GROUND,
    SEA,
}

/// The detailed aircraft categories.
#[allow(non_camel_case_types)]
#[derive(Debug, Clone, Copy, PartialEq, Eq, Structural)]
pub enum AirLevel2UnitType {
    FIXED_WING,
    ROTARY_WING,
}

/// The side a unit belongs to; on the wire NEUTRAL is 0, REDFOR 1 and BLUFOR 2.
#[allow(non_camel_case_types)]
#[derive(Debug, Clone, Copy, PartialEq, Eq, Structural)]
pub enum Coalition {
    NEUTRAL,
    REDFOR,
    BLUFOR,
}

/// The unit categorisation.
#[derive(Debug, Clone, Copy, PartialEq, Eq, Structural)]
pub struct UnitType {
    /// Top-level category.
    pub level_1: Level1UnitType,
    /// Sub-category, carried through unchanged.
    pub level_2: u8,
}

/// Three-dimensional position of a unit. Each coordinate is held as the decimal text of
/// the floating-point value that the producer reported, which is exactly what the
/// renderer emits.
#[derive(Debug, Clone, PartialEq, Eq)]
pub struct Position3D {
    /// Latitude in degrees (64-bit value).
    pub latitude: String,
    /// Longitude in degrees (64-bit value).
    pub longitude: String,
    /// Height above the ellipsoid in meters (32-bit value).
    pub altitude: String,
    /// Heading in radians, carried through and never emitted.
    pub heading: String,
}

/// A unit record as decoded from one datagram.
#[derive(Debug, Clone, PartialEq, Eq)]
pub struct DcsUnit {
    /// The unit's identifier, used as event uid and callsign.
    pub unit_name: String,
    /// The unit's group identifier.
    pub group_name: String,
    pub coalition: Coalition,
    pub position: Position3D,
    pub unit_type: UnitType,
    /// Calendar date of the mission, `YYYY-MM-DD`.
    pub mission_date: String,
    /// Seconds past midnight of `mission_date` at which the mission started.
    pub mission_start_time: i32,
    /// Seconds elapsed since the mission started.
    pub mission_time_elapsed: i32,
}

} // verus!
