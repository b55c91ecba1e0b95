//! What the bridge does with each decoded unit record: filter it by the user's
//! selection, then render it as an event for the hub to broadcast.

use vstd::prelude::*;

use crate::config::UserConfig;
use crate::cursor_on_target::{rendered, XmlSerializer};
use crate::mission_time::TimeError;
use crate::unit::DcsUnit;

verus! {

/// The topic the bridge broadcasts unit events on.
pub const UNITS_TOPIC: &'static str = "UNITS";

/// Why a decoded unit is not broadcast.
#[derive(Debug, Clone, Copy, PartialEq, Eq, Structural)]
pub enum UnitDrop {
    /// The user's selection excludes the unit.
    Filtered,
    /// The unit's mission timestamp cannot be derived.
    Time(TimeError),
}

/// The event to broadcast for `unit`, or why there is none: units outside the
/// selection are dropped before rendering.
pub fn process_unit(config: &UserConfig, unit: &DcsUnit) -> (r: Result<String, UnitDrop>)
    ensures
        !(config.admits_coalition(unit.coalition) && config.admits_unit_type(
            unit.unit_type.level_1,
        )) ==> r == Err::<String, UnitDrop>(UnitDrop::Filtered),
        config.admits_coalition(unit.coalition) && config.admits_unit_type(
            unit.unit_type.level_1,
        ) ==> match rendered(*unit) {
            Ok(x) => r matches Ok(s) && s@ == x,
            Err(e) => r == Err::<String, UnitDrop>(UnitDrop::Time(e)),
        },
{
    if !config.is_unit_configured(unit) {
        return Err(UnitDrop::Filtered);
    }
    match XmlSerializer::serialize_dcs_unit(unit) {
        Ok(xml) => Ok(xml),
        Err(e) => Err(UnitDrop::Time(e)),
    }
}

} // verus!
