//! The three-level event-type code of a unit, such as `a-h-A`.

use vstd::prelude::*;

use crate::unit::{Coalition, DcsUnit, Level1UnitType};

verus! {

/// The letter of a coalition in the event-type code.
pub open spec fn coalition_letter(c: Coalition) -> char {
    match c {
        Coalition::NEUTRAL => 'n',
        Coalition::REDFOR => 'h',
        Coalition::BLUFOR => 'f',
    }
}

/// The letter of a top-level category in the event-type code.
pub open spec fn unit_type_letter(t: Level1UnitType) -> char {
    match t {
        Level1UnitType::AIR => 'A',
        Level1UnitType::GROUND => 'G',
        Level1UnitType::SEA => 'S',
    }
}

/// The event-type code of a unit: `a-<coalition>-<category>`.
pub open spec fn type_code(unit: DcsUnit) -> Seq<char> {
    seq!['a', '-', coalition_letter(unit.coalition), '-', unit_type_letter(unit.unit_type.level_1)]
}

/// Relies on std's `String::push`: appends one character.
#[verifier::external_body]
fn push_char(s: &mut String, c: char)
    ensures
        final(s)@ == old(s)@.push(c),
{
    s.push(c)
}

/// A hierarchical event-type code of three levels.
#[derive(Debug, Clone, Copy, PartialEq, Eq, Structural)]
pub struct AtomicEvent {
    pub level_1: char,
    pub level_2: char,
    pub level_3: char,
}

impl AtomicEvent {
    /// The code of a unit: `a`, then its coalition's letter, then its category's letter.
    pub fn from(unit: &DcsUnit) -> (r: AtomicEvent)
        ensures
            r == (AtomicEvent {
                level_1: 'a',
                level_2: coalition_letter(unit.coalition),
                level_3: unit_type_letter(unit.unit_type.level_1),
            }),
    {
        AtomicEvent {
            level_1: 'a',
            level_2: coalition_to_atomic_event_char(&unit.coalition),
            level_3: level_1_unit_type_char(&unit.unit_type.level_1),
        }
    }

    /// The levels joined by dashes.
    pub fn to_string(&self) -> (r: String)
        ensures
            r@ == seq![self.level_1, '-', self.level_2, '-', self.level_3],
    {
        let mut s = String::new();
        push_char(&mut s, self.level_1);
        push_char(&mut s, '-');
        push_char(&mut s, self.level_2);
        push_char(&mut s, '-');
        push_char(&mut s, self.level_3);
        s
    }
}

/// The letter of a coalition: NEUTRAL `n`, REDFOR `h`, BLUFOR `f`.
pub fn coalition_to_atomic_event_char(coalition: &Coalition) -> (r: char)
    ensures
        r == coalition_letter(*coalition),
{
    match coalition {
        Coalition::NEUTRAL => 'n',
        Coalition::REDFOR => 'h',
        Coalition::BLUFOR => 'f',
    }
}

/// The letter of a top-level category: AIR `A`, GROUND `G`, SEA `S`.
pub fn level_1_unit_type_char(unit_type: &Level1UnitType) -> (r: char)
    ensures
        r == unit_type_letter(*unit_type),
{
    match unit_type {
        Level1UnitType::AIR => 'A',
        Level1UnitType::GROUND => 'G',
        Level1UnitType::SEA => 'S',
    }
}

} // verus!
