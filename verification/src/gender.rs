//! The gender model: a closed three-value type.
//!
//! `Neutral` stands both for an explicitly declared neutral gender and for
//! "no gender information"; the engine does not distinguish the two.

use vstd::prelude::*;

verus! {

#[derive(Debug, Clone, Copy, PartialEq, Eq, Structural)]
pub enum Gender {
    Male,
    Female,
    Neutral,
}

/// Characters accepted inside an inline gender marker, either case.
pub open spec fn spec_gender_char(c: char) -> bool {
    c == 'm' || c == 'M' || c == 'f' || c == 'F' || c == 'n' || c == 'N'
}

/// The gender an inline marker character declares.
pub open spec fn spec_gender_of(c: char) -> Gender {
    if c == 'm' || c == 'M' {
        Gender::Male
    } else if c == 'f' || c == 'F' {
        Gender::Female
    } else {
        Gender::Neutral
    }
}

pub fn is_gender_char(c: char) -> (b: bool)
    ensures
        b == spec_gender_char(c),
{
    c == 'm' || c == 'M' || c == 'f' || c == 'F' || c == 'n' || c == 'N'
}

pub fn gender_of(c: char) -> (g: Gender)
    ensures
        g == spec_gender_of(c),
{
    if c == 'm' || c == 'M' {
        Gender::Male
    } else if c == 'f' || c == 'F' {
        Gender::Female
    } else {
        Gender::Neutral
    }
}

} // verus!
