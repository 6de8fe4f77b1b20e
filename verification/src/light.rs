//! Light levels, from darkness to the light of the sun.
use crate::error::Fault;
use vstd::prelude::*;
use vstd::std_specs::convert::TryFromSpecImpl;

verus! {

/// One of the sixteen levels of light.
#[derive(Debug, Clone, Copy, PartialEq, Eq, PartialOrd, Ord, Hash, Structural)]
pub enum LightLevel {
    Level0,
    Level1,
    Level2,
    Level3,
    Level4,
    Level5,
    Level6,
    Level7,
    Level8,
    Level9,
    Level10,
    Level11,
    Level12,
    Level13,
    Level14,
    Level15,
}

impl LightLevel {
    /// The light of the sun.
    pub const SUN: LightLevel = LightLevel::Level15;

    /// The level as a number.
    pub open spec fn value(self) -> u8 {
        match self {
            LightLevel::Level0 => 0,
            LightLevel::Level1 => 1,
            LightLevel::Level2 => 2,
            LightLevel::Level3 => 3,
            LightLevel::Level4 => 4,
            LightLevel::Level5 => 5,
            LightLevel::Level6 => 6,
            LightLevel::Level7 => 7,
            LightLevel::Level8 => 8,
            LightLevel::Level9 => 9,
            LightLevel::Level10 => 10,
            LightLevel::Level11 => 11,
            LightLevel::Level12 => 12,
            LightLevel::Level13 => 13,
            LightLevel::Level14 => 14,
            LightLevel::Level15 => 15,
        }
    }

    /// The level with the number `value`; the brightest where `value` is
    /// too large.
    pub open spec fn of_value(value: u8) -> LightLevel {
        match value {
            0 => LightLevel::Level0,
            1 => LightLevel::Level1,
            2 => LightLevel::Level2,
            3 => LightLevel::Level3,
            4 => LightLevel::Level4,
            5 => LightLevel::Level5,
            6 => LightLevel::Level6,
            7 => LightLevel::Level7,
            8 => LightLevel::Level8,
            9 => LightLevel::Level9,
            10 => LightLevel::Level10,
            11 => LightLevel::Level11,
            12 => LightLevel::Level12,
            13 => LightLevel::Level13,
            14 => LightLevel::Level14,
            _ => LightLevel::Level15,
        }
    }

    /// The level as a number.
    pub fn as_u8(self) -> (value: u8)
        ensures
            value == self.value(),
            value <= 15,
    {
        match self {
            LightLevel::Level0 => 0,
            LightLevel::Level1 => 1,
            LightLevel::Level2 => 2,
            LightLevel::Level3 => 3,
            LightLevel::Level4 => 4,
            LightLevel::Level5 => 5,
            LightLevel::Level6 => 6,
            LightLevel::Level7 => 7,
            LightLevel::Level8 => 8,
            LightLevel::Level9 => 9,
            LightLevel::Level10 => 10,
            LightLevel::Level11 => 11,
            LightLevel::Level12 => 12,
            LightLevel::Level13 => 13,
            LightLevel::Level14 => 14,
            LightLevel::Level15 => 15,
        }
    }
}

impl TryFrom<u8> for LightLevel {
    type Error = Fault;

    /// The level with the number `value`, if there is one.
    fn try_from(value: u8) -> (r: Result<LightLevel, Fault>) {
        match value {
            0 => Ok(LightLevel::Level0),
            1 => Ok(LightLevel::Level1),
            2 => Ok(LightLevel::Level2),
            3 => Ok(LightLevel::Level3),
            4 => Ok(LightLevel::Level4),
            5 => Ok(LightLevel::Level5),
            6 => Ok(LightLevel::Level6),
            7 => Ok(LightLevel::Level7),
            8 => Ok(LightLevel::Level8),
            9 => Ok(LightLevel::Level9),
            10 => Ok(LightLevel::Level10),
            11 => Ok(LightLevel::Level11),
            12 => Ok(LightLevel::Level12),
            13 => Ok(LightLevel::Level13),
            14 => Ok(LightLevel::Level14),
            15 => Ok(LightLevel::Level15),
            _ => Err(Fault::UnknownValue(value)),
        }
    }
}

impl TryFromSpecImpl<u8> for LightLevel {
    open spec fn obeys_try_from_spec() -> bool {
        true
    }

    open spec fn try_from_spec(value: u8) -> Result<LightLevel, Fault> {
        if value <= 15 {
            Ok(LightLevel::of_value(value))
        } else {
            Err(Fault::UnknownValue(value))
        }
    }
}

/// Each level is found again by its number.
pub proof fn lemma_light_of_value(level: LightLevel)
    ensures
        LightLevel::of_value(level.value()) == level,
        level.value() <= 15,
{
}

} // verus!
