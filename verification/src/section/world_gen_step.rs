//! The steps of world generation, of which each column has reached one.
use crate::compression::Payload;
use crate::error::Fault;
use crate::section::columns::{grid_cells, grid_from_bytes, Columns, LEN};
use vstd::prelude::*;
use vstd::std_specs::convert::TryFromSpecImpl;

verus! {

/// How far the generation of a column has come.
#[derive(Debug, Clone, Copy, PartialEq, Eq, Structural)]
pub enum WorldGenStep {
    DownSampled,
    Empty,
    StructureStart,
    StructureReference,
    Biomes,
    Noise,
    Surface,
    Carvers,
    LiquidCarvers,
    Features,
    Light,
}

impl WorldGenStep {
    /// The byte that stands for the value.
    pub open spec fn value(self) -> u8 {
        match self {
            WorldGenStep::DownSampled => 254,
            WorldGenStep::Empty => 0,
            WorldGenStep::StructureStart => 1,
            WorldGenStep::StructureReference => 2,
            WorldGenStep::Biomes => 3,
            WorldGenStep::Noise => 4,
            WorldGenStep::Surface => 5,
            WorldGenStep::Carvers => 6,
            WorldGenStep::LiquidCarvers => 7,
            WorldGenStep::Features => 8,
            WorldGenStep::Light => 9,
        }
    }

    /// The value that `byte` stands for, if it stands for any.
    pub open spec fn of_value(byte: u8) -> Option<WorldGenStep> {
        match byte {
            254 => Some(WorldGenStep::DownSampled),
            0 => Some(WorldGenStep::Empty),
            1 => Some(WorldGenStep::StructureStart),
            2 => Some(WorldGenStep::StructureReference),
            3 => Some(WorldGenStep::Biomes),
            4 => Some(WorldGenStep::Noise),
            5 => Some(WorldGenStep::Surface),
            6 => Some(WorldGenStep::Carvers),
            7 => Some(WorldGenStep::LiquidCarvers),
            8 => Some(WorldGenStep::Features),
            9 => Some(WorldGenStep::Light),
            _ => None,
        }
    }

    /// The byte that stands for the value.
    pub fn as_u8(self) -> (byte: u8)
        ensures
            byte == self.value(),
    {
        match self {
            WorldGenStep::DownSampled => 254,
            WorldGenStep::Empty => 0,
            WorldGenStep::StructureStart => 1,
            WorldGenStep::StructureReference => 2,
            WorldGenStep::Biomes => 3,
            WorldGenStep::Noise => 4,
            WorldGenStep::Surface => 5,
            WorldGenStep::Carvers => 6,
            WorldGenStep::LiquidCarvers => 7,
            WorldGenStep::Features => 8,
            WorldGenStep::Light => 9,
        }
    }

    /// The step's name.
    pub open spec fn name(self) -> Seq<char> {
        match self {
            WorldGenStep::DownSampled => "down_sampled"@,
            WorldGenStep::Empty => "empty"@,
            WorldGenStep::StructureStart => "structure_start"@,
            WorldGenStep::StructureReference => "structure_reference"@,
            WorldGenStep::Biomes => "biomes"@,
            WorldGenStep::Noise => "noise"@,
            WorldGenStep::Surface => "surface"@,
            WorldGenStep::Carvers => "carvers"@,
            WorldGenStep::LiquidCarvers => "liquid_carvers"@,
            WorldGenStep::Features => "features"@,
            WorldGenStep::Light => "light"@,
        }
    }

    /// The step's name.
    pub fn as_ref(&self) -> (name: &'static str)
        ensures
            name@ == self.name(),
    {
        match *self {
            WorldGenStep::DownSampled => "down_sampled",
            WorldGenStep::Empty => "empty",
            WorldGenStep::StructureStart => "structure_start",
            WorldGenStep::StructureReference => "structure_reference",
            WorldGenStep::Biomes => "biomes",
            WorldGenStep::Noise => "noise",
            WorldGenStep::Surface => "surface",
            WorldGenStep::Carvers => "carvers",
            WorldGenStep::LiquidCarvers => "liquid_carvers",
            WorldGenStep::Features => "features",
            WorldGenStep::Light => "light",
        }
    }
}

impl TryFrom<u8> for WorldGenStep {
    type Error = Fault;

    /// The value that `value` stands for, if it stands for any.
    fn try_from(value: u8) -> (r: Result<WorldGenStep, Fault>) {
        match value {
            254 => Ok(WorldGenStep::DownSampled),
            0 => Ok(WorldGenStep::Empty),
            1 => Ok(WorldGenStep::StructureStart),
            2 => Ok(WorldGenStep::StructureReference),
            3 => Ok(WorldGenStep::Biomes),
            4 => Ok(WorldGenStep::Noise),
            5 => Ok(WorldGenStep::Surface),
            6 => Ok(WorldGenStep::Carvers),
            7 => Ok(WorldGenStep::LiquidCarvers),
            8 => Ok(WorldGenStep::Features),
            9 => Ok(WorldGenStep::Light),
            _ => Err(Fault::UnknownValue(value)),
        }
    }
}

impl TryFromSpecImpl<u8> for WorldGenStep {
    open spec fn obeys_try_from_spec() -> bool {
        true
    }

    open spec fn try_from_spec(value: u8) -> Result<WorldGenStep, Fault> {
        match WorldGenStep::of_value(value) {
            Some(found) => Ok(found),
            None => Err(Fault::UnknownValue(value)),
        }
    }
}

/// Each value is found again by its byte.
pub proof fn lemma_world_gen_step_of_value(value: WorldGenStep)
    ensures
        WorldGenStep::of_value(value.value()) == Some(value),
{
}

impl Payload for Columns<WorldGenStep> {
    type Model = Seq<WorldGenStep>;

    type Context = ();

    open spec fn model(&self) -> Seq<WorldGenStep> {
        self@
    }

    open spec fn parse(bytes: Seq<u8>) -> Result<Seq<WorldGenStep>, Fault> {
        grid_cells::<WorldGenStep>(bytes, LEN as nat)
    }

    open spec fn carried(bytes: Seq<u8>, before: (), after: ()) -> bool {
        true
    }

    fn decode(bytes: &[u8], context: &mut ()) -> (r: Result<Columns<WorldGenStep>, Fault>) {
        grid_from_bytes::<WorldGenStep>(bytes)
    }
}

} // verus!
