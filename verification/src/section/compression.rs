//! The ways in which the data points of a column were merged.
use crate::compression::Payload;
use crate::error::Fault;
use crate::section::columns::{grid_cells, grid_from_bytes, Columns, LEN};
use vstd::prelude::*;
use vstd::std_specs::convert::TryFromSpecImpl;

verus! {

/// How the data points of a column were merged.
#[derive(Debug, Clone, Copy, PartialEq, Eq, Structural)]
pub enum WorldCompression {
    MergeSameBlock,
    VisuallyEqual,
}

impl WorldCompression {
    /// The byte that stands for the value.
    pub open spec fn value(self) -> u8 {
        match self {
            WorldCompression::MergeSameBlock => 0,
            WorldCompression::VisuallyEqual => 1,
        }
    }

    /// The value that `byte` stands for, if it stands for any.
    pub open spec fn of_value(byte: u8) -> Option<WorldCompression> {
        match byte {
            0 => Some(WorldCompression::MergeSameBlock),
            1 => Some(WorldCompression::VisuallyEqual),
            _ => None,
        }
    }

    /// The byte that stands for the value.
    pub fn as_u8(self) -> (byte: u8)
        ensures
            byte == self.value(),
    {
        match self {
            WorldCompression::MergeSameBlock => 0,
            WorldCompression::VisuallyEqual => 1,
        }
    }
}

impl TryFrom<u8> for WorldCompression {
    type Error = Fault;

    /// The value that `value` stands for, if it stands for any.
    fn try_from(value: u8) -> (r: Result<WorldCompression, Fault>) {
        match value {
            0 => Ok(WorldCompression::MergeSameBlock),
            1 => Ok(WorldCompression::VisuallyEqual),
            _ => Err(Fault::UnknownValue(value)),
        }
    }
}

impl TryFromSpecImpl<u8> for WorldCompression {
    open spec fn obeys_try_from_spec() -> bool {
        true
    }

    open spec fn try_from_spec(value: u8) -> Result<WorldCompression, Fault> {
        match WorldCompression::of_value(value) {
            Some(found) => Ok(found),
            None => Err(Fault::UnknownValue(value)),
        }
    }
}

/// Each value is found again by its byte.
pub proof fn lemma_world_compression_of_value(value: WorldCompression)
    ensures
        WorldCompression::of_value(value.value()) == Some(value),
{
}

impl Payload for Columns<WorldCompression> {
    type Model = Seq<WorldCompression>;

    type Context = ();

    open spec fn model(&self) -> Seq<WorldCompression> {
        self@
    }

    open spec fn parse(bytes: Seq<u8>) -> Result<Seq<WorldCompression>, Fault> {
        grid_cells::<WorldCompression>(bytes, LEN as nat)
    }

    open spec fn carried(bytes: Seq<u8>, before: (), after: ()) -> bool {
        true
    }

    fn decode(bytes: &[u8], context: &mut ()) -> (r: Result<Columns<WorldCompression>, Fault>) {
        grid_from_bytes::<WorldCompression>(bytes)
    }
}

} // verus!
