//! What a set of sections spans: the levels they have and the blocks that
//! lie between their middles.
use crate::detail_level::DetailLevel;
use crate::section_pos::{center_block, SectionPos, SectionPosView};
use vstd::prelude::*;

verus! {

/// The span of the sections seen so far.
#[derive(Debug, Clone, Copy, PartialEq, Eq, Structural)]
pub struct Extent {
    pub min_detail: DetailLevel,
    pub max_detail: DetailLevel,
    pub min_x: i32,
    pub max_x: i32,
    pub min_z: i32,
    pub max_z: i32,
}

/// The lesser of two numbers.
pub open spec fn lesser(a: int, b: int) -> int {
    if a <= b {
        a
    } else {
        b
    }
}

/// The greater of two numbers.
pub open spec fn greater(a: int, b: int) -> int {
    if a >= b {
        a
    } else {
        b
    }
}

impl Extent {
    /// The span of no section: each least value as great as can be, each
    /// greatest as small.
    pub open spec fn empty() -> Extent {
        Extent {
            min_detail: DetailLevel::Region512,
            max_detail: DetailLevel::Block,
            min_x: i32::MAX,
            max_x: i32::MIN,
            min_z: i32::MAX,
            max_z: i32::MIN,
        }
    }

    /// The span with one more section, at `pos`.
    pub open spec fn with(self, pos: SectionPosView) -> Extent {
        let x = center_block(pos.detail_level, pos.x);
        let z = center_block(pos.detail_level, pos.z);
        Extent {
            min_detail: if pos.detail_level.ordinal() < self.min_detail.ordinal() {
                pos.detail_level
            } else {
                self.min_detail
            },
            max_detail: if pos.detail_level.ordinal() > self.max_detail.ordinal() {
                pos.detail_level
            } else {
                self.max_detail
            },
            min_x: lesser(self.min_x as int, x) as i32,
            max_x: greater(self.max_x as int, x) as i32,
            min_z: lesser(self.min_z as int, z) as i32,
            max_z: greater(self.max_z as int, z) as i32,
        }
    }

    /// The span of no section.
    pub fn new() -> (extent: Extent)
        ensures
            extent == Extent::empty(),
    {
        Extent {
            min_detail: DetailLevel::MAX,
            max_detail: DetailLevel::MIN,
            min_x: i32::MAX,
            max_x: i32::MIN,
            min_z: i32::MAX,
            max_z: i32::MIN,
        }
    }

    /// Takes the section at `pos` into the span, if the block coordinates
    /// of its middle are numbers of 32 bits.
    pub fn try_extend(&mut self, pos: SectionPos) -> (done: bool)
        ensures
            done == (i32::MIN <= center_block(pos@.detail_level, pos@.x) <= i32::MAX && i32::MIN
                <= center_block(pos@.detail_level, pos@.z) <= i32::MAX),
            *final(self) == if done {
                old(self).with(pos@)
            } else {
                *old(self)
            },
    {
        if pos.checked_center_block_pos_x().is_some() && pos.checked_center_block_pos_z().is_some() {
            self.extend(pos);
            true
        } else {
            false
        }
    }

    /// Takes the section at `pos` into the span.
    pub fn extend(&mut self, pos: SectionPos)
        requires
            i32::MIN <= center_block(pos@.detail_level, pos@.x) <= i32::MAX,
            i32::MIN <= center_block(pos@.detail_level, pos@.z) <= i32::MAX,
        ensures
            *final(self) == old(self).with(pos@),
    {
        let level = pos.detail_level();
        let x = pos.center_block_pos_x();
        let z = pos.center_block_pos_z();
        if level.as_u8() < self.min_detail.as_u8() {
            self.min_detail = level;
        }
        if level.as_u8() > self.max_detail.as_u8() {
            self.max_detail = level;
        }
        if x < self.min_x {
            self.min_x = x;
        }
        if x > self.max_x {
            self.max_x = x;
        }
        if z < self.min_z {
            self.min_z = z;
        }
        if z > self.max_z {
            self.max_z = z;
        }
    }
}

} // verus!
