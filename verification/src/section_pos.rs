//! The key of a section: a detail level and two grid coordinates, packed
//! into one integer of 64 bits.
use crate::detail_level::{DetailLevel, MAX_ORDINAL};
use vstd::arithmetic::power2::{lemma2_to64, lemma_pow2_unfold, pow2};
use vstd::prelude::*;

verus! {

/// The bits that hold the detail level.
pub const DETAIL_LEVEL_WIDTH: usize = 8;

/// The bits that hold the first coordinate.
pub const X_POS_WIDTH: usize = 28;

/// The bits that hold the second coordinate.
pub const Z_POS_WIDTH: usize = 28;

/// The bits of a coordinate of 32 bits that a key leaves out.
pub const X_POS_MISSING_WIDTH: usize = 4;

/// The bits of a coordinate of 32 bits that a key leaves out.
pub const Z_POS_MISSING_WIDTH: usize = 4;

/// The lowest bit of the detail level.
pub const DETAIL_LEVEL_OFFSET: usize = 0;

/// The lowest bit of the first coordinate.
pub const POS_X_OFFSET: usize = 8;

/// The lowest bit of the second coordinate.
pub const POS_Z_OFFSET: usize = 36;

/// The bits of the detail level, at the bottom of an integer.
pub const DETAIL_LEVEL_MASK: i64 = 0xff;

/// The bits of the first coordinate, at the bottom of an integer.
pub const POS_X_MASK: i32 = 0x0fff_ffff;

/// The bits of the second coordinate, at the bottom of an integer.
pub const POS_Z_MASK: i32 = 0x0fff_ffff;

/// Whether a key can hold the coordinate.
pub open spec fn in_range(coord: i32) -> bool {
    -0x800_0000 < coord < 0x800_0000
}

/// The integer that holds the ordinal `level` in its lowest 8 bits, then
/// `x` in 28 bits and `z` in 28 bits, each in two's complement.
pub open spec fn pack(level: u8, x: i32, z: i32) -> i64 {
    (level as i64 & 0xff) | (((x & 0x0fff_ffff) as i64) << 8) | (((z & 0x0fff_ffff) as i64) << 36)
}

/// The ordinal that `data` holds.
pub open spec fn packed_level(data: i64) -> u8 {
    (data & 0xff) as u8
}

/// The first coordinate that `data` holds, its sign restored.
pub open spec fn packed_x(data: i64) -> i32 {
    ((((data >> 8) & 0x0fff_ffff) as i32) << 4) >> 4
}

/// The second coordinate that `data` holds, its sign restored.
pub open spec fn packed_z(data: i64) -> i32 {
    ((((data >> 36) & 0x0fff_ffff) as i32) << 4) >> 4
}

/// What is packed comes out again: the level and both coordinates, the
/// negative ones too.
pub proof fn lemma_pack_round_trip(level: u8, x: i32, z: i32)
    requires
        in_range(x),
        in_range(z),
    ensures
        packed_level(pack(level, x, z)) == level,
        packed_x(pack(level, x, z)) == x,
        packed_z(pack(level, x, z)) == z,
{
    assert(packed_level(pack(level, x, z)) == level) by (bit_vector);
    assert(packed_x(pack(level, x, z)) == x) by (bit_vector)
        requires
            -0x800_0000 < x < 0x800_0000,
    ;
    assert(packed_z(pack(level, x, z)) == z) by (bit_vector)
        requires
            -0x800_0000 < z < 0x800_0000,
    ;
}

/// The block coordinate of the middle of the cell with the grid
/// coordinate `coord`.
pub open spec fn center_block(level: DetailLevel, coord: int) -> int {
    if level.ordinal() == 0 {
        coord
    } else if level.ordinal() == 1 {
        coord * 2
    } else {
        coord * pow2(level.ordinal() as nat) + pow2((level.ordinal() - 1) as nat)
    }
}

/// The least block coordinate of the cell with the grid coordinate
/// `coord`.
pub open spec fn min_corner_block(level: DetailLevel, coord: int) -> int {
    if level.ordinal() == 1 {
        center_block(level, coord)
    } else {
        center_block(level, coord) - (level.width() / 2) as int
    }
}

/// The least block coordinate of a cell is its grid coordinate times the
/// width of the level.
pub proof fn lemma_min_corner(level: DetailLevel, coord: int)
    ensures
        min_corner_block(level, coord) == coord * level.width(),
{
    lemma2_to64();
    let width = level.width() as int;
    if level.ordinal() == 0 {
        assert(coord * width == coord) by (nonlinear_arith)
            requires
                width == 1,
        ;
    } else if level.ordinal() == 1 {
        assert(width == 2);
    } else {
        lemma_pow2_unfold(level.ordinal() as nat);
        let half = pow2((level.ordinal() - 1) as nat) as int;
        assert(width == 2 * half);
        assert(width / 2 == half);
    }
}

/// What a key holds.
pub struct SectionPosView {
    pub detail_level: DetailLevel,
    pub x: int,
    pub z: int,
}

/// The key of a section.
#[derive(Debug, Clone, Copy, PartialEq, Eq, PartialOrd, Ord, Hash, Structural)]
pub struct SectionPos(i64);

impl View for SectionPos {
    type V = SectionPosView;

    closed spec fn view(&self) -> SectionPosView {
        SectionPosView {
            detail_level: DetailLevel::of_ordinal(packed_level(self.0)),
            x: packed_x(self.0) as int,
            z: packed_z(self.0) as int,
        }
    }
}

impl SectionPos {
    /// The finest level at which sections are kept.
    pub const SECTION_MINIMUM_DETAIL_LEVEL: DetailLevel = DetailLevel::Chunk4;

    #[verifier::type_invariant]
    spec fn canonical(self) -> bool {
        &&& packed_level(self.0) <= MAX_ORDINAL
        &&& in_range(packed_x(self.0))
        &&& in_range(packed_z(self.0))
        &&& self.0 == pack(packed_level(self.0), packed_x(self.0), packed_z(self.0))
    }

    /// The integer that the key is.
    pub closed spec fn packed(self) -> i64 {
        self.0
    }

    /// The key of the section at the grid coordinates `x` and `z` of the
    /// level `section_detail_level`.
    pub fn new(section_detail_level: DetailLevel, x: i32, z: i32) -> (pos: Self)
        requires
            in_range(x),
            in_range(z),
        ensures
            pos@ == (SectionPosView { detail_level: section_detail_level, x: x as int, z: z as int }),
            pos.packed() == pack(section_detail_level.ordinal(), x, z),
    {
        let level = section_detail_level.as_u8();
        let mut data: i64 = 0;
        data = data | (level as i64 & DETAIL_LEVEL_MASK);
        data = data | (((x & POS_X_MASK) as i64) << 8);
        data = data | (((z & POS_Z_MASK) as i64) << 36);
        proof {
            assert(0i64 | (level as i64 & 0xff) == (level as i64 & 0xff)) by (bit_vector);
            lemma_pack_round_trip(level, x, z);
        }
        SectionPos(data)
    }

    /// The key of the section at the grid coordinates `x` and `z` of the
    /// level `section_detail_level`, if a key can hold the coordinates.
    pub fn try_new(section_detail_level: DetailLevel, x: i32, z: i32) -> (pos: Option<Self>)
        ensures
            match pos {
                Some(pos) => in_range(x) && in_range(z) && pos@ == (SectionPosView {
                    detail_level: section_detail_level,
                    x: x as int,
                    z: z as int,
                }),
                None => !in_range(x) || !in_range(z),
            },
    {
        if -0x800_0000 < x && x < 0x800_0000 && -0x800_0000 < z && z < 0x800_0000 {
            Some(Self::new(section_detail_level, x, z))
        } else {
            None
        }
    }

    /// The key as one integer.
    pub fn as_i64(self) -> (data: i64)
        ensures
            data == self.packed(),
            data == pack(self@.detail_level.ordinal(), self@.x as i32, self@.z as i32),
    {
        proof {
            use_type_invariant(self);
        }
        self.0
    }

    /// The level of the section.
    pub fn detail_level(self) -> (level: DetailLevel)
        ensures
            level == self@.detail_level,
    {
        proof {
            use_type_invariant(self);
        }
        let dl = ((self.0 >> 0) & DETAIL_LEVEL_MASK) as u8;
        proof {
            let data = self.0;
            assert((data >> 0) & 0xff == data & 0xff) by (bit_vector);
        }
        DetailLevel::new_unchecked(dl)
    }

    /// The first grid coordinate.
    pub fn x(self) -> (x: i32)
        ensures
            x == self@.x,
            in_range(x),
    {
        proof {
            use_type_invariant(self);
        }
        let x = ((self.0 >> 8) & 0x0fff_ffff) as i32;
        (x << 4) >> 4
    }

    /// The second grid coordinate.
    pub fn z(self) -> (z: i32)
        ensures
            z == self@.z,
            in_range(z),
    {
        proof {
            use_type_invariant(self);
        }
        let z = ((self.0 >> 36) & 0x0fff_ffff) as i32;
        (z << 4) >> 4
    }

    /// The width of the section's cells, in blocks.
    pub fn block_width(self) -> (width: i32)
        ensures
            width == self@.detail_level.width(),
    {
        self.detail_level().block_width()
    }

    /// The block coordinate of the middle of the cell at `coord`, as a
    /// number of 64 bits.
    fn center_wide(level: DetailLevel, coord: i32) -> (center: i64)
        requires
            in_range(coord),
        ensures
            center == center_block(level, coord as int),
    {
        let d = level.as_u8();
        if d == 0 {
            coord as i64
        } else if d == 1 {
            (coord as i64) * 2
        } else {
            let width = level.block_width() as i64;
            let half = width / 2;
            proof {
                lemma_pow2_unfold(d as nat);
                assert(-0x800_0000 * 0x4_0000 <= coord * width <= 0x800_0000 * 0x4_0000)
                    by (nonlinear_arith)
                    requires
                        -0x800_0000 < coord < 0x800_0000,
                        1 <= width <= 0x4_0000,
                ;
            }
            (coord as i64) * width + half
        }
    }

    /// The block coordinate of the middle of the cell at `coord`.
    fn center_of(level: DetailLevel, coord: i32) -> (center: i32)
        requires
            in_range(coord),
            i32::MIN <= center_block(level, coord as int) <= i32::MAX,
        ensures
            center == center_block(level, coord as int),
    {
        Self::center_wide(level, coord) as i32
    }

    /// The block coordinate of the middle of the cell at `coord`, if it is
    /// a number of 32 bits.
    fn checked_center_of(level: DetailLevel, coord: i32) -> (center: Option<i32>)
        requires
            in_range(coord),
        ensures
            match center {
                Some(center) => center == center_block(level, coord as int),
                None => !(i32::MIN <= center_block(level, coord as int) <= i32::MAX),
            },
    {
        let center = Self::center_wide(level, coord);
        if center < i32::MIN as i64 || center > i32::MAX as i64 {
            None
        } else {
            Some(center as i32)
        }
    }

    /// The least block coordinate of the cell at `coord`.
    fn corner_of(level: DetailLevel, coord: i32) -> (corner: i32)
        requires
            in_range(coord),
            i32::MIN <= min_corner_block(level, coord as int),
            center_block(level, coord as int) <= i32::MAX,
        ensures
            corner == min_corner_block(level, coord as int),
    {
        proof {
            lemma2_to64();
            assert(min_corner_block(level, coord as int) <= center_block(level, coord as int));
        }
        let center = Self::center_of(level, coord);
        if level.as_u8() == 1 {
            center
        } else {
            let width = level.block_width();
            proof {
                lemma_min_corner(level, coord as int);
                assert(coord * width >= -0x800_0000 * 0x4_0000) by (nonlinear_arith)
                    requires
                        -0x800_0000 < coord < 0x800_0000,
                        1 <= width <= 0x4_0000,
                ;
            }
            center - width / 2
        }
    }

    /// The block coordinate of the section's middle, along x.
    pub fn center_block_pos_x(self) -> (center: i32)
        requires
            i32::MIN <= center_block(self@.detail_level, self@.x) <= i32::MAX,
        ensures
            center == center_block(self@.detail_level, self@.x),
    {
        Self::center_of(self.detail_level(), self.x())
    }

    /// The block coordinate of the section's middle, along x, if it is a
    /// number of 32 bits.
    pub fn checked_center_block_pos_x(self) -> (center: Option<i32>)
        ensures
            match center {
                Some(center) => center == center_block(self@.detail_level, self@.x),
                None => !(i32::MIN <= center_block(self@.detail_level, self@.x) <= i32::MAX),
            },
    {
        Self::checked_center_of(self.detail_level(), self.x())
    }

    /// The block coordinate of the section's middle, along z, if it is a
    /// number of 32 bits.
    pub fn checked_center_block_pos_z(self) -> (center: Option<i32>)
        ensures
            match center {
                Some(center) => center == center_block(self@.detail_level, self@.z),
                None => !(i32::MIN <= center_block(self@.detail_level, self@.z) <= i32::MAX),
            },
    {
        Self::checked_center_of(self.detail_level(), self.z())
    }

    /// The block coordinate of the section's middle, along z.
    pub fn center_block_pos_z(self) -> (center: i32)
        requires
            i32::MIN <= center_block(self@.detail_level, self@.z) <= i32::MAX,
        ensures
            center == center_block(self@.detail_level, self@.z),
    {
        Self::center_of(self.detail_level(), self.z())
    }

    /// The least block coordinate of the section, along x.
    pub fn min_corner_block_x(self) -> (corner: i32)
        requires
            i32::MIN <= min_corner_block(self@.detail_level, self@.x),
            center_block(self@.detail_level, self@.x) <= i32::MAX,
        ensures
            corner == min_corner_block(self@.detail_level, self@.x),
    {
        Self::corner_of(self.detail_level(), self.x())
    }

    /// The least block coordinate of the section, along z.
    pub fn min_corner_block_z(self) -> (corner: i32)
        requires
            i32::MIN <= min_corner_block(self@.detail_level, self@.z),
            center_block(self@.detail_level, self@.z) <= i32::MAX,
        ensures
            corner == min_corner_block(self@.detail_level, self@.z),
    {
        Self::corner_of(self.detail_level(), self.z())
    }
}

} // verus!
