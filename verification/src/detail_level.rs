//! The scale of detail levels: each level doubles the width, in blocks, of
//! what one grid cell covers.
use vstd::arithmetic::power2::{lemma2_to64, pow2};
use vstd::prelude::*;
use vstd::std_specs::ops::{AddSpec, AddSpecImpl, SubSpec, SubSpecImpl};

verus! {

/// A level of detail. Its ordinal is its place in this list, from 0.
#[derive(Debug, Default, Clone, Copy, PartialEq, Eq, PartialOrd, Ord, Hash, Structural)]
pub enum DetailLevel {
    #[default]
    Block,
    Block2,
    Block4,
    Block8,
    Chunk,
    Chunk2,
    Chunk4,
    Chunk8,
    Chunk16,
    Region,
    Region2,
    Region4,
    Region8,
    Region16,
    Region32,
    Region64,
    Region128,
    Region256,
    Region512,
}

/// The ordinal of the coarsest level.
pub const MAX_ORDINAL: u8 = 18;

impl DetailLevel {
    /// The finest level.
    pub const MIN: DetailLevel = DetailLevel::Block;

    /// The coarsest level.
    pub const MAX: DetailLevel = DetailLevel::Region512;

    /// The level's place on the scale.
    pub open spec fn ordinal(self) -> u8 {
        match self {
            DetailLevel::Block => 0,
            DetailLevel::Block2 => 1,
            DetailLevel::Block4 => 2,
            DetailLevel::Block8 => 3,
            DetailLevel::Chunk => 4,
            DetailLevel::Chunk2 => 5,
            DetailLevel::Chunk4 => 6,
            DetailLevel::Chunk8 => 7,
            DetailLevel::Chunk16 => 8,
            DetailLevel::Region => 9,
            DetailLevel::Region2 => 10,
            DetailLevel::Region4 => 11,
            DetailLevel::Region8 => 12,
            DetailLevel::Region16 => 13,
            DetailLevel::Region32 => 14,
            DetailLevel::Region64 => 15,
            DetailLevel::Region128 => 16,
            DetailLevel::Region256 => 17,
            DetailLevel::Region512 => 18,
        }
    }

    /// The level with the ordinal `n`; the coarsest where `n` is too large.
    pub open spec fn of_ordinal(n: u8) -> DetailLevel {
        match n {
            0 => DetailLevel::Block,
            1 => DetailLevel::Block2,
            2 => DetailLevel::Block4,
            3 => DetailLevel::Block8,
            4 => DetailLevel::Chunk,
            5 => DetailLevel::Chunk2,
            6 => DetailLevel::Chunk4,
            7 => DetailLevel::Chunk8,
            8 => DetailLevel::Chunk16,
            9 => DetailLevel::Region,
            10 => DetailLevel::Region2,
            11 => DetailLevel::Region4,
            12 => DetailLevel::Region8,
            13 => DetailLevel::Region16,
            14 => DetailLevel::Region32,
            15 => DetailLevel::Region64,
            16 => DetailLevel::Region128,
            17 => DetailLevel::Region256,
            _ => DetailLevel::Region512,
        }
    }

    /// The width, in blocks, of what a grid cell of this level covers.
    pub open spec fn width(self) -> nat {
        pow2(self.ordinal() as nat)
    }

    /// The level's ordinal.
    pub fn as_u8(self) -> (n: u8)
        ensures
            n == self.ordinal(),
            n <= MAX_ORDINAL,
    {
        match self {
            DetailLevel::Block => 0,
            DetailLevel::Block2 => 1,
            DetailLevel::Block4 => 2,
            DetailLevel::Block8 => 3,
            DetailLevel::Chunk => 4,
            DetailLevel::Chunk2 => 5,
            DetailLevel::Chunk4 => 6,
            DetailLevel::Chunk8 => 7,
            DetailLevel::Chunk16 => 8,
            DetailLevel::Region => 9,
            DetailLevel::Region2 => 10,
            DetailLevel::Region4 => 11,
            DetailLevel::Region8 => 12,
            DetailLevel::Region16 => 13,
            DetailLevel::Region32 => 14,
            DetailLevel::Region64 => 15,
            DetailLevel::Region128 => 16,
            DetailLevel::Region256 => 17,
            DetailLevel::Region512 => 18,
        }
    }

    /// The level with the ordinal `level`, if there is one.
    pub fn try_new(level: u8) -> (r: Result<Self, ()>)
        ensures
            match r {
                Ok(found) => level <= MAX_ORDINAL && found == Self::of_ordinal(level),
                Err(_) => level > MAX_ORDINAL,
            },
    {
        if level > MAX_ORDINAL {
            Err(())
        } else {
            Ok(Self::new_unchecked(level))
        }
    }

    /// The level with the ordinal `level`.
    #[must_use]
    pub fn new_unchecked(level: u8) -> (found: Self)
        requires
            level <= MAX_ORDINAL,
        ensures
            found == Self::of_ordinal(level),
            found.ordinal() == level,
    {
        match level {
            0 => DetailLevel::Block,
            1 => DetailLevel::Block2,
            2 => DetailLevel::Block4,
            3 => DetailLevel::Block8,
            4 => DetailLevel::Chunk,
            5 => DetailLevel::Chunk2,
            6 => DetailLevel::Chunk4,
            7 => DetailLevel::Chunk8,
            8 => DetailLevel::Chunk16,
            9 => DetailLevel::Region,
            10 => DetailLevel::Region2,
            11 => DetailLevel::Region4,
            12 => DetailLevel::Region8,
            13 => DetailLevel::Region16,
            14 => DetailLevel::Region32,
            15 => DetailLevel::Region64,
            16 => DetailLevel::Region128,
            17 => DetailLevel::Region256,
            _ => DetailLevel::Region512,
        }
    }

    /// The width, in blocks, of what a grid cell of this level covers.
    #[must_use]
    pub fn block_width(self) -> (width: i32)
        ensures
            width == self.width(),
            1 <= width <= 0x4_0000,
    {
        let n = self.as_u8();
        let width: u32 = 1u32 << n;
        proof {
            lemma2_to64();
            assert(n <= 18 ==> (1u32 << n) == pow2(n as nat)) by {
                assert(forall|k: u8| k <= 18 ==> 1u32 << k <= 0x4_0000) by (bit_vector);
                assert(1u32 << 0u8 == 1 && 1u32 << 1u8 == 2 && 1u32 << 2u8 == 4 && 1u32 << 3u8 == 8
                    && 1u32 << 4u8 == 16 && 1u32 << 5u8 == 32 && 1u32 << 6u8 == 64 && 1u32 << 7u8
                    == 128 && 1u32 << 8u8 == 256 && 1u32 << 9u8 == 512 && 1u32 << 10u8 == 1024
                    && 1u32 << 11u8 == 2048 && 1u32 << 12u8 == 4096 && 1u32 << 13u8 == 8192 && 1u32
                    << 14u8 == 16384 && 1u32 << 15u8 == 32768 && 1u32 << 16u8 == 65536 && 1u32
                    << 17u8 == 131072 && 1u32 << 18u8 == 262144) by (bit_vector);
            }
        }
        width as i32
    }

    /// The level that lies `rhs` steps above this one, if the scale
    /// reaches that far.
    pub fn checked_add(self, rhs: Self) -> (sum: Option<Self>)
        ensures
            match sum {
                Some(level) => level.ordinal() == self.ordinal() + rhs.ordinal(),
                None => self.ordinal() + rhs.ordinal() > MAX_ORDINAL,
            },
    {
        let result = self.as_u8() + rhs.as_u8();
        if result > MAX_ORDINAL {
            None
        } else {
            Some(Self::new_unchecked(result))
        }
    }
}

/// Each level is found again by its ordinal.
pub proof fn lemma_of_ordinal(level: DetailLevel)
    ensures
        DetailLevel::of_ordinal(level.ordinal()) == level,
        level.ordinal() <= MAX_ORDINAL,
{
}

/// Each ordinal up to the last is the ordinal of the level found by it.
pub proof fn lemma_ordinal_of(n: u8)
    requires
        n <= MAX_ORDINAL,
    ensures
        DetailLevel::of_ordinal(n).ordinal() == n,
{
}

impl core::ops::Add for DetailLevel {
    type Output = DetailLevel;

    /// The level that lies `rhs` steps above this one. The scale has to
    /// reach that far.
    fn add(self, rhs: DetailLevel) -> (sum: DetailLevel) {
        DetailLevel::new_unchecked(self.as_u8() + rhs.as_u8())
    }
}

impl AddSpecImpl for DetailLevel {
    open spec fn obeys_add_spec() -> bool {
        true
    }

    open spec fn add_req(self, rhs: DetailLevel) -> bool {
        self.ordinal() + rhs.ordinal() <= MAX_ORDINAL
    }

    open spec fn add_spec(self, rhs: DetailLevel) -> DetailLevel {
        DetailLevel::of_ordinal((self.ordinal() + rhs.ordinal()) as u8)
    }
}

impl core::ops::Sub for DetailLevel {
    type Output = DetailLevel;

    /// The level that lies `rhs` steps below this one; the finest where
    /// the scale does not reach that far.
    fn sub(self, rhs: DetailLevel) -> (difference: DetailLevel) {
        let a = self.as_u8();
        let b = rhs.as_u8();
        let result = if a < b {
            0
        } else {
            a - b
        };
        DetailLevel::new_unchecked(result)
    }
}

impl SubSpecImpl for DetailLevel {
    open spec fn obeys_sub_spec() -> bool {
        true
    }

    open spec fn sub_req(self, rhs: DetailLevel) -> bool {
        true
    }

    open spec fn sub_spec(self, rhs: DetailLevel) -> DetailLevel {
        if self.ordinal() < rhs.ordinal() {
            DetailLevel::Block
        } else {
            DetailLevel::of_ordinal((self.ordinal() - rhs.ordinal()) as u8)
        }
    }
}

/// Two levels can be added exactly if the sum of their ordinals is on the
/// scale, and the sum has that ordinal; the difference of two levels has
/// the difference of their ordinals, or the ordinal 0 where that would be
/// negative.
pub proof fn lemma_level_arithmetic(a: DetailLevel, b: DetailLevel)
    ensures
        AddSpec::add_req(a, b) <==> a.ordinal() + b.ordinal() <= MAX_ORDINAL,
        AddSpec::add_req(a, b) ==> AddSpec::add_spec(a, b).ordinal() == a.ordinal() + b.ordinal(),
        SubSpec::sub_req(a, b),
        SubSpec::sub_spec(a, b).ordinal() == (if a.ordinal() < b.ordinal() {
            0
        } else {
            a.ordinal() - b.ordinal()
        }),
{
}

} // verus!
