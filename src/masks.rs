//! The mask tables that drive every butterfly step.
//!
//! Level `l` (0 to 6) cuts the word into blocks of `2^(7 - l)` bits. The left
//! mask of a level selects the upper half of each block and the right mask
//! selects the lower half.
use vstd::prelude::*;

verus! {

/// Upper 64 bits of the word.
pub const LEFT_MASK0: u128 = 0xFFFF_FFFF_FFFF_FFFF_0000_0000_0000_0000;

/// Upper 32 bits of each 64-bit block.
pub const LEFT_MASK1: u128 = 0xFFFF_FFFF_0000_0000_FFFF_FFFF_0000_0000;

/// Upper 16 bits of each 32-bit block.
pub const LEFT_MASK2: u128 = 0xFFFF_0000_FFFF_0000_FFFF_0000_FFFF_0000;

/// Upper 8 bits of each 16-bit block.
pub const LEFT_MASK3: u128 = 0xFF00_FF00_FF00_FF00_FF00_FF00_FF00_FF00;

/// Upper 4 bits of each byte.
pub const LEFT_MASK4: u128 = 0xF0F0_F0F0_F0F0_F0F0_F0F0_F0F0_F0F0_F0F0;

/// Upper 2 bits of each 4-bit block.
pub const LEFT_MASK5: u128 = 0xCCCC_CCCC_CCCC_CCCC_CCCC_CCCC_CCCC_CCCC;

/// Upper bit of each 2-bit block.
pub const LEFT_MASK6: u128 = 0xAAAA_AAAA_AAAA_AAAA_AAAA_AAAA_AAAA_AAAA;

/// Lower 64 bits of the word.
pub const RIGHT_MASK0: u128 = 0x0000_0000_0000_0000_FFFF_FFFF_FFFF_FFFF;

/// Lower 32 bits of each 64-bit block.
pub const RIGHT_MASK1: u128 = 0x0000_0000_FFFF_FFFF_0000_0000_FFFF_FFFF;

/// Lower 16 bits of each 32-bit block.
pub const RIGHT_MASK2: u128 = 0x0000_FFFF_0000_FFFF_0000_FFFF_0000_FFFF;

/// Lower 8 bits of each 16-bit block.
pub const RIGHT_MASK3: u128 = 0x00FF_00FF_00FF_00FF_00FF_00FF_00FF_00FF;

/// Lower 4 bits of each byte.
pub const RIGHT_MASK4: u128 = 0x0F0F_0F0F_0F0F_0F0F_0F0F_0F0F_0F0F_0F0F;

/// Lower 2 bits of each 4-bit block.
pub const RIGHT_MASK5: u128 = 0x3333_3333_3333_3333_3333_3333_3333_3333;

/// Lower bit of each 2-bit block.
pub const RIGHT_MASK6: u128 = 0x5555_5555_5555_5555_5555_5555_5555_5555;

/// The left masks, indexed by level.
pub const LEFT_MASKS: [u128; 7] = [
    LEFT_MASK0,
    LEFT_MASK1,
    LEFT_MASK2,
    LEFT_MASK3,
    LEFT_MASK4,
    LEFT_MASK5,
    LEFT_MASK6,
];

/// The right masks, indexed by level.
pub const RIGHT_MASKS: [u128; 7] = [
    RIGHT_MASK0,
    RIGHT_MASK1,
    RIGHT_MASK2,
    RIGHT_MASK3,
    RIGHT_MASK4,
    RIGHT_MASK5,
    RIGHT_MASK6,
];

/// A one in the lowest bit of every 2-bit lane.
pub const ONES2: u128 = 0x5555_5555_5555_5555_5555_5555_5555_5555;

/// A one in the lowest bit of every 4-bit lane.
pub const ONES4: u128 = 0x1111_1111_1111_1111_1111_1111_1111_1111;

/// A one in the lowest bit of every 8-bit lane.
pub const ONES8: u128 = 0x0101_0101_0101_0101_0101_0101_0101_0101;

/// A one in the lowest bit of every 16-bit lane.
pub const ONES16: u128 = 0x0001_0001_0001_0001_0001_0001_0001_0001;

/// A one in the lowest bit of every 32-bit lane.
pub const ONES32: u128 = 0x0000_0001_0000_0001_0000_0001_0000_0001;

/// A one in the lowest bit of every 64-bit lane.
pub const ONES64: u128 = 0x0000_0000_0000_0001_0000_0000_0000_0001;

/// The top bit of every 2-bit lane.
pub const SIGNS2: u128 = ONES2 << 1u32;

/// The top bit of every 4-bit lane.
pub const SIGNS4: u128 = ONES4 << 3u32;

/// The top bit of every 8-bit lane.
pub const SIGNS8: u128 = ONES8 << 7u32;

/// The top bit of every 16-bit lane.
pub const SIGNS16: u128 = ONES16 << 15u32;

/// The top bit of every 32-bit lane.
pub const SIGNS32: u128 = ONES32 << 31u32;

/// The top bit of every 64-bit lane.
pub const SIGNS64: u128 = ONES64 << 63u32;

/// The bits of a 2-bit lane that a hamming weight of 0 to 2 may use.
pub const WEIGHT_MASK2: u128 = 0xFFFF_FFFF_FFFF_FFFF_FFFF_FFFF_FFFF_FFFF;

/// The low 3 bits of every 4-bit lane: room for a weight of 0 to 4.
pub const WEIGHT_MASK4: u128 = 0x7777_7777_7777_7777_7777_7777_7777_7777;

/// The low 4 bits of every 8-bit lane: room for a weight of 0 to 8.
pub const WEIGHT_MASK8: u128 = 0x0F0F_0F0F_0F0F_0F0F_0F0F_0F0F_0F0F_0F0F;

/// The low 5 bits of every 16-bit lane: room for a weight of 0 to 16.
pub const WEIGHT_MASK16: u128 = 0x001F_001F_001F_001F_001F_001F_001F_001F;

/// The low 6 bits of every 32-bit lane: room for a weight of 0 to 32.
pub const WEIGHT_MASK32: u128 = 0x0000_003F_0000_003F_0000_003F_0000_003F;

/// The low 7 bits of every 64-bit lane: room for a weight of 0 to 64.
pub const WEIGHT_MASK64: u128 = 0x0000_0000_0000_007F_0000_0000_0000_007F;

/// The highest bit that a weight of a 2-bit lane uses.
pub const WEIGHT_MSB2: u128 = ONES2 << 1u32;

/// The highest bit that a weight of a 4-bit lane uses.
pub const WEIGHT_MSB4: u128 = ONES4 << 2u32;

/// The highest bit that a weight of an 8-bit lane uses.
pub const WEIGHT_MSB8: u128 = ONES8 << 3u32;

/// The highest bit that a weight of a 16-bit lane uses.
pub const WEIGHT_MSB16: u128 = ONES16 << 4u32;

/// The highest bit that a weight of a 32-bit lane uses.
pub const WEIGHT_MSB32: u128 = ONES32 << 5u32;

/// The highest bit that a weight of a 64-bit lane uses.
pub const WEIGHT_MSB64: u128 = ONES64 << 6u32;

/// The left mask of a level, as a spec value.
pub open spec fn left_mask_at(level: int) -> u128 {
    if level == 0 {
        LEFT_MASK0
    } else if level == 1 {
        LEFT_MASK1
    } else if level == 2 {
        LEFT_MASK2
    } else if level == 3 {
        LEFT_MASK3
    } else if level == 4 {
        LEFT_MASK4
    } else if level == 5 {
        LEFT_MASK5
    } else {
        LEFT_MASK6
    }
}

/// The right mask of a level, as a spec value.
pub open spec fn right_mask_at(level: int) -> u128 {
    if level == 0 {
        RIGHT_MASK0
    } else if level == 1 {
        RIGHT_MASK1
    } else if level == 2 {
        RIGHT_MASK2
    } else if level == 3 {
        RIGHT_MASK3
    } else if level == 4 {
        RIGHT_MASK4
    } else if level == 5 {
        RIGHT_MASK5
    } else {
        RIGHT_MASK6
    }
}

/// Looks up the left mask of a subdivision level.
pub fn left_mask(level: usize) -> (r: u128)
    requires
        level < 7,
    ensures
        r == left_mask_at(level as int),
{
    LEFT_MASKS[level]
}

/// Looks up the right mask of a subdivision level.
pub fn right_mask(level: usize) -> (r: u128)
    requires
        level < 7,
    ensures
        r == right_mask_at(level as int),
{
    RIGHT_MASKS[level]
}

/// At every level the two masks cover the word and do not overlap.
pub proof fn lemma_masks_complementary(level: int)
    requires
        0 <= level < 7,
    ensures
        left_mask_at(level) | right_mask_at(level) == u128::MAX,
        left_mask_at(level) & right_mask_at(level) == 0,
{
    assert(LEFT_MASK0 | RIGHT_MASK0 == u128::MAX && LEFT_MASK0 & RIGHT_MASK0 == 0
        && LEFT_MASK1 | RIGHT_MASK1 == u128::MAX && LEFT_MASK1 & RIGHT_MASK1 == 0
        && LEFT_MASK2 | RIGHT_MASK2 == u128::MAX && LEFT_MASK2 & RIGHT_MASK2 == 0
        && LEFT_MASK3 | RIGHT_MASK3 == u128::MAX && LEFT_MASK3 & RIGHT_MASK3 == 0
        && LEFT_MASK4 | RIGHT_MASK4 == u128::MAX && LEFT_MASK4 & RIGHT_MASK4 == 0
        && LEFT_MASK5 | RIGHT_MASK5 == u128::MAX && LEFT_MASK5 & RIGHT_MASK5 == 0
        && LEFT_MASK6 | RIGHT_MASK6 == u128::MAX && LEFT_MASK6 & RIGHT_MASK6 == 0)
        by (bit_vector);
}

} // verus!
