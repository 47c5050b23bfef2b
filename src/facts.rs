//! Bit-level facts behind the lane algebra, one group per operation. Each is
//! proved by the bit-vector solver for a symbolic lane index at every width.
use vstd::prelude::*;

use crate::masks::{
    LEFT_MASK0, LEFT_MASK1, LEFT_MASK2, LEFT_MASK3, LEFT_MASK4, LEFT_MASK5, LEFT_MASK6, RIGHT_MASK0,
    RIGHT_MASK1, RIGHT_MASK2, RIGHT_MASK3, RIGHT_MASK4, RIGHT_MASK5, RIGHT_MASK6, WEIGHT_MASK16,
    WEIGHT_MASK32, WEIGHT_MASK4, WEIGHT_MASK64, WEIGHT_MASK8, WEIGHT_MSB16, WEIGHT_MSB32,
    WEIGHT_MSB4, WEIGHT_MSB64, WEIGHT_MSB8,
};
use crate::model::{
    field, lane, low_ones, max_distance, min_distance, narrow, packed, weight_mask, weights,
};

verus! {

/// Splitting a word into its odd and even lanes, at every width.
pub(crate) proof fn lemma_split(n: u128)
    by (bit_vector)
    ensures
        forall|i: u128|
            i < 64 ==> #[trigger] lane((n & LEFT_MASK6) >> 1u32, 2, i) == lane(n, 1, (2 * i + 1) as u128)
                && lane(n & RIGHT_MASK6, 2, i) == lane(n, 1, (2 * i) as u128),
        narrow((n & LEFT_MASK6) >> 1u32, 2) && narrow(n & RIGHT_MASK6, 2),
        forall|i: u128|
            i < 32 ==> #[trigger] lane((n & LEFT_MASK5) >> 2u32, 4, i) == lane(n, 2, (2 * i + 1) as u128)
                && lane(n & RIGHT_MASK5, 4, i) == lane(n, 2, (2 * i) as u128),
        narrow((n & LEFT_MASK5) >> 2u32, 4) && narrow(n & RIGHT_MASK5, 4),
        forall|i: u128|
            i < 16 ==> #[trigger] lane((n & LEFT_MASK4) >> 4u32, 8, i) == lane(n, 4, (2 * i + 1) as u128)
                && lane(n & RIGHT_MASK4, 8, i) == lane(n, 4, (2 * i) as u128),
        narrow((n & LEFT_MASK4) >> 4u32, 8) && narrow(n & RIGHT_MASK4, 8),
        forall|i: u128|
            i < 8 ==> #[trigger] lane((n & LEFT_MASK3) >> 8u32, 16, i) == lane(n, 8, (2 * i + 1) as u128)
                && lane(n & RIGHT_MASK3, 16, i) == lane(n, 8, (2 * i) as u128),
        narrow((n & LEFT_MASK3) >> 8u32, 16) && narrow(n & RIGHT_MASK3, 16),
        forall|i: u128|
            i < 4 ==> #[trigger] lane((n & LEFT_MASK2) >> 16u32, 32, i) == lane(n, 16, (2 * i + 1) as u128)
                && lane(n & RIGHT_MASK2, 32, i) == lane(n, 16, (2 * i) as u128),
        narrow((n & LEFT_MASK2) >> 16u32, 32) && narrow(n & RIGHT_MASK2, 32),
        forall|i: u128|
            i < 2 ==> #[trigger] lane((n & LEFT_MASK1) >> 32u32, 64, i) == lane(n, 32, (2 * i + 1) as u128)
                && lane(n & RIGHT_MASK1, 64, i) == lane(n, 32, (2 * i) as u128),
        narrow((n & LEFT_MASK1) >> 32u32, 64) && narrow(n & RIGHT_MASK1, 64),
        forall|i: u128|
            i < 1 ==> #[trigger] lane((n & LEFT_MASK0) >> 64u32, 128, i) == lane(n, 64, (2 * i + 1) as u128)
                && lane(n & RIGHT_MASK0, 128, i) == lane(n, 64, (2 * i) as u128),
        narrow((n & LEFT_MASK0) >> 64u32, 128) && narrow(n & RIGHT_MASK0, 128),
{
}

/// Adding two words whose lanes fit in their lower halves carries nothing
/// from one lane into the next.
pub(crate) proof fn lemma_add_narrow(a: u128, b: u128)
    by (bit_vector)
    ensures
        narrow(a, 2) && narrow(b, 2) ==> a + b <= u128::MAX && forall|i: u128|
            i < 64 ==> #[trigger] lane((a + b) as u128, 2, i) == lane(a, 2, i) + lane(b, 2, i),
        narrow(a, 4) && narrow(b, 4) ==> a + b <= u128::MAX && forall|i: u128|
            i < 32 ==> #[trigger] lane((a + b) as u128, 4, i) == lane(a, 4, i) + lane(b, 4, i),
        narrow(a, 8) && narrow(b, 8) ==> a + b <= u128::MAX && forall|i: u128|
            i < 16 ==> #[trigger] lane((a + b) as u128, 8, i) == lane(a, 8, i) + lane(b, 8, i),
        narrow(a, 16) && narrow(b, 16) ==> a + b <= u128::MAX && forall|i: u128|
            i < 8 ==> #[trigger] lane((a + b) as u128, 16, i) == lane(a, 16, i) + lane(b, 16, i),
        narrow(a, 32) && narrow(b, 32) ==> a + b <= u128::MAX && forall|i: u128|
            i < 4 ==> #[trigger] lane((a + b) as u128, 32, i) == lane(a, 32, i) + lane(b, 32, i),
        narrow(a, 64) && narrow(b, 64) ==> a + b <= u128::MAX && forall|i: u128|
            i < 2 ==> #[trigger] lane((a + b) as u128, 64, i) == lane(a, 64, i) + lane(b, 64, i),
        narrow(a, 128) && narrow(b, 128) ==> a + b <= u128::MAX && forall|i: u128|
            i < 1 ==> #[trigger] lane((a + b) as u128, 128, i) == lane(a, 128, i) + lane(b, 128, i),
{
}

/// Every lane of a word of hamming weights leaves the bits above its weight
/// bits clear.
pub(crate) proof fn lemma_weight_step(x: u128, i: u128)
    by (bit_vector)
    ensures
        i < 32 && field(x & !WEIGHT_MASK4, 0, (4 * i) as u128) == 0 && lane(x, 4, i) <= 4
            ==> field(x & !WEIGHT_MASK4, 0, (4 * i + 4) as u128) == 0,
        i < 16 && field(x & !WEIGHT_MASK8, 0, (8 * i) as u128) == 0 && lane(x, 8, i) <= 8
            ==> field(x & !WEIGHT_MASK8, 0, (8 * i + 8) as u128) == 0,
        i < 8 && field(x & !WEIGHT_MASK16, 0, (16 * i) as u128) == 0 && lane(x, 16, i) <= 16
            ==> field(x & !WEIGHT_MASK16, 0, (16 * i + 16) as u128) == 0,
        i < 4 && field(x & !WEIGHT_MASK32, 0, (32 * i) as u128) == 0 && lane(x, 32, i) <= 32
            ==> field(x & !WEIGHT_MASK32, 0, (32 * i + 32) as u128) == 0,
        i < 2 && field(x & !WEIGHT_MASK64, 0, (64 * i) as u128) == 0 && lane(x, 64, i) <= 64
            ==> field(x & !WEIGHT_MASK64, 0, (64 * i + 64) as u128) == 0,
        field(x, 0, 128) == x,
        field(x, 0, 0) == 0,
{
}

/// The low `k * i` bits of a word of hamming weights use only weight bits.
pub(crate) proof fn lemma_weights_prefix(x: u128, k: u128, i: u128)
    requires
        k == 4 || k == 8 || k == 16 || k == 32 || k == 64,
        i <= 128u128 / k,
        weights(x, k),
    ensures
        field(x & !weight_mask(k), 0, (k * i) as u128) == 0,
    decreases i,
{
    lemma_weight_step(x & !weight_mask(k), 0);
    if i > 0 {
        let j = (i - 1) as u128;
        lemma_weights_prefix(x, k, j);
        lemma_weight_step(x, j);
        assert(lane(x, k, j) <= k);
        assert(k * j + k == k * i) by (nonlinear_arith)
            requires
                j + 1 == i,
        ;
    }
}

/// A word of `k`-bit hamming weights uses only the weight bits of each lane.
pub(crate) proof fn lemma_weights_fit(x: u128, k: u128)
    requires
        k == 4 || k == 8 || k == 16 || k == 32 || k == 64,
        weights(x, k),
    ensures
        x & !weight_mask(k) == 0,
{
    lemma_weights_prefix(x, k, 128u128 / k);
    lemma_weight_step(x & !weight_mask(k), 0);
}

/// The lane-wise distance of two words of 4-bit hamming weights.
pub(crate) proof fn lemma_distance4(a: u128, b: u128)
    by (bit_vector)
    requires
        a & !WEIGHT_MASK4 == 0,
        b & !WEIGHT_MASK4 == 0,
    ensures
        a + (b ^ WEIGHT_MASK4) <= u128::MAX,
        ({
            let m = (a + (b ^ WEIGHT_MASK4)) as u128;
            let high = m & WEIGHT_MSB4;
            let offset = (high ^ WEIGHT_MSB4) >> 2u32;
            let flips = high | high >> 1u32 | high >> 2u32;
            (m ^ flips) + offset <= u128::MAX
        }),
        forall|i: u128|
            i < 32 && #[trigger] lane(a, 4, i) <= 4 && lane(b, 4, i) <= 4 ==> {
                let m = (a + (b ^ WEIGHT_MASK4)) as u128;
                let high = m & WEIGHT_MSB4;
                let offset = (high ^ WEIGHT_MSB4) >> 2u32;
                let flips = high | high >> 1u32 | high >> 2u32;
                lane((((m ^ flips) + offset) as u128) & WEIGHT_MASK4, 4, i) == min_distance(
                    lane(a, 4, i),
                    lane(b, 4, i),
                )
            },
{
}

/// The lane-wise distance of two words of 8-bit hamming weights.
pub(crate) proof fn lemma_distance8(a: u128, b: u128)
    by (bit_vector)
    requires
        a & !WEIGHT_MASK8 == 0,
        b & !WEIGHT_MASK8 == 0,
    ensures
        a + (b ^ WEIGHT_MASK8) <= u128::MAX,
        ({
            let m = (a + (b ^ WEIGHT_MASK8)) as u128;
            let high = m & WEIGHT_MSB8;
            let offset = (high ^ WEIGHT_MSB8) >> 3u32;
            let flips = high | high >> 1u32;
            let flips = flips | flips >> 2u32;
            (m ^ flips) + offset <= u128::MAX
        }),
        forall|i: u128|
            i < 16 && #[trigger] lane(a, 8, i) <= 8 && lane(b, 8, i) <= 8 ==> {
                let m = (a + (b ^ WEIGHT_MASK8)) as u128;
                let high = m & WEIGHT_MSB8;
                let offset = (high ^ WEIGHT_MSB8) >> 3u32;
                let flips = high | high >> 1u32;
                let flips = flips | flips >> 2u32;
                lane((((m ^ flips) + offset) as u128) & WEIGHT_MASK8, 8, i) == min_distance(
                    lane(a, 8, i),
                    lane(b, 8, i),
                )
            },
{
}

/// The lane-wise distance of two words of 16-bit hamming weights.
pub(crate) proof fn lemma_distance16(a: u128, b: u128)
    by (bit_vector)
    requires
        a & !WEIGHT_MASK16 == 0,
        b & !WEIGHT_MASK16 == 0,
    ensures
        a + (b ^ WEIGHT_MASK16) <= u128::MAX,
        ({
            let m = (a + (b ^ WEIGHT_MASK16)) as u128;
            let high = m & WEIGHT_MSB16;
            let offset = (high ^ WEIGHT_MSB16) >> 4u32;
            let flips = high | high >> 1u32;
            let flips = flips | flips >> 2u32 | high >> 4u32;
            (m ^ flips) + offset <= u128::MAX
        }),
        forall|i: u128|
            i < 8 && #[trigger] lane(a, 16, i) <= 16 && lane(b, 16, i) <= 16 ==> {
                let m = (a + (b ^ WEIGHT_MASK16)) as u128;
                let high = m & WEIGHT_MSB16;
                let offset = (high ^ WEIGHT_MSB16) >> 4u32;
                let flips = high | high >> 1u32;
                let flips = flips | flips >> 2u32 | high >> 4u32;
                lane((((m ^ flips) + offset) as u128) & WEIGHT_MASK16, 16, i) == min_distance(
                    lane(a, 16, i),
                    lane(b, 16, i),
                )
            },
{
}

/// The lane-wise distance of two words of 32-bit hamming weights.
pub(crate) proof fn lemma_distance32(a: u128, b: u128)
    by (bit_vector)
    requires
        a & !WEIGHT_MASK32 == 0,
        b & !WEIGHT_MASK32 == 0,
    ensures
        a + (b ^ WEIGHT_MASK32) <= u128::MAX,
        ({
            let m = (a + (b ^ WEIGHT_MASK32)) as u128;
            let high = m & WEIGHT_MSB32;
            let offset = (high ^ WEIGHT_MSB32) >> 5u32;
            let flips = high | high >> 1u32;
            let flips = flips | flips >> 2u32;
            let flips = flips | flips >> 2u32;
            (m ^ flips) + offset <= u128::MAX
        }),
        forall|i: u128|
            i < 4 && #[trigger] lane(a, 32, i) <= 32 && lane(b, 32, i) <= 32 ==> {
                let m = (a + (b ^ WEIGHT_MASK32)) as u128;
                let high = m & WEIGHT_MSB32;
                let offset = (high ^ WEIGHT_MSB32) >> 5u32;
                let flips = high | high >> 1u32;
                let flips = flips | flips >> 2u32;
                let flips = flips | flips >> 2u32;
                lane((((m ^ flips) + offset) as u128) & WEIGHT_MASK32, 32, i) == min_distance(
                    lane(a, 32, i),
                    lane(b, 32, i),
                )
            },
{
}

/// The lane-wise distance of two words of 64-bit hamming weights.
pub(crate) proof fn lemma_distance64(a: u128, b: u128)
    by (bit_vector)
    requires
        a & !WEIGHT_MASK64 == 0,
        b & !WEIGHT_MASK64 == 0,
    ensures
        a + (b ^ WEIGHT_MASK64) <= u128::MAX,
        ({
            let m = (a + (b ^ WEIGHT_MASK64)) as u128;
            let high = m & WEIGHT_MSB64;
            let offset = (high ^ WEIGHT_MSB64) >> 6u32;
            let flips = high | high >> 1u32;
            let flips = flips | flips >> 2u32;
            let flips = flips | flips >> 3u32;
            (m ^ flips) + offset <= u128::MAX
        }),
        forall|i: u128|
            i < 2 && #[trigger] lane(a, 64, i) <= 64 && lane(b, 64, i) <= 64 ==> {
                let m = (a + (b ^ WEIGHT_MASK64)) as u128;
                let high = m & WEIGHT_MSB64;
                let offset = (high ^ WEIGHT_MSB64) >> 6u32;
                let flips = high | high >> 1u32;
                let flips = flips | flips >> 2u32;
                let flips = flips | flips >> 3u32;
                lane((((m ^ flips) + offset) as u128) & WEIGHT_MASK64, 64, i) == min_distance(
                    lane(a, 64, i),
                    lane(b, 64, i),
                )
            },
{
}

/// The distances of single bits and of 2-bit hamming weights, lane by lane.
pub(crate) proof fn lemma_small_distances(a: u128, b: u128)
    by (bit_vector)
    ensures
        forall|i: u128|
            i < 128 ==> #[trigger] lane(a ^ b, 1, i) == min_distance(lane(a, 1, i), lane(b, 1, i))
                && lane(a ^ b, 1, i) == max_distance(lane(a, 1, i), lane(b, 1, i), 1),
        forall|i: u128|
            i < 64 && #[trigger] lane(a, 2, i) <= 2 && lane(b, 2, i) <= 2 ==> lane(
                RIGHT_MASK6 & (a ^ b) | LEFT_MASK6 & (b & !a & !a << 1u32 | a & !b & !b << 1u32),
                2,
                i,
            ) == min_distance(lane(a, 2, i), lane(b, 2, i)) && lane(
                RIGHT_MASK6 & (a ^ b) | LEFT_MASK6 & (b & !a & !a << 1u32 | a & !b & !b << 1u32
                    | a << 1u32 & b << 1u32),
                2,
                i,
            ) == max_distance(lane(a, 2, i), lane(b, 2, i), 2),
{
}

/// The two lanes of a word of 64-bit lanes.
pub(crate) proof fn lemma_two_lanes(a: u128, low: u128, high: u128)
    by (bit_vector)
    ensures
        lane(a, 64, 0) == a & RIGHT_MASK0,
        lane(a, 64, 1) == a >> 64u32,
        lane(a, 128, 0) == a,
        a >> 64u32 <= RIGHT_MASK0,
        a & RIGHT_MASK0 <= RIGHT_MASK0,
        low <= RIGHT_MASK0 && high <= RIGHT_MASK0 ==> lane(high << 64u32 | low, 64, 0) == low
            && lane(high << 64u32 | low, 64, 1) == high,
{
}

/// Spreads the 64 lanes of one bit in the low half of `x` over the whole
/// word, one to each lane of 2 bits.
pub(crate) open spec fn spread1(x: u128) -> u128 {
    let x = (x & LEFT_MASK1) << 32u32 | x & RIGHT_MASK1;
    let x = (x & LEFT_MASK2) << 16u32 | x & RIGHT_MASK2;
    let x = (x & LEFT_MASK3) << 8u32 | x & RIGHT_MASK3;
    let x = (x & LEFT_MASK4) << 4u32 | x & RIGHT_MASK4;
    let x = (x & LEFT_MASK5) << 2u32 | x & RIGHT_MASK5;
    let x = (x & LEFT_MASK6) << 1u32 | x & RIGHT_MASK6;
    x
}

/// Gathers the low halves of the 64 lanes of 2 bits of `x` into
/// lanes of one bit in the low half of the word.
pub(crate) open spec fn gather1(x: u128) -> u128 {
    let x = (x & LEFT_MASK5) >> 1u32 | x & RIGHT_MASK5;
    let x = (x & LEFT_MASK4) >> 2u32 | x & RIGHT_MASK4;
    let x = (x & LEFT_MASK3) >> 4u32 | x & RIGHT_MASK3;
    let x = (x & LEFT_MASK2) >> 8u32 | x & RIGHT_MASK2;
    let x = (x & LEFT_MASK1) >> 16u32 | x & RIGHT_MASK1;
    let x = (x & LEFT_MASK0) >> 32u32 | x & RIGHT_MASK0;
    x
}

/// Spreads the 32 lanes of 2 bits in the low half of `x` over the whole
/// word, one to each lane of 4 bits.
pub(crate) open spec fn spread2(x: u128) -> u128 {
    let x = (x & LEFT_MASK1) << 32u32 | x & RIGHT_MASK1;
    let x = (x & LEFT_MASK2) << 16u32 | x & RIGHT_MASK2;
    let x = (x & LEFT_MASK3) << 8u32 | x & RIGHT_MASK3;
    let x = (x & LEFT_MASK4) << 4u32 | x & RIGHT_MASK4;
    let x = (x & LEFT_MASK5) << 2u32 | x & RIGHT_MASK5;
    x
}

/// Gathers the low halves of the 32 lanes of 4 bits of `x` into
/// lanes of 2 bits in the low half of the word.
pub(crate) open spec fn gather2(x: u128) -> u128 {
    let x = (x & LEFT_MASK4) >> 2u32 | x & RIGHT_MASK4;
    let x = (x & LEFT_MASK3) >> 4u32 | x & RIGHT_MASK3;
    let x = (x & LEFT_MASK2) >> 8u32 | x & RIGHT_MASK2;
    let x = (x & LEFT_MASK1) >> 16u32 | x & RIGHT_MASK1;
    let x = (x & LEFT_MASK0) >> 32u32 | x & RIGHT_MASK0;
    x
}

/// Spreads the 16 lanes of 4 bits in the low half of `x` over the whole
/// word, one to each lane of 8 bits.
pub(crate) open spec fn spread4(x: u128) -> u128 {
    let x = (x & LEFT_MASK1) << 32u32 | x & RIGHT_MASK1;
    let x = (x & LEFT_MASK2) << 16u32 | x & RIGHT_MASK2;
    let x = (x & LEFT_MASK3) << 8u32 | x & RIGHT_MASK3;
    let x = (x & LEFT_MASK4) << 4u32 | x & RIGHT_MASK4;
    x
}

/// Gathers the low halves of the 16 lanes of 8 bits of `x` into
/// lanes of 4 bits in the low half of the word.
pub(crate) open spec fn gather4(x: u128) -> u128 {
    let x = (x & LEFT_MASK3) >> 4u32 | x & RIGHT_MASK3;
    let x = (x & LEFT_MASK2) >> 8u32 | x & RIGHT_MASK2;
    let x = (x & LEFT_MASK1) >> 16u32 | x & RIGHT_MASK1;
    let x = (x & LEFT_MASK0) >> 32u32 | x & RIGHT_MASK0;
    x
}

/// Spreads the 8 lanes of 8 bits in the low half of `x` over the whole
/// word, one to each lane of 16 bits.
pub(crate) open spec fn spread8(x: u128) -> u128 {
    let x = (x & LEFT_MASK1) << 32u32 | x & RIGHT_MASK1;
    let x = (x & LEFT_MASK2) << 16u32 | x & RIGHT_MASK2;
    let x = (x & LEFT_MASK3) << 8u32 | x & RIGHT_MASK3;
    x
}

/// Gathers the low halves of the 8 lanes of 16 bits of `x` into
/// lanes of 8 bits in the low half of the word.
pub(crate) open spec fn gather8(x: u128) -> u128 {
    let x = (x & LEFT_MASK2) >> 8u32 | x & RIGHT_MASK2;
    let x = (x & LEFT_MASK1) >> 16u32 | x & RIGHT_MASK1;
    let x = (x & LEFT_MASK0) >> 32u32 | x & RIGHT_MASK0;
    x
}

/// Spreads the 4 lanes of 16 bits in the low half of `x` over the whole
/// word, one to each lane of 32 bits.
pub(crate) open spec fn spread16(x: u128) -> u128 {
    let x = (x & LEFT_MASK1) << 32u32 | x & RIGHT_MASK1;
    let x = (x & LEFT_MASK2) << 16u32 | x & RIGHT_MASK2;
    x
}

/// Gathers the low halves of the 4 lanes of 32 bits of `x` into
/// lanes of 16 bits in the low half of the word.
pub(crate) open spec fn gather16(x: u128) -> u128 {
    let x = (x & LEFT_MASK1) >> 16u32 | x & RIGHT_MASK1;
    let x = (x & LEFT_MASK0) >> 32u32 | x & RIGHT_MASK0;
    x
}

/// Spreads the 2 lanes of 32 bits in the low half of `x` over the whole
/// word, one to each lane of 64 bits.
pub(crate) open spec fn spread32(x: u128) -> u128 {
    let x = (x & LEFT_MASK1) << 32u32 | x & RIGHT_MASK1;
    x
}

/// Gathers the low halves of the 2 lanes of 64 bits of `x` into
/// lanes of 32 bits in the low half of the word.
pub(crate) open spec fn gather32(x: u128) -> u128 {
    let x = (x & LEFT_MASK0) >> 32u32 | x & RIGHT_MASK0;
    x
}

/// Spreads the 1 lanes of 64 bits in the low half of `x` over the whole
/// word, one to each lane of 128 bits.
pub(crate) open spec fn spread64(x: u128) -> u128 {
    x
}

/// Gathers the low halves of the 1 lanes of 128 bits of `x` into
/// lanes of 64 bits in the low half of the word.
pub(crate) open spec fn gather64(x: u128) -> u128 {
    x
}

/// Halving a word of 1-bit lanes, and joining two halves back.
pub(crate) proof fn lemma_halve_union1(n: u128, left: u128, right: u128)
    by (bit_vector)
    ensures
        forall|i: u128|
            i < 64 ==> #[trigger] lane(spread1((n & LEFT_MASK0) >> 64u32), 2, i) == lane(
                n,
                1,
                (i + 64) as u128,
            ),
        forall|i: u128| i < 64 ==> #[trigger] lane(spread1(n & RIGHT_MASK0), 2, i) == lane(n, 1, i),
        narrow(spread1((n & LEFT_MASK0) >> 64u32), 2),
        narrow(spread1(n & RIGHT_MASK0), 2),
        narrow(left, 2) && narrow(right, 2) ==> forall|i: u128|
            i < 64 ==> #[trigger] lane(right, 2, i) == lane(gather1(left) << 64u32 | gather1(right), 1, i),
        narrow(left, 2) && narrow(right, 2) ==> forall|i: u128|
            i < 64 ==> #[trigger] lane(left, 2, i) == lane(
                gather1(left) << 64u32 | gather1(right),
                1,
                (i + 64) as u128,
            ),
{
}

/// Halving a word of 2-bit lanes, and joining two halves back.
pub(crate) proof fn lemma_halve_union2(n: u128, left: u128, right: u128)
    by (bit_vector)
    ensures
        forall|i: u128|
            i < 32 ==> #[trigger] lane(spread2((n & LEFT_MASK0) >> 64u32), 4, i) == lane(
                n,
                2,
                (i + 32) as u128,
            ),
        forall|i: u128| i < 32 ==> #[trigger] lane(spread2(n & RIGHT_MASK0), 4, i) == lane(n, 2, i),
        narrow(spread2((n & LEFT_MASK0) >> 64u32), 4),
        narrow(spread2(n & RIGHT_MASK0), 4),
        narrow(left, 4) && narrow(right, 4) ==> forall|i: u128|
            i < 32 ==> #[trigger] lane(right, 4, i) == lane(gather2(left) << 64u32 | gather2(right), 2, i),
        narrow(left, 4) && narrow(right, 4) ==> forall|i: u128|
            i < 32 ==> #[trigger] lane(left, 4, i) == lane(
                gather2(left) << 64u32 | gather2(right),
                2,
                (i + 32) as u128,
            ),
{
}

/// Halving a word of 4-bit lanes, and joining two halves back.
pub(crate) proof fn lemma_halve_union4(n: u128, left: u128, right: u128)
    by (bit_vector)
    ensures
        forall|i: u128|
            i < 16 ==> #[trigger] lane(spread4((n & LEFT_MASK0) >> 64u32), 8, i) == lane(
                n,
                4,
                (i + 16) as u128,
            ),
        forall|i: u128| i < 16 ==> #[trigger] lane(spread4(n & RIGHT_MASK0), 8, i) == lane(n, 4, i),
        narrow(spread4((n & LEFT_MASK0) >> 64u32), 8),
        narrow(spread4(n & RIGHT_MASK0), 8),
        narrow(left, 8) && narrow(right, 8) ==> forall|i: u128|
            i < 16 ==> #[trigger] lane(right, 8, i) == lane(gather4(left) << 64u32 | gather4(right), 4, i),
        narrow(left, 8) && narrow(right, 8) ==> forall|i: u128|
            i < 16 ==> #[trigger] lane(left, 8, i) == lane(
                gather4(left) << 64u32 | gather4(right),
                4,
                (i + 16) as u128,
            ),
{
}

/// Halving a word of 8-bit lanes, and joining two halves back.
pub(crate) proof fn lemma_halve_union8(n: u128, left: u128, right: u128)
    by (bit_vector)
    ensures
        forall|i: u128|
            i < 8 ==> #[trigger] lane(spread8((n & LEFT_MASK0) >> 64u32), 16, i) == lane(
                n,
                8,
                (i + 8) as u128,
            ),
        forall|i: u128| i < 8 ==> #[trigger] lane(spread8(n & RIGHT_MASK0), 16, i) == lane(n, 8, i),
        narrow(spread8((n & LEFT_MASK0) >> 64u32), 16),
        narrow(spread8(n & RIGHT_MASK0), 16),
        narrow(left, 16) && narrow(right, 16) ==> forall|i: u128|
            i < 8 ==> #[trigger] lane(right, 16, i) == lane(gather8(left) << 64u32 | gather8(right), 8, i),
        narrow(left, 16) && narrow(right, 16) ==> forall|i: u128|
            i < 8 ==> #[trigger] lane(left, 16, i) == lane(
                gather8(left) << 64u32 | gather8(right),
                8,
                (i + 8) as u128,
            ),
{
}

/// Halving a word of 16-bit lanes, and joining two halves back.
pub(crate) proof fn lemma_halve_union16(n: u128, left: u128, right: u128)
    by (bit_vector)
    ensures
        forall|i: u128|
            i < 4 ==> #[trigger] lane(spread16((n & LEFT_MASK0) >> 64u32), 32, i) == lane(
                n,
                16,
                (i + 4) as u128,
            ),
        forall|i: u128| i < 4 ==> #[trigger] lane(spread16(n & RIGHT_MASK0), 32, i) == lane(n, 16, i),
        narrow(spread16((n & LEFT_MASK0) >> 64u32), 32),
        narrow(spread16(n & RIGHT_MASK0), 32),
        narrow(left, 32) && narrow(right, 32) ==> forall|i: u128|
            i < 4 ==> #[trigger] lane(right, 32, i) == lane(gather16(left) << 64u32 | gather16(right), 16, i),
        narrow(left, 32) && narrow(right, 32) ==> forall|i: u128|
            i < 4 ==> #[trigger] lane(left, 32, i) == lane(
                gather16(left) << 64u32 | gather16(right),
                16,
                (i + 4) as u128,
            ),
{
}

/// Halving a word of 32-bit lanes, and joining two halves back.
pub(crate) proof fn lemma_halve_union32(n: u128, left: u128, right: u128)
    by (bit_vector)
    ensures
        forall|i: u128|
            i < 2 ==> #[trigger] lane(spread32((n & LEFT_MASK0) >> 64u32), 64, i) == lane(
                n,
                32,
                (i + 2) as u128,
            ),
        forall|i: u128| i < 2 ==> #[trigger] lane(spread32(n & RIGHT_MASK0), 64, i) == lane(n, 32, i),
        narrow(spread32((n & LEFT_MASK0) >> 64u32), 64),
        narrow(spread32(n & RIGHT_MASK0), 64),
        narrow(left, 64) && narrow(right, 64) ==> forall|i: u128|
            i < 2 ==> #[trigger] lane(right, 64, i) == lane(gather32(left) << 64u32 | gather32(right), 32, i),
        narrow(left, 64) && narrow(right, 64) ==> forall|i: u128|
            i < 2 ==> #[trigger] lane(left, 64, i) == lane(
                gather32(left) << 64u32 | gather32(right),
                32,
                (i + 2) as u128,
            ),
{
}

/// Halving a word of 64-bit lanes, and joining two halves back.
pub(crate) proof fn lemma_halve_union64(n: u128, left: u128, right: u128)
    by (bit_vector)
    ensures
        forall|i: u128|
            i < 1 ==> #[trigger] lane(spread64((n & LEFT_MASK0) >> 64u32), 128, i) == lane(
                n,
                64,
                (i + 1) as u128,
            ),
        forall|i: u128| i < 1 ==> #[trigger] lane(spread64(n & RIGHT_MASK0), 128, i) == lane(n, 64, i),
        narrow(spread64((n & LEFT_MASK0) >> 64u32), 128),
        narrow(spread64(n & RIGHT_MASK0), 128),
        narrow(left, 128) && narrow(right, 128) ==> forall|i: u128|
            i < 1 ==> #[trigger] lane(right, 128, i) == lane(gather64(left) << 64u32 | gather64(right), 64, i),
        narrow(left, 128) && narrow(right, 128) ==> forall|i: u128|
            i < 1 ==> #[trigger] lane(left, 128, i) == lane(
                gather64(left) << 64u32 | gather64(right),
                64,
                (i + 1) as u128,
            ),
{
}

/// Broadcasting an element to every lane, at every width.
pub(crate) proof fn lemma_from_element(e: u128, r: u128)
    by (bit_vector)
    ensures
        ({
            let n0 = e | e << 1u32;
            let n1 = n0 | n0 << 2u32;
            let n2 = n1 | n1 << 4u32;
            let n3 = n2 | n2 << 8u32;
            let n4 = n3 | n3 << 16u32;
            let n5 = n4 | n4 << 32u32;
            let n6 = n5 | n5 << 64u32;
            r == n6
        }) && e < 2 ==> forall|i: u128| i < 128 ==> #[trigger] lane(r, 1, i) == e,
        ({
            let n0 = e | e << 2u32;
            let n1 = n0 | n0 << 4u32;
            let n2 = n1 | n1 << 8u32;
            let n3 = n2 | n2 << 16u32;
            let n4 = n3 | n3 << 32u32;
            let n5 = n4 | n4 << 64u32;
            r == n5
        }) && e < 4 ==> forall|i: u128| i < 64 ==> #[trigger] lane(r, 2, i) == e,
        ({
            let n0 = e | e << 4u32;
            let n1 = n0 | n0 << 8u32;
            let n2 = n1 | n1 << 16u32;
            let n3 = n2 | n2 << 32u32;
            let n4 = n3 | n3 << 64u32;
            r == n4
        }) && e < 0x10 ==> forall|i: u128| i < 32 ==> #[trigger] lane(r, 4, i) == e,
        ({
            let n0 = e | e << 8u32;
            let n1 = n0 | n0 << 16u32;
            let n2 = n1 | n1 << 32u32;
            let n3 = n2 | n2 << 64u32;
            r == n3
        }) && e < 0x100 ==> forall|i: u128| i < 16 ==> #[trigger] lane(r, 8, i) == e,
        ({
            let n0 = e | e << 16u32;
            let n1 = n0 | n0 << 32u32;
            let n2 = n1 | n1 << 64u32;
            r == n2
        }) && e < 0x1_0000 ==> forall|i: u128| i < 8 ==> #[trigger] lane(r, 16, i) == e,
        ({
            let n0 = e | e << 32u32;
            let n1 = n0 | n0 << 64u32;
            r == n1
        }) && e < 0x1_0000_0000 ==> forall|i: u128| i < 4 ==> #[trigger] lane(r, 32, i) == e,
        ({
            let n0 = e | e << 64u32;
            r == n0
        }) && e < 0x1_0000_0000_0000_0000 ==> forall|i: u128| i < 2 ==> #[trigger] lane(r, 64, i) == e,
{
}

/// Reducing each lane to whether any of its bits is set, from the reduction
/// at half the width.
pub(crate) proof fn lemma_any(x: u128, y: u128, r: u128)
    by (bit_vector)
    ensures
        forall|i: u128| i < 128 ==> #[trigger] lane(x, 1, i) == if lane(x, 1, i) != 0 { 1u128 } else { 0 },
        r == (x & LEFT_MASK6) >> 1u32 | x & RIGHT_MASK6 ==> forall|i: u128|
            i < 64 ==> #[trigger] lane(r, 2, i) == if lane(x, 2, i) != 0 { 1u128 } else { 0 },
        r == (y & LEFT_MASK5) >> 2u32 | y & RIGHT_MASK5 ==> forall|i: u128|
            i < 32 ==> (lane(y, 2, (2 * i) as u128) == if lane(x, 2, (2 * i) as u128) != 0 { 1u128 } else { 0 }
                && lane(y, 2, (2 * i + 1) as u128) == if lane(x, 2, (2 * i + 1) as u128) != 0 { 1u128 } else { 0 }
                ==> #[trigger] lane(r, 4, i) == if lane(x, 4, i) != 0 { 1u128 } else { 0 }),
        r == (y & LEFT_MASK4) >> 4u32 | y & RIGHT_MASK4 ==> forall|i: u128|
            i < 16 ==> (lane(y, 4, (2 * i) as u128) == if lane(x, 4, (2 * i) as u128) != 0 { 1u128 } else { 0 }
                && lane(y, 4, (2 * i + 1) as u128) == if lane(x, 4, (2 * i + 1) as u128) != 0 { 1u128 } else { 0 }
                ==> #[trigger] lane(r, 8, i) == if lane(x, 8, i) != 0 { 1u128 } else { 0 }),
        r == (y & LEFT_MASK3) >> 8u32 | y & RIGHT_MASK3 ==> forall|i: u128|
            i < 8 ==> (lane(y, 8, (2 * i) as u128) == if lane(x, 8, (2 * i) as u128) != 0 { 1u128 } else { 0 }
                && lane(y, 8, (2 * i + 1) as u128) == if lane(x, 8, (2 * i + 1) as u128) != 0 { 1u128 } else { 0 }
                ==> #[trigger] lane(r, 16, i) == if lane(x, 16, i) != 0 { 1u128 } else { 0 }),
        r == (y & LEFT_MASK2) >> 16u32 | y & RIGHT_MASK2 ==> forall|i: u128|
            i < 4 ==> (lane(y, 16, (2 * i) as u128) == if lane(x, 16, (2 * i) as u128) != 0 { 1u128 } else { 0 }
                && lane(y, 16, (2 * i + 1) as u128) == if lane(x, 16, (2 * i + 1) as u128) != 0 { 1u128 } else { 0 }
                ==> #[trigger] lane(r, 32, i) == if lane(x, 32, i) != 0 { 1u128 } else { 0 }),
        r == (y & LEFT_MASK1) >> 32u32 | y & RIGHT_MASK1 ==> forall|i: u128|
            i < 2 ==> (lane(y, 32, (2 * i) as u128) == if lane(x, 32, (2 * i) as u128) != 0 { 1u128 } else { 0 }
                && lane(y, 32, (2 * i + 1) as u128) == if lane(x, 32, (2 * i + 1) as u128) != 0 { 1u128 } else { 0 }
                ==> #[trigger] lane(r, 64, i) == if lane(x, 64, i) != 0 { 1u128 } else { 0 }),
        r == (y & LEFT_MASK0) >> 64u32 | y & RIGHT_MASK0 ==> forall|i: u128|
            i < 1 ==> (lane(y, 64, (2 * i) as u128) == if lane(x, 64, (2 * i) as u128) != 0 { 1u128 } else { 0 }
                && lane(y, 64, (2 * i + 1) as u128) == if lane(x, 64, (2 * i + 1) as u128) != 0 { 1u128 } else { 0 }
                ==> #[trigger] lane(r, 128, i) == if lane(x, 128, i) != 0 { 1u128 } else { 0 }),
{
}

/// Packing the set bits of each lane to its low end, at the widths that have
/// it.
pub(crate) proof fn lemma_pack_ones(x: u128, r: u128)
    by (bit_vector)
    ensures
        r == (x & LEFT_MASK6) >> 1u32 | x & RIGHT_MASK6 | x & (x & RIGHT_MASK6) << 1u32 ==> forall|i: u128|
            i < 64 ==> #[trigger] lane(r, 2, i) == low_ones((field(x, (2 * i) as u128, 1) + field(x, (2 * i + 1) as u128, 1)) as u128),
        ({
            let l0 = x & LEFT_MASK5;
            let l1 = x | RIGHT_MASK5;
            let r0 = x & RIGHT_MASK5;
            let b = l0 | l0 >> 1u32;
            let a = l1 & (l1 >> 1u32 | 1u128 << 127u32);
            r == a & r0 << 2u32 | b & r0 << 1u32 | l0 >> 2u32 | r0
        }) ==> forall|i: u128|
            i < 32 && packed(lane(x, 2, (2 * i) as u128)) && packed(lane(x, 2, (2 * i + 1) as u128)) ==> #[trigger] lane(r, 4, i) == low_ones((field(x, (4 * i) as u128, 1) + field(x, (4 * i + 1) as u128, 1) + field(x, (4 * i + 2) as u128, 1) + field(x, (4 * i + 3) as u128, 1)) as u128),
        ({
            let r1 = x << 4u32 | RIGHT_MASK4;
            let r0 = x & RIGHT_MASK4;
            let a = x & LEFT_MASK4 & LEFT_MASK5 & LEFT_MASK6;
            let a = a | a >> 1u32;
            let a = a | a >> 2u32 | a >> 3u32;
            let b = x & LEFT_MASK4 & LEFT_MASK5 & RIGHT_MASK6;
            let b = b | b >> 1u32;
            let b = b | b >> 2u32 | b >> 3u32;
            let c = x & LEFT_MASK4 & RIGHT_MASK5 & LEFT_MASK6;
            let c = c | c >> 1u32;
            let c = c | c >> 2u32 | c >> 3u32;
            let d = x & LEFT_MASK4 & RIGHT_MASK5 & RIGHT_MASK6;
            let d = d | d >> 1u32;
            let d = d | d >> 2u32 | d >> 3u32;
            r == a & r1 | b & r1 >> 1u32 | c & r1 >> 2u32 | d & r1 >> 3u32 | r0
        }) ==> forall|i: u128|
            i < 16 && packed(lane(x, 4, (2 * i) as u128)) && packed(lane(x, 4, (2 * i + 1) as u128)) ==> #[trigger] lane(r, 8, i) == low_ones((field(x, (8 * i) as u128, 1) + field(x, (8 * i + 1) as u128, 1) + field(x, (8 * i + 2) as u128, 1) + field(x, (8 * i + 3) as u128, 1) + field(x, (8 * i + 4) as u128, 1) + field(x, (8 * i + 5) as u128, 1) + field(x, (8 * i + 6) as u128, 1) + field(x, (8 * i + 7) as u128, 1)) as u128),
{
}

/// The zero word has only zero lanes.
pub(crate) proof fn lemma_zero()
    by (bit_vector)
    ensures
        forall|k: u128, i: u128| #[trigger] lane(0, k, i) == 0,
        forall|k: u128| #[trigger] narrow(0, k),
{
}

/// One more lane of agreement at the bottom of two words.
pub(crate) proof fn lemma_agree_step(x: u128, y: u128, i: u128)
    by (bit_vector)
    ensures
        i < 128 && field(x ^ y, 0, (1 * i) as u128) == 0 && lane(x, 1, i) == lane(y, 1, i)
            ==> field(x ^ y, 0, (1 * i + 1) as u128) == 0,
        i < 64 && field(x ^ y, 0, (2 * i) as u128) == 0 && lane(x, 2, i) == lane(y, 2, i)
            ==> field(x ^ y, 0, (2 * i + 2) as u128) == 0,
        i < 32 && field(x ^ y, 0, (4 * i) as u128) == 0 && lane(x, 4, i) == lane(y, 4, i)
            ==> field(x ^ y, 0, (4 * i + 4) as u128) == 0,
        i < 16 && field(x ^ y, 0, (8 * i) as u128) == 0 && lane(x, 8, i) == lane(y, 8, i)
            ==> field(x ^ y, 0, (8 * i + 8) as u128) == 0,
        i < 8 && field(x ^ y, 0, (16 * i) as u128) == 0 && lane(x, 16, i) == lane(y, 16, i)
            ==> field(x ^ y, 0, (16 * i + 16) as u128) == 0,
        i < 4 && field(x ^ y, 0, (32 * i) as u128) == 0 && lane(x, 32, i) == lane(y, 32, i)
            ==> field(x ^ y, 0, (32 * i + 32) as u128) == 0,
        i < 2 && field(x ^ y, 0, (64 * i) as u128) == 0 && lane(x, 64, i) == lane(y, 64, i)
            ==> field(x ^ y, 0, (64 * i + 64) as u128) == 0,
        field(x ^ y, 0, 0) == 0,
        field(x ^ y, 0, 128) == 0 ==> x == y,
        lane(x, 128, 0) == x,
{
}

/// Two words whose first `i` lanes agree have the same low `k * i` bits.
pub(crate) proof fn lemma_agree_prefix(x: u128, y: u128, k: u128, i: u128)
    requires
        k == 1 || k == 2 || k == 4 || k == 8 || k == 16 || k == 32 || k == 64,
        i <= 128u128 / k,
        forall|j: u128| j < 128u128 / k ==> #[trigger] lane(x, k, j) == lane(y, k, j),
    ensures
        field(x ^ y, 0, (k * i) as u128) == 0,
    decreases i,
{
    lemma_agree_step(x, y, 0);
    if i > 0 {
        let j = (i - 1) as u128;
        lemma_agree_prefix(x, y, k, j);
        lemma_agree_step(x, y, j);
        assert(lane(x, k, j) == lane(y, k, j));
        assert(k * j + k == k * i) by (nonlinear_arith)
            requires
                j + 1 == i,
        ;
    }
}

/// There are half as many lanes of twice the width.
pub(crate) proof fn lemma_half_count(k: u128)
    requires
        k == 1 || k == 2 || k == 4 || k == 8 || k == 16 || k == 32 || k == 64,
    ensures
        128u128 / ((2 * k) as u128) == 64u128 / k,
        128u128 / k == 2 * (64u128 / k),
{
    assert((2 * k) as u128 == 2 * k);
    if k == 1 {
    } else if k == 2 {
    } else if k == 4 {
    } else if k == 8 {
    } else if k == 16 {
    } else if k == 32 {
    } else {
    }
}

/// Moving the odd lanes back up by one lane and laying the even lanes
/// beside them.
pub(crate) proof fn lemma_rejoin_lanes(o: u128, e: u128, i: u128)
    by (bit_vector)
    ensures
        narrow(o, 2) && narrow(e, 2) && i < 64 ==> lane(o << 1u128 | e, 1, (2 * i) as u128) == lane(e, 2, i)
            && lane(o << 1u128 | e, 1, (2 * i + 1) as u128) == lane(o, 2, i),
        narrow(o, 4) && narrow(e, 4) && i < 32 ==> lane(o << 2u128 | e, 2, (2 * i) as u128) == lane(e, 4, i)
            && lane(o << 2u128 | e, 2, (2 * i + 1) as u128) == lane(o, 4, i),
        narrow(o, 8) && narrow(e, 8) && i < 16 ==> lane(o << 4u128 | e, 4, (2 * i) as u128) == lane(e, 8, i)
            && lane(o << 4u128 | e, 4, (2 * i + 1) as u128) == lane(o, 8, i),
        narrow(o, 16) && narrow(e, 16) && i < 8 ==> lane(o << 8u128 | e, 8, (2 * i) as u128) == lane(e, 16, i)
            && lane(o << 8u128 | e, 8, (2 * i + 1) as u128) == lane(o, 16, i),
        narrow(o, 32) && narrow(e, 32) && i < 4 ==> lane(o << 16u128 | e, 16, (2 * i) as u128) == lane(e, 32, i)
            && lane(o << 16u128 | e, 16, (2 * i + 1) as u128) == lane(o, 32, i),
        narrow(o, 64) && narrow(e, 64) && i < 2 ==> lane(o << 32u128 | e, 32, (2 * i) as u128) == lane(e, 64, i)
            && lane(o << 32u128 | e, 32, (2 * i + 1) as u128) == lane(o, 64, i),
        narrow(o, 128) && narrow(e, 128) && i < 1 ==> lane(o << 64u128 | e, 64, (2 * i) as u128) == lane(e, 128, i)
            && lane(o << 64u128 | e, 64, (2 * i + 1) as u128) == lane(o, 128, i),
{
}

} // verus!
