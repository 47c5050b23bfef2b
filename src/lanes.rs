//! The lane algebra: one impl block per lane width.
use vstd::prelude::*;

use crate::masks::{
    LEFT_MASK0, LEFT_MASK1, LEFT_MASK2, LEFT_MASK3, LEFT_MASK4, LEFT_MASK5, LEFT_MASK6, RIGHT_MASK0,
    RIGHT_MASK1, RIGHT_MASK2, RIGHT_MASK3, RIGHT_MASK4, RIGHT_MASK5, RIGHT_MASK6, WEIGHT_MASK16,
    WEIGHT_MASK32, WEIGHT_MASK4, WEIGHT_MASK64, WEIGHT_MASK8, WEIGHT_MSB16, WEIGHT_MSB32,
    WEIGHT_MSB4, WEIGHT_MSB64, WEIGHT_MSB8,
};
use crate::model::{
    lane, lane_total, low_ones, max_distance, min_distance, narrow, ones_in, packed, pair_sums,
    popcount, weights,
};
use crate::totals::{lemma_total_of_one_lane, lemma_total_of_pair_sums};
use crate::facts::{
    gather1, gather16, gather2, gather32, gather4, gather64, gather8, lemma_add_narrow, lemma_any,
    lemma_distance16, lemma_distance32, lemma_distance4, lemma_distance64, lemma_distance8,
    lemma_from_element, lemma_halve_union1, lemma_halve_union16, lemma_halve_union2,
    lemma_halve_union32, lemma_halve_union4, lemma_halve_union64, lemma_halve_union8,
    lemma_pack_ones, lemma_small_distances, lemma_split, lemma_two_lanes, lemma_weights_fit,
    lemma_zero, spread1, spread16, spread2, spread32, spread4, spread64, spread8,
};

use crate::{Bits1, Bits2, Bits4, Bits8, Bits16, Bits32, Bits64, Bits128};

verus! {

impl Bits1<u128> {
    /// Copies an element that fits in one bit into every lane.
    pub fn from_element(e: u128) -> (r: Self)
        requires
            e < 2,
        ensures
            forall|i: u128| i < 128 ==> #[trigger] lane(r.0, 1, i) == e,
    {
        // Doubling the run of copies at each step takes log2 of the lane count.
        let n0 = e | e << 1u32;
        let n1 = n0 | n0 << 2u32;
        let n2 = n1 | n1 << 4u32;
        let n3 = n2 | n2 << 8u32;
        let n4 = n3 | n3 << 16u32;
        let n5 = n4 | n4 << 32u32;
        let n6 = n5 | n5 << 64u32;
        proof {
            lemma_from_element(e, n6);
        }
        Self(n6)
    }

    /// Sets each lane to 1 if any of its bits is set, else to 0. A lane of
    /// one bit is already that.
    pub fn any(self) -> (r: Self)
        ensures
            forall|i: u128|
                i < 128 ==> #[trigger] lane(r.0, 1, i) == if lane(self.0, 1, i) != 0 { 1u128 } else { 0 },
    {
        proof {
            lemma_any(self.0, 0, 0);
        }
        self
    }

    /// Moves the odd lanes (left) and the even lanes (right) into lanes twice
    /// as wide, each in the lower half of its new lane.
    pub fn split(self) -> (r: (Bits2<u128>, Bits2<u128>))
        ensures
            forall|i: u128|
                i < 64 ==> #[trigger] lane(r.0.0, 2, i) == lane(self.0, 1, (2 * i + 1) as u128)
                    && lane(r.1.0, 2, i) == lane(self.0, 1, (2 * i) as u128),
            narrow(r.0.0, 2),
            narrow(r.1.0, 2),
    {
        let Self(n) = self;
        proof {
            lemma_split(n);
        }
        (Bits2((n & LEFT_MASK6) >> 1u32), Bits2(n & RIGHT_MASK6))
    }

    /// Adds each pair of neighbouring lanes into one lane twice as wide.
    pub fn sum_weight2(self) -> (r: Bits2<u128>)
        ensures
            pair_sums(self.0, r.0, 2),
    {
        let (left, right) = self.split();
        proof {
            lemma_add_narrow(left.0, right.0);
        }
        left + right
    }

    /// The sum of all lanes: the number of set bits of the word.
    pub fn sum_weight(self) -> (r: u128)
        ensures
            r == popcount(self.0),
    {
        self.0.count_ones() as u128
    }

    /// The number of set bits of the word.
    pub fn count_ones(self) -> (r: u32)
        ensures
            r == popcount(self.0),
    {
        self.0.count_ones()
    }

    /// Moves the upper half of the word (left) and the lower half (right)
    /// each into lanes twice as wide, lane by lane and in order, each value in
    /// the lower half of its new lane.
    pub fn halve(self) -> (r: (Bits2<u128>, Bits2<u128>))
        ensures
            forall|i: u128| i < 64 ==> #[trigger] lane(r.0.0, 2, i) == lane(self.0, 1, (i + 64) as u128),
            forall|i: u128| i < 64 ==> #[trigger] lane(r.1.0, 2, i) == lane(self.0, 1, i),
            narrow(r.0.0, 2),
            narrow(r.1.0, 2),
    {
        let Self(n) = self;
        let left = (n & LEFT_MASK0) >> 64u32;
        let left = (left & LEFT_MASK1) << 32u32 | left & RIGHT_MASK1;
        let left = (left & LEFT_MASK2) << 16u32 | left & RIGHT_MASK2;
        let left = (left & LEFT_MASK3) << 8u32 | left & RIGHT_MASK3;
        let left = (left & LEFT_MASK4) << 4u32 | left & RIGHT_MASK4;
        let left = (left & LEFT_MASK5) << 2u32 | left & RIGHT_MASK5;
        let left = (left & LEFT_MASK6) << 1u32 | left & RIGHT_MASK6;
        let right = n & RIGHT_MASK0;
        let right = (right & LEFT_MASK1) << 32u32 | right & RIGHT_MASK1;
        let right = (right & LEFT_MASK2) << 16u32 | right & RIGHT_MASK2;
        let right = (right & LEFT_MASK3) << 8u32 | right & RIGHT_MASK3;
        let right = (right & LEFT_MASK4) << 4u32 | right & RIGHT_MASK4;
        let right = (right & LEFT_MASK5) << 2u32 | right & RIGHT_MASK5;
        let right = (right & LEFT_MASK6) << 1u32 | right & RIGHT_MASK6;
        proof {
            lemma_halve_union1(n, 0, 0);
            assert(left == spread1((n & LEFT_MASK0) >> 64u32));
            assert(right == spread1(n & RIGHT_MASK0));
        }
        (Bits2(left), Bits2(right))
    }

    /// Joins two words whose lanes fit in their lower halves: the lanes of
    /// `left` become the upper half of the result and those of `right` the
    /// lower half, each in lanes half as wide.
    pub fn union(left: Bits2<u128>, right: Bits2<u128>) -> (r: Self)
        requires
            narrow(left.0, 2),
            narrow(right.0, 2),
        ensures
            forall|i: u128| i < 64 ==> #[trigger] lane(right.0, 2, i) == lane(r.0, 1, i),
            forall|i: u128| i < 64 ==> #[trigger] lane(left.0, 2, i) == lane(r.0, 1, (i + 64) as u128),
    {
        let Bits2(top) = left;
        let Bits2(bottom) = right;
        proof {
            lemma_halve_union1(0, top, bottom);
        }
        let left = top;
        let right = bottom;
        let left = (left & LEFT_MASK5) >> 1u32 | left & RIGHT_MASK5;
        let left = (left & LEFT_MASK4) >> 2u32 | left & RIGHT_MASK4;
        let left = (left & LEFT_MASK3) >> 4u32 | left & RIGHT_MASK3;
        let left = (left & LEFT_MASK2) >> 8u32 | left & RIGHT_MASK2;
        let left = (left & LEFT_MASK1) >> 16u32 | left & RIGHT_MASK1;
        let left = (left & LEFT_MASK0) >> 32u32 | left & RIGHT_MASK0;
        let right = (right & LEFT_MASK5) >> 1u32 | right & RIGHT_MASK5;
        let right = (right & LEFT_MASK4) >> 2u32 | right & RIGHT_MASK4;
        let right = (right & LEFT_MASK3) >> 4u32 | right & RIGHT_MASK3;
        let right = (right & LEFT_MASK2) >> 8u32 | right & RIGHT_MASK2;
        let right = (right & LEFT_MASK1) >> 16u32 | right & RIGHT_MASK1;
        let right = (right & LEFT_MASK0) >> 32u32 | right & RIGHT_MASK0;
        proof {
            assert(left == gather1(top));
            assert(right == gather1(bottom));
        }
        Self(left << 64u32 | right)
    }

    /// Packs the set bits of every 2-bit segment to its low end.
    pub fn pack_ones(self) -> (r: Bits2<u128>)
        ensures
            forall|i: u128|
                i < 64 ==> #[trigger] lane(r.0, 2, i) == low_ones(ones_in(self.0, 2 * i, 2) as u128),
    {
        let Self(x) = self;
        let lower = (x & LEFT_MASK6) >> 1u32 | x & RIGHT_MASK6;
        let upper = x & (x & RIGHT_MASK6) << 1u32;
        proof {
            lemma_pack_ones(x, lower | upper);
            reveal_with_fuel(ones_in, 3);
        }
        Bits2(lower | upper)
    }

    /// The lane-wise distance between two words of single-bit weights: the
    /// exclusive or.
    pub fn minhwd(self, other: Self) -> (r: Self)
        ensures
            forall|i: u128|
                i < 128 ==> #[trigger] lane(r.0, 1, i) == min_distance(lane(self.0, 1, i), lane(other.0, 1, i)),
    {
        proof {
            lemma_small_distances(self.0, other.0);
        }
        Self(self.0 ^ other.0)
    }

    /// The largest lane-wise distance between two words of single-bit
    /// weights. For single bits it equals the smallest one.
    pub fn maxhwd(self, other: Self) -> (r: Self)
        ensures
            forall|i: u128|
                i < 128 ==> #[trigger] lane(r.0, 1, i) == max_distance(lane(self.0, 1, i), lane(other.0, 1, i), 1),
    {
        proof {
            lemma_small_distances(self.0, other.0);
        }
        Self(self.0 ^ other.0)
    }

    /// The lane-wise distance between two words of single-bit weights.
    pub fn hwd(self, other: Self) -> (r: Self)
        ensures
            forall|i: u128|
                i < 128 ==> #[trigger] lane(r.0, 1, i) == min_distance(lane(self.0, 1, i), lane(other.0, 1, i)),
    {
        self.minhwd(other)
    }
}

impl Bits2<u128> {
    /// Copies an element that fits in 2 bits into every lane.
    pub fn from_element(e: u128) -> (r: Self)
        requires
            e < 4,
        ensures
            forall|i: u128| i < 64 ==> #[trigger] lane(r.0, 2, i) == e,
    {
        // Doubling the run of copies at each step takes log2 of the lane count.
        let n0 = e | e << 2u32;
        let n1 = n0 | n0 << 4u32;
        let n2 = n1 | n1 << 8u32;
        let n3 = n2 | n2 << 16u32;
        let n4 = n3 | n3 << 32u32;
        let n5 = n4 | n4 << 64u32;
        proof {
            lemma_from_element(e, n5);
        }
        Self(n5)
    }

    /// Sets each lane to 1 if any of its bits is set, else to 0.
    pub fn any(self) -> (r: Self)
        ensures
            forall|i: u128|
                i < 64 ==> #[trigger] lane(r.0, 2, i) == if lane(self.0, 2, i) != 0 { 1u128 } else { 0 },
    {
        let Self(x) = self;
        let r = (x & LEFT_MASK6) >> 1u32 | x & RIGHT_MASK6;
        proof {
            lemma_any(x, 0, r);
        }
        Self(r)
    }

    /// Moves the odd lanes (left) and the even lanes (right) into lanes twice
    /// as wide, each in the lower half of its new lane.
    pub fn split(self) -> (r: (Bits4<u128>, Bits4<u128>))
        ensures
            forall|i: u128|
                i < 32 ==> #[trigger] lane(r.0.0, 4, i) == lane(self.0, 2, (2 * i + 1) as u128)
                    && lane(r.1.0, 4, i) == lane(self.0, 2, (2 * i) as u128),
            narrow(r.0.0, 4),
            narrow(r.1.0, 4),
    {
        let Self(n) = self;
        proof {
            lemma_split(n);
        }
        (Bits4((n & LEFT_MASK5) >> 2u32), Bits4(n & RIGHT_MASK5))
    }

    /// Adds each pair of neighbouring lanes into one lane twice as wide.
    pub fn sum_weight2(self) -> (r: Bits4<u128>)
        ensures
            pair_sums(self.0, r.0, 4),
    {
        let (left, right) = self.split();
        proof {
            lemma_add_narrow(left.0, right.0);
        }
        left + right
    }

    /// The sum of all lanes, found by adding neighbouring lanes until one
    /// lane is left.
    pub fn sum_weight(self) -> (r: u128)
        ensures
            r == lane_total(self.0, 2, 64),
    {
        let x4 = self.sum_weight2();
        let x8 = x4.sum_weight2();
        let x16 = x8.sum_weight2();
        let x32 = x16.sum_weight2();
        let x64 = x32.sum_weight2();
        let x128 = x64.sum_weight2();
        proof {
            lemma_total_of_pair_sums(self.0, x4.0, 4, 32);
            lemma_total_of_pair_sums(x4.0, x8.0, 8, 16);
            lemma_total_of_pair_sums(x8.0, x16.0, 16, 8);
            lemma_total_of_pair_sums(x16.0, x32.0, 32, 4);
            lemma_total_of_pair_sums(x32.0, x64.0, 64, 2);
            lemma_total_of_pair_sums(x64.0, x128.0, 128, 1);
            lemma_total_of_one_lane(x128.0);
        }
        x128.0
    }

    /// The number of set bits of the word.
    pub fn count_ones(self) -> (r: u32)
        ensures
            r == popcount(self.0),
    {
        self.0.count_ones()
    }

    /// Moves the upper half of the word (left) and the lower half (right)
    /// each into lanes twice as wide, lane by lane and in order, each value in
    /// the lower half of its new lane.
    pub fn halve(self) -> (r: (Bits4<u128>, Bits4<u128>))
        ensures
            forall|i: u128| i < 32 ==> #[trigger] lane(r.0.0, 4, i) == lane(self.0, 2, (i + 32) as u128),
            forall|i: u128| i < 32 ==> #[trigger] lane(r.1.0, 4, i) == lane(self.0, 2, i),
            narrow(r.0.0, 4),
            narrow(r.1.0, 4),
    {
        let Self(n) = self;
        let left = (n & LEFT_MASK0) >> 64u32;
        let left = (left & LEFT_MASK1) << 32u32 | left & RIGHT_MASK1;
        let left = (left & LEFT_MASK2) << 16u32 | left & RIGHT_MASK2;
        let left = (left & LEFT_MASK3) << 8u32 | left & RIGHT_MASK3;
        let left = (left & LEFT_MASK4) << 4u32 | left & RIGHT_MASK4;
        let left = (left & LEFT_MASK5) << 2u32 | left & RIGHT_MASK5;
        let right = n & RIGHT_MASK0;
        let right = (right & LEFT_MASK1) << 32u32 | right & RIGHT_MASK1;
        let right = (right & LEFT_MASK2) << 16u32 | right & RIGHT_MASK2;
        let right = (right & LEFT_MASK3) << 8u32 | right & RIGHT_MASK3;
        let right = (right & LEFT_MASK4) << 4u32 | right & RIGHT_MASK4;
        let right = (right & LEFT_MASK5) << 2u32 | right & RIGHT_MASK5;
        proof {
            lemma_halve_union2(n, 0, 0);
            assert(left == spread2((n & LEFT_MASK0) >> 64u32));
            assert(right == spread2(n & RIGHT_MASK0));
        }
        (Bits4(left), Bits4(right))
    }

    /// Joins two words whose lanes fit in their lower halves: the lanes of
    /// `left` become the upper half of the result and those of `right` the
    /// lower half, each in lanes half as wide.
    pub fn union(left: Bits4<u128>, right: Bits4<u128>) -> (r: Self)
        requires
            narrow(left.0, 4),
            narrow(right.0, 4),
        ensures
            forall|i: u128| i < 32 ==> #[trigger] lane(right.0, 4, i) == lane(r.0, 2, i),
            forall|i: u128| i < 32 ==> #[trigger] lane(left.0, 4, i) == lane(r.0, 2, (i + 32) as u128),
    {
        let Bits4(top) = left;
        let Bits4(bottom) = right;
        proof {
            lemma_halve_union2(0, top, bottom);
        }
        let left = top;
        let right = bottom;
        let left = (left & LEFT_MASK4) >> 2u32 | left & RIGHT_MASK4;
        let left = (left & LEFT_MASK3) >> 4u32 | left & RIGHT_MASK3;
        let left = (left & LEFT_MASK2) >> 8u32 | left & RIGHT_MASK2;
        let left = (left & LEFT_MASK1) >> 16u32 | left & RIGHT_MASK1;
        let left = (left & LEFT_MASK0) >> 32u32 | left & RIGHT_MASK0;
        let right = (right & LEFT_MASK4) >> 2u32 | right & RIGHT_MASK4;
        let right = (right & LEFT_MASK3) >> 4u32 | right & RIGHT_MASK3;
        let right = (right & LEFT_MASK2) >> 8u32 | right & RIGHT_MASK2;
        let right = (right & LEFT_MASK1) >> 16u32 | right & RIGHT_MASK1;
        let right = (right & LEFT_MASK0) >> 32u32 | right & RIGHT_MASK0;
        proof {
            assert(left == gather2(top));
            assert(right == gather2(bottom));
        }
        Self(left << 64u32 | right)
    }

    /// Moves the lanes, which must fit in their lower halves, into lanes
    /// half as wide in the lower half of the word, and clears the upper half.
    pub fn squash(self) -> (r: Bits1<u128>)
        requires
            narrow(self.0, 2),
        ensures
            forall|i: u128| i < 64 ==> #[trigger] lane(r.0, 1, i) == lane(self.0, 2, i),
            forall|i: u128| i < 64 ==> #[trigger] lane(r.0, 1, (i + 64) as u128) == 0,
    {
        proof {
            lemma_zero();
        }
        let zero = Bits2(0);
        let r = Bits1::union(zero, self);
        proof {
            assert forall|i: u128| i < 64 implies #[trigger] lane(r.0, 1, (i + 64) as u128) == 0 by {
                assert(lane(zero.0, 2, i) == 0);
            }
        }
        r
    }

    /// Packs the set bits of every 4-bit segment to its low end, from lanes
    /// that each hold their set bits at their low end already.
    pub fn pack_ones(self) -> (r: Bits4<u128>)
        requires
            forall|i: u128| i < 64 ==> packed(#[trigger] lane(self.0, 2, i)),
        ensures
            forall|i: u128|
                i < 32 ==> #[trigger] lane(r.0, 4, i) == low_ones(ones_in(self.0, 4 * i, 4) as u128),
    {
        let Self(x) = self;
        // With the segment read as ABCD:
        // AB00
        let l0 = x & LEFT_MASK5;
        // AB11
        let l1 = x | RIGHT_MASK5;
        // 00CD
        let r0 = x & RIGHT_MASK5;
        // ABB0 (the extra A meets a zero)
        let b = l0 | l0 >> 1u32;
        // AAB1 (the extra B meets a zero); the top segment has no segment
        // above it to shift in the 1 that the others get, so it is put there.
        let a = l1 & (l1 >> 1u32 | 1u128 << 127u32);
        let r = a & r0 << 2u32 | b & r0 << 1u32 | l0 >> 2u32 | r0;
        proof {
            lemma_pack_ones(x, r);
            reveal_with_fuel(ones_in, 5);
        }
        Bits4(r)
    }

    /// The smallest lane-wise distance between two words of 2-bit hamming
    /// weights.
    pub fn minhwd(self, other: Self) -> (r: Self)
        requires
            weights(self.0, 2),
            weights(other.0, 2),
        ensures
            forall|i: u128|
                i < 64 ==> #[trigger] lane(r.0, 2, i) == min_distance(lane(self.0, 2, i), lane(other.0, 2, i)),
    {
        // From the truth table of the two weights:
        // high = B1 & !A1 & !A0 | A1 & !B1 & !B0
        // low = A0 ^ B0
        let Self(a) = self;
        let Self(b) = other;
        proof {
            lemma_small_distances(a, b);
        }
        let low = RIGHT_MASK6 & (a ^ b);
        let high = LEFT_MASK6 & (b & !a & !a << 1u32 | a & !b & !b << 1u32);
        Self(low | high)
    }

    /// The largest lane-wise distance between two words of 2-bit hamming
    /// weights: two lanes of weight one may hold their bits in different
    /// places and then differ in both.
    pub fn maxhwd(self, other: Self) -> (r: Self)
        requires
            weights(self.0, 2),
            weights(other.0, 2),
        ensures
            forall|i: u128|
                i < 64 ==> #[trigger] lane(r.0, 2, i) == max_distance(lane(self.0, 2, i), lane(other.0, 2, i), 2),
    {
        let Self(a) = self;
        let Self(b) = other;
        proof {
            lemma_small_distances(a, b);
        }
        let low = RIGHT_MASK6 & (a ^ b);
        let high = LEFT_MASK6 & (b & !a & !a << 1u32 | a & !b & !b << 1u32 | a << 1u32 & b << 1u32);
        Self(low | high)
    }

    /// The lane-wise distance between two words of 2-bit hamming weights.
    pub fn hwd(self, other: Self) -> (r: Self)
        requires
            weights(self.0, 2),
            weights(other.0, 2),
        ensures
            forall|i: u128|
                i < 64 ==> #[trigger] lane(r.0, 2, i) == min_distance(lane(self.0, 2, i), lane(other.0, 2, i)),
    {
        self.minhwd(other)
    }
}

impl Bits4<u128> {
    /// Copies an element that fits in 4 bits into every lane.
    pub fn from_element(e: u128) -> (r: Self)
        requires
            e < 0x10,
        ensures
            forall|i: u128| i < 32 ==> #[trigger] lane(r.0, 4, i) == e,
    {
        // Doubling the run of copies at each step takes log2 of the lane count.
        let n0 = e | e << 4u32;
        let n1 = n0 | n0 << 8u32;
        let n2 = n1 | n1 << 16u32;
        let n3 = n2 | n2 << 32u32;
        let n4 = n3 | n3 << 64u32;
        proof {
            lemma_from_element(e, n4);
        }
        Self(n4)
    }

    /// Sets each lane to 1 if any of its bits is set, else to 0: reduces
    /// each half lane first, then joins the two halves of every lane.
    pub fn any(self) -> (r: Self)
        ensures
            forall|i: u128|
                i < 32 ==> #[trigger] lane(r.0, 4, i) == if lane(self.0, 4, i) != 0 { 1u128 } else { 0 },
    {
        let Bits2(y) = Bits2(self.0).any();
        let r = (y & LEFT_MASK5) >> 2u32 | y & RIGHT_MASK5;
        proof {
            lemma_any(self.0, y, r);
        }
        Self(r)
    }

    /// Adds each pair of neighbouring lanes into one lane twice as wide.
    pub fn sum_weight2(self) -> (r: Bits8<u128>)
        ensures
            pair_sums(self.0, r.0, 8),
    {
        let (left, right) = self.split();
        proof {
            lemma_add_narrow(left.0, right.0);
        }
        left + right
    }

    /// The sum of all lanes, found by adding neighbouring lanes until one
    /// lane is left.
    pub fn sum_weight(self) -> (r: u128)
        ensures
            r == lane_total(self.0, 4, 32),
    {
        let x8 = self.sum_weight2();
        let x16 = x8.sum_weight2();
        let x32 = x16.sum_weight2();
        let x64 = x32.sum_weight2();
        let x128 = x64.sum_weight2();
        proof {
            lemma_total_of_pair_sums(self.0, x8.0, 8, 16);
            lemma_total_of_pair_sums(x8.0, x16.0, 16, 8);
            lemma_total_of_pair_sums(x16.0, x32.0, 32, 4);
            lemma_total_of_pair_sums(x32.0, x64.0, 64, 2);
            lemma_total_of_pair_sums(x64.0, x128.0, 128, 1);
            lemma_total_of_one_lane(x128.0);
        }
        x128.0
    }

    /// The number of set bits of the word.
    pub fn count_ones(self) -> (r: u32)
        ensures
            r == popcount(self.0),
    {
        self.0.count_ones()
    }

    /// Moves the upper half of the word (left) and the lower half (right)
    /// each into lanes twice as wide, lane by lane and in order, each value in
    /// the lower half of its new lane.
    pub fn halve(self) -> (r: (Bits8<u128>, Bits8<u128>))
        ensures
            forall|i: u128| i < 16 ==> #[trigger] lane(r.0.0, 8, i) == lane(self.0, 4, (i + 16) as u128),
            forall|i: u128| i < 16 ==> #[trigger] lane(r.1.0, 8, i) == lane(self.0, 4, i),
            narrow(r.0.0, 8),
            narrow(r.1.0, 8),
    {
        let Self(n) = self;
        let left = (n & LEFT_MASK0) >> 64u32;
        let left = (left & LEFT_MASK1) << 32u32 | left & RIGHT_MASK1;
        let left = (left & LEFT_MASK2) << 16u32 | left & RIGHT_MASK2;
        let left = (left & LEFT_MASK3) << 8u32 | left & RIGHT_MASK3;
        let left = (left & LEFT_MASK4) << 4u32 | left & RIGHT_MASK4;
        let right = n & RIGHT_MASK0;
        let right = (right & LEFT_MASK1) << 32u32 | right & RIGHT_MASK1;
        let right = (right & LEFT_MASK2) << 16u32 | right & RIGHT_MASK2;
        let right = (right & LEFT_MASK3) << 8u32 | right & RIGHT_MASK3;
        let right = (right & LEFT_MASK4) << 4u32 | right & RIGHT_MASK4;
        proof {
            lemma_halve_union4(n, 0, 0);
            assert(left == spread4((n & LEFT_MASK0) >> 64u32));
            assert(right == spread4(n & RIGHT_MASK0));
        }
        (Bits8(left), Bits8(right))
    }

    /// Joins two words whose lanes fit in their lower halves: the lanes of
    /// `left` become the upper half of the result and those of `right` the
    /// lower half, each in lanes half as wide.
    pub fn union(left: Bits8<u128>, right: Bits8<u128>) -> (r: Self)
        requires
            narrow(left.0, 8),
            narrow(right.0, 8),
        ensures
            forall|i: u128| i < 16 ==> #[trigger] lane(right.0, 8, i) == lane(r.0, 4, i),
            forall|i: u128| i < 16 ==> #[trigger] lane(left.0, 8, i) == lane(r.0, 4, (i + 16) as u128),
    {
        let Bits8(top) = left;
        let Bits8(bottom) = right;
        proof {
            lemma_halve_union4(0, top, bottom);
        }
        let left = top;
        let right = bottom;
        let left = (left & LEFT_MASK3) >> 4u32 | left & RIGHT_MASK3;
        let left = (left & LEFT_MASK2) >> 8u32 | left & RIGHT_MASK2;
        let left = (left & LEFT_MASK1) >> 16u32 | left & RIGHT_MASK1;
        let left = (left & LEFT_MASK0) >> 32u32 | left & RIGHT_MASK0;
        let right = (right & LEFT_MASK3) >> 4u32 | right & RIGHT_MASK3;
        let right = (right & LEFT_MASK2) >> 8u32 | right & RIGHT_MASK2;
        let right = (right & LEFT_MASK1) >> 16u32 | right & RIGHT_MASK1;
        let right = (right & LEFT_MASK0) >> 32u32 | right & RIGHT_MASK0;
        proof {
            assert(left == gather4(top));
            assert(right == gather4(bottom));
        }
        Self(left << 64u32 | right)
    }

    /// Moves the lanes, which must fit in their lower halves, into lanes
    /// half as wide in the lower half of the word, and clears the upper half.
    pub fn squash(self) -> (r: Bits2<u128>)
        requires
            narrow(self.0, 4),
        ensures
            forall|i: u128| i < 32 ==> #[trigger] lane(r.0, 2, i) == lane(self.0, 4, i),
            forall|i: u128| i < 32 ==> #[trigger] lane(r.0, 2, (i + 32) as u128) == 0,
    {
        proof {
            lemma_zero();
        }
        let zero = Bits4(0);
        let r = Bits2::union(zero, self);
        proof {
            assert forall|i: u128| i < 32 implies #[trigger] lane(r.0, 2, (i + 32) as u128) == 0 by {
                assert(lane(zero.0, 4, i) == 0);
            }
        }
        r
    }

    /// Packs the set bits of every byte to its low end, from lanes that each
    /// hold their set bits at their low end already.
    pub fn pack_ones(self) -> (r: Bits8<u128>)
        requires
            forall|i: u128| i < 32 ==> packed(#[trigger] lane(self.0, 4, i)),
        ensures
            forall|i: u128|
                i < 16 ==> #[trigger] lane(r.0, 8, i) == low_ones(ones_in(self.0, 8 * i, 8) as u128),
    {
        // With the byte read as ABCDEFGH:
        let Self(x) = self;
        // EFGH1111
        let r1 = x << 4u32 | RIGHT_MASK4;
        let r0 = x & RIGHT_MASK4;
        // Each of the upper four bits, copied over five places:
        // AAAAA000
        let a = x & LEFT_MASK4 & LEFT_MASK5 & LEFT_MASK6;
        let a = a | a >> 1u32;
        let a = a | a >> 2u32 | a >> 3u32;
        // 0BBBBB00
        let b = x & LEFT_MASK4 & LEFT_MASK5 & RIGHT_MASK6;
        let b = b | b >> 1u32;
        let b = b | b >> 2u32 | b >> 3u32;
        // 00CCCCC0
        let c = x & LEFT_MASK4 & RIGHT_MASK5 & LEFT_MASK6;
        let c = c | c >> 1u32;
        let c = c | c >> 2u32 | c >> 3u32;
        // 000DDDDD
        let d = x & LEFT_MASK4 & RIGHT_MASK5 & RIGHT_MASK6;
        let d = d | d >> 1u32;
        let d = d | d >> 2u32 | d >> 3u32;
        let r = a & r1 | b & r1 >> 1u32 | c & r1 >> 2u32 | d & r1 >> 3u32 | r0;
        proof {
            lemma_pack_ones(x, r);
            reveal_with_fuel(ones_in, 9);
        }
        Bits8(r)
    }

    /// The lane-wise distance between two words of hamming weights: each
    /// lane of the result is the absolute difference of the two lanes.
    pub fn minhwd(self, other: Self) -> (r: Self)
        requires
            weights(self.0, 4),
            weights(other.0, 4),
        ensures
            forall|i: u128|
                i < 32 ==> #[trigger] lane(r.0, 4, i) == min_distance(lane(self.0, 4, i), lane(other.0, 4, i)),
    {
        let Self(a) = self;
        let Self(b) = other;
        proof {
            lemma_weights_fit(a, 4);
            lemma_weights_fit(b, 4);
            lemma_distance4(a, b);
        }
        let m = a + (b ^ WEIGHT_MASK4);
        let high = m & WEIGHT_MSB4;
        let offset = (high ^ WEIGHT_MSB4) >> 2u32;
        let flips = high | high >> 1u32 | high >> 2u32;
        Self(((m ^ flips) + offset) & WEIGHT_MASK4)
    }
    /// Moves the odd lanes (left) and the even lanes (right) into lanes twice
    /// as wide, each in the lower half of its new lane.
    pub fn split(self) -> (r: (Bits8<u128>, Bits8<u128>))
        ensures
            forall|i: u128|
                i < 16 ==> #[trigger] lane(r.0.0, 8, i) == lane(self.0, 4, (2 * i + 1) as u128)
                    && lane(r.1.0, 8, i) == lane(self.0, 4, (2 * i) as u128),
            narrow(r.0.0, 8),
            narrow(r.1.0, 8),
    {
        let Self(n) = self;
        proof {
            lemma_split(n);
        }
        (Bits8((n & LEFT_MASK4) >> 4u32), Bits8(n & RIGHT_MASK4))
    }

    /// The lane-wise distance between two words of hamming weights.
    pub fn hwd(self, other: Self) -> (r: Self)
        requires
            weights(self.0, 4),
            weights(other.0, 4),
        ensures
            forall|i: u128|
                i < 32 ==> #[trigger] lane(r.0, 4, i) == min_distance(lane(self.0, 4, i), lane(other.0, 4, i)),
    {
        self.minhwd(other)
    }
}

impl Bits8<u128> {
    /// Copies an element that fits in 8 bits into every lane.
    pub fn from_element(e: u128) -> (r: Self)
        requires
            e < 0x100,
        ensures
            forall|i: u128| i < 16 ==> #[trigger] lane(r.0, 8, i) == e,
    {
        // Doubling the run of copies at each step takes log2 of the lane count.
        let n0 = e | e << 8u32;
        let n1 = n0 | n0 << 16u32;
        let n2 = n1 | n1 << 32u32;
        let n3 = n2 | n2 << 64u32;
        proof {
            lemma_from_element(e, n3);
        }
        Self(n3)
    }

    /// Sets each lane to 1 if any of its bits is set, else to 0: reduces
    /// each half lane first, then joins the two halves of every lane.
    pub fn any(self) -> (r: Self)
        ensures
            forall|i: u128|
                i < 16 ==> #[trigger] lane(r.0, 8, i) == if lane(self.0, 8, i) != 0 { 1u128 } else { 0 },
    {
        let Bits4(y) = Bits4(self.0).any();
        let r = (y & LEFT_MASK4) >> 4u32 | y & RIGHT_MASK4;
        proof {
            lemma_any(self.0, y, r);
        }
        Self(r)
    }

    /// Adds each pair of neighbouring lanes into one lane twice as wide.
    pub fn sum_weight2(self) -> (r: Bits16<u128>)
        ensures
            pair_sums(self.0, r.0, 16),
    {
        let (left, right) = self.split();
        proof {
            lemma_add_narrow(left.0, right.0);
        }
        left + right
    }

    /// The sum of all lanes, found by adding neighbouring lanes until one
    /// lane is left.
    pub fn sum_weight(self) -> (r: u128)
        ensures
            r == lane_total(self.0, 8, 16),
    {
        let x16 = self.sum_weight2();
        let x32 = x16.sum_weight2();
        let x64 = x32.sum_weight2();
        let x128 = x64.sum_weight2();
        proof {
            lemma_total_of_pair_sums(self.0, x16.0, 16, 8);
            lemma_total_of_pair_sums(x16.0, x32.0, 32, 4);
            lemma_total_of_pair_sums(x32.0, x64.0, 64, 2);
            lemma_total_of_pair_sums(x64.0, x128.0, 128, 1);
            lemma_total_of_one_lane(x128.0);
        }
        x128.0
    }

    /// The number of set bits of the word.
    pub fn count_ones(self) -> (r: u32)
        ensures
            r == popcount(self.0),
    {
        self.0.count_ones()
    }

    /// Moves the upper half of the word (left) and the lower half (right)
    /// each into lanes twice as wide, lane by lane and in order, each value in
    /// the lower half of its new lane.
    pub fn halve(self) -> (r: (Bits16<u128>, Bits16<u128>))
        ensures
            forall|i: u128| i < 8 ==> #[trigger] lane(r.0.0, 16, i) == lane(self.0, 8, (i + 8) as u128),
            forall|i: u128| i < 8 ==> #[trigger] lane(r.1.0, 16, i) == lane(self.0, 8, i),
            narrow(r.0.0, 16),
            narrow(r.1.0, 16),
    {
        let Self(n) = self;
        let left = (n & LEFT_MASK0) >> 64u32;
        let left = (left & LEFT_MASK1) << 32u32 | left & RIGHT_MASK1;
        let left = (left & LEFT_MASK2) << 16u32 | left & RIGHT_MASK2;
        let left = (left & LEFT_MASK3) << 8u32 | left & RIGHT_MASK3;
        let right = n & RIGHT_MASK0;
        let right = (right & LEFT_MASK1) << 32u32 | right & RIGHT_MASK1;
        let right = (right & LEFT_MASK2) << 16u32 | right & RIGHT_MASK2;
        let right = (right & LEFT_MASK3) << 8u32 | right & RIGHT_MASK3;
        proof {
            lemma_halve_union8(n, 0, 0);
            assert(left == spread8((n & LEFT_MASK0) >> 64u32));
            assert(right == spread8(n & RIGHT_MASK0));
        }
        (Bits16(left), Bits16(right))
    }

    /// Joins two words whose lanes fit in their lower halves: the lanes of
    /// `left` become the upper half of the result and those of `right` the
    /// lower half, each in lanes half as wide.
    pub fn union(left: Bits16<u128>, right: Bits16<u128>) -> (r: Self)
        requires
            narrow(left.0, 16),
            narrow(right.0, 16),
        ensures
            forall|i: u128| i < 8 ==> #[trigger] lane(right.0, 16, i) == lane(r.0, 8, i),
            forall|i: u128| i < 8 ==> #[trigger] lane(left.0, 16, i) == lane(r.0, 8, (i + 8) as u128),
    {
        let Bits16(top) = left;
        let Bits16(bottom) = right;
        proof {
            lemma_halve_union8(0, top, bottom);
        }
        let left = top;
        let right = bottom;
        let left = (left & LEFT_MASK2) >> 8u32 | left & RIGHT_MASK2;
        let left = (left & LEFT_MASK1) >> 16u32 | left & RIGHT_MASK1;
        let left = (left & LEFT_MASK0) >> 32u32 | left & RIGHT_MASK0;
        let right = (right & LEFT_MASK2) >> 8u32 | right & RIGHT_MASK2;
        let right = (right & LEFT_MASK1) >> 16u32 | right & RIGHT_MASK1;
        let right = (right & LEFT_MASK0) >> 32u32 | right & RIGHT_MASK0;
        proof {
            assert(left == gather8(top));
            assert(right == gather8(bottom));
        }
        Self(left << 64u32 | right)
    }

    /// Moves the lanes, which must fit in their lower halves, into lanes
    /// half as wide in the lower half of the word, and clears the upper half.
    pub fn squash(self) -> (r: Bits4<u128>)
        requires
            narrow(self.0, 8),
        ensures
            forall|i: u128| i < 16 ==> #[trigger] lane(r.0, 4, i) == lane(self.0, 8, i),
            forall|i: u128| i < 16 ==> #[trigger] lane(r.0, 4, (i + 16) as u128) == 0,
    {
        proof {
            lemma_zero();
        }
        let zero = Bits8(0);
        let r = Bits4::union(zero, self);
        proof {
            assert forall|i: u128| i < 16 implies #[trigger] lane(r.0, 4, (i + 16) as u128) == 0 by {
                assert(lane(zero.0, 8, i) == 0);
            }
        }
        r
    }

    /// The lane-wise distance between two words of hamming weights: each
    /// lane of the result is the absolute difference of the two lanes.
    pub fn minhwd(self, other: Self) -> (r: Self)
        requires
            weights(self.0, 8),
            weights(other.0, 8),
        ensures
            forall|i: u128|
                i < 16 ==> #[trigger] lane(r.0, 8, i) == min_distance(lane(self.0, 8, i), lane(other.0, 8, i)),
    {
        let Self(a) = self;
        let Self(b) = other;
        proof {
            lemma_weights_fit(a, 8);
            lemma_weights_fit(b, 8);
            lemma_distance8(a, b);
        }
        let m = a + (b ^ WEIGHT_MASK8);
        let high = m & WEIGHT_MSB8;
        let offset = (high ^ WEIGHT_MSB8) >> 3u32;
        let flips = high | high >> 1u32;
        let flips = flips | flips >> 2u32;
        Self(((m ^ flips) + offset) & WEIGHT_MASK8)
    }
    /// Moves the odd lanes (left) and the even lanes (right) into lanes twice
    /// as wide, each in the lower half of its new lane.
    pub fn split(self) -> (r: (Bits16<u128>, Bits16<u128>))
        ensures
            forall|i: u128|
                i < 8 ==> #[trigger] lane(r.0.0, 16, i) == lane(self.0, 8, (2 * i + 1) as u128)
                    && lane(r.1.0, 16, i) == lane(self.0, 8, (2 * i) as u128),
            narrow(r.0.0, 16),
            narrow(r.1.0, 16),
    {
        let Self(n) = self;
        proof {
            lemma_split(n);
        }
        (Bits16((n & LEFT_MASK3) >> 8u32), Bits16(n & RIGHT_MASK3))
    }

    /// The lane-wise distance between two words of hamming weights.
    pub fn hwd(self, other: Self) -> (r: Self)
        requires
            weights(self.0, 8),
            weights(other.0, 8),
        ensures
            forall|i: u128|
                i < 16 ==> #[trigger] lane(r.0, 8, i) == min_distance(lane(self.0, 8, i), lane(other.0, 8, i)),
    {
        self.minhwd(other)
    }
}

impl Bits16<u128> {
    /// Copies an element that fits in 16 bits into every lane.
    pub fn from_element(e: u128) -> (r: Self)
        requires
            e < 0x1_0000,
        ensures
            forall|i: u128| i < 8 ==> #[trigger] lane(r.0, 16, i) == e,
    {
        // Doubling the run of copies at each step takes log2 of the lane count.
        let n0 = e | e << 16u32;
        let n1 = n0 | n0 << 32u32;
        let n2 = n1 | n1 << 64u32;
        proof {
            lemma_from_element(e, n2);
        }
        Self(n2)
    }

    /// Sets each lane to 1 if any of its bits is set, else to 0: reduces
    /// each half lane first, then joins the two halves of every lane.
    pub fn any(self) -> (r: Self)
        ensures
            forall|i: u128|
                i < 8 ==> #[trigger] lane(r.0, 16, i) == if lane(self.0, 16, i) != 0 { 1u128 } else { 0 },
    {
        let Bits8(y) = Bits8(self.0).any();
        let r = (y & LEFT_MASK3) >> 8u32 | y & RIGHT_MASK3;
        proof {
            lemma_any(self.0, y, r);
        }
        Self(r)
    }

    /// Adds each pair of neighbouring lanes into one lane twice as wide.
    pub fn sum_weight2(self) -> (r: Bits32<u128>)
        ensures
            pair_sums(self.0, r.0, 32),
    {
        let (left, right) = self.split();
        proof {
            lemma_add_narrow(left.0, right.0);
        }
        left + right
    }

    /// The sum of all lanes, found by adding neighbouring lanes until one
    /// lane is left.
    pub fn sum_weight(self) -> (r: u128)
        ensures
            r == lane_total(self.0, 16, 8),
    {
        let x32 = self.sum_weight2();
        let x64 = x32.sum_weight2();
        let x128 = x64.sum_weight2();
        proof {
            lemma_total_of_pair_sums(self.0, x32.0, 32, 4);
            lemma_total_of_pair_sums(x32.0, x64.0, 64, 2);
            lemma_total_of_pair_sums(x64.0, x128.0, 128, 1);
            lemma_total_of_one_lane(x128.0);
        }
        x128.0
    }

    /// The number of set bits of the word.
    pub fn count_ones(self) -> (r: u32)
        ensures
            r == popcount(self.0),
    {
        self.0.count_ones()
    }

    /// Moves the upper half of the word (left) and the lower half (right)
    /// each into lanes twice as wide, lane by lane and in order, each value in
    /// the lower half of its new lane.
    pub fn halve(self) -> (r: (Bits32<u128>, Bits32<u128>))
        ensures
            forall|i: u128| i < 4 ==> #[trigger] lane(r.0.0, 32, i) == lane(self.0, 16, (i + 4) as u128),
            forall|i: u128| i < 4 ==> #[trigger] lane(r.1.0, 32, i) == lane(self.0, 16, i),
            narrow(r.0.0, 32),
            narrow(r.1.0, 32),
    {
        let Self(n) = self;
        let left = (n & LEFT_MASK0) >> 64u32;
        let left = (left & LEFT_MASK1) << 32u32 | left & RIGHT_MASK1;
        let left = (left & LEFT_MASK2) << 16u32 | left & RIGHT_MASK2;
        let right = n & RIGHT_MASK0;
        let right = (right & LEFT_MASK1) << 32u32 | right & RIGHT_MASK1;
        let right = (right & LEFT_MASK2) << 16u32 | right & RIGHT_MASK2;
        proof {
            lemma_halve_union16(n, 0, 0);
            assert(left == spread16((n & LEFT_MASK0) >> 64u32));
            assert(right == spread16(n & RIGHT_MASK0));
        }
        (Bits32(left), Bits32(right))
    }

    /// Joins two words whose lanes fit in their lower halves: the lanes of
    /// `left` become the upper half of the result and those of `right` the
    /// lower half, each in lanes half as wide.
    pub fn union(left: Bits32<u128>, right: Bits32<u128>) -> (r: Self)
        requires
            narrow(left.0, 32),
            narrow(right.0, 32),
        ensures
            forall|i: u128| i < 4 ==> #[trigger] lane(right.0, 32, i) == lane(r.0, 16, i),
            forall|i: u128| i < 4 ==> #[trigger] lane(left.0, 32, i) == lane(r.0, 16, (i + 4) as u128),
    {
        let Bits32(top) = left;
        let Bits32(bottom) = right;
        proof {
            lemma_halve_union16(0, top, bottom);
        }
        let left = top;
        let right = bottom;
        let left = (left & LEFT_MASK1) >> 16u32 | left & RIGHT_MASK1;
        let left = (left & LEFT_MASK0) >> 32u32 | left & RIGHT_MASK0;
        let right = (right & LEFT_MASK1) >> 16u32 | right & RIGHT_MASK1;
        let right = (right & LEFT_MASK0) >> 32u32 | right & RIGHT_MASK0;
        proof {
            assert(left == gather16(top));
            assert(right == gather16(bottom));
        }
        Self(left << 64u32 | right)
    }

    /// Moves the lanes, which must fit in their lower halves, into lanes
    /// half as wide in the lower half of the word, and clears the upper half.
    pub fn squash(self) -> (r: Bits8<u128>)
        requires
            narrow(self.0, 16),
        ensures
            forall|i: u128| i < 8 ==> #[trigger] lane(r.0, 8, i) == lane(self.0, 16, i),
            forall|i: u128| i < 8 ==> #[trigger] lane(r.0, 8, (i + 8) as u128) == 0,
    {
        proof {
            lemma_zero();
        }
        let zero = Bits16(0);
        let r = Bits8::union(zero, self);
        proof {
            assert forall|i: u128| i < 8 implies #[trigger] lane(r.0, 8, (i + 8) as u128) == 0 by {
                assert(lane(zero.0, 16, i) == 0);
            }
        }
        r
    }

    /// The lane-wise distance between two words of hamming weights: each
    /// lane of the result is the absolute difference of the two lanes.
    pub fn minhwd(self, other: Self) -> (r: Self)
        requires
            weights(self.0, 16),
            weights(other.0, 16),
        ensures
            forall|i: u128|
                i < 8 ==> #[trigger] lane(r.0, 16, i) == min_distance(lane(self.0, 16, i), lane(other.0, 16, i)),
    {
        let Self(a) = self;
        let Self(b) = other;
        proof {
            lemma_weights_fit(a, 16);
            lemma_weights_fit(b, 16);
            lemma_distance16(a, b);
        }
        let m = a + (b ^ WEIGHT_MASK16);
        let high = m & WEIGHT_MSB16;
        let offset = (high ^ WEIGHT_MSB16) >> 4u32;
        let flips = high | high >> 1u32;
        let flips = flips | flips >> 2u32 | high >> 4u32;
        Self(((m ^ flips) + offset) & WEIGHT_MASK16)
    }
    /// Moves the odd lanes (left) and the even lanes (right) into lanes twice
    /// as wide, each in the lower half of its new lane.
    pub fn split(self) -> (r: (Bits32<u128>, Bits32<u128>))
        ensures
            forall|i: u128|
                i < 4 ==> #[trigger] lane(r.0.0, 32, i) == lane(self.0, 16, (2 * i + 1) as u128)
                    && lane(r.1.0, 32, i) == lane(self.0, 16, (2 * i) as u128),
            narrow(r.0.0, 32),
            narrow(r.1.0, 32),
    {
        let Self(n) = self;
        proof {
            lemma_split(n);
        }
        (Bits32((n & LEFT_MASK2) >> 16u32), Bits32(n & RIGHT_MASK2))
    }

    /// The lane-wise distance between two words of hamming weights.
    pub fn hwd(self, other: Self) -> (r: Self)
        requires
            weights(self.0, 16),
            weights(other.0, 16),
        ensures
            forall|i: u128|
                i < 8 ==> #[trigger] lane(r.0, 16, i) == min_distance(lane(self.0, 16, i), lane(other.0, 16, i)),
    {
        self.minhwd(other)
    }
}

impl Bits32<u128> {
    /// Copies an element that fits in 32 bits into every lane.
    pub fn from_element(e: u128) -> (r: Self)
        requires
            e < 0x1_0000_0000,
        ensures
            forall|i: u128| i < 4 ==> #[trigger] lane(r.0, 32, i) == e,
    {
        // Doubling the run of copies at each step takes log2 of the lane count.
        let n0 = e | e << 32u32;
        let n1 = n0 | n0 << 64u32;
        proof {
            lemma_from_element(e, n1);
        }
        Self(n1)
    }

    /// Sets each lane to 1 if any of its bits is set, else to 0: reduces
    /// each half lane first, then joins the two halves of every lane.
    pub fn any(self) -> (r: Self)
        ensures
            forall|i: u128|
                i < 4 ==> #[trigger] lane(r.0, 32, i) == if lane(self.0, 32, i) != 0 { 1u128 } else { 0 },
    {
        let Bits16(y) = Bits16(self.0).any();
        let r = (y & LEFT_MASK2) >> 16u32 | y & RIGHT_MASK2;
        proof {
            lemma_any(self.0, y, r);
        }
        Self(r)
    }

    /// Adds each pair of neighbouring lanes into one lane twice as wide.
    pub fn sum_weight2(self) -> (r: Bits64<u128>)
        ensures
            pair_sums(self.0, r.0, 64),
    {
        let (left, right) = self.split();
        proof {
            lemma_add_narrow(left.0, right.0);
        }
        left + right
    }

    /// The sum of all lanes, found by adding neighbouring lanes until one
    /// lane is left.
    pub fn sum_weight(self) -> (r: u128)
        ensures
            r == lane_total(self.0, 32, 4),
    {
        let x64 = self.sum_weight2();
        let x128 = x64.sum_weight2();
        proof {
            lemma_total_of_pair_sums(self.0, x64.0, 64, 2);
            lemma_total_of_pair_sums(x64.0, x128.0, 128, 1);
            lemma_total_of_one_lane(x128.0);
        }
        x128.0
    }

    /// The number of set bits of the word.
    pub fn count_ones(self) -> (r: u32)
        ensures
            r == popcount(self.0),
    {
        self.0.count_ones()
    }

    /// Moves the upper half of the word (left) and the lower half (right)
    /// each into lanes twice as wide, lane by lane and in order, each value in
    /// the lower half of its new lane.
    pub fn halve(self) -> (r: (Bits64<u128>, Bits64<u128>))
        ensures
            forall|i: u128| i < 2 ==> #[trigger] lane(r.0.0, 64, i) == lane(self.0, 32, (i + 2) as u128),
            forall|i: u128| i < 2 ==> #[trigger] lane(r.1.0, 64, i) == lane(self.0, 32, i),
            narrow(r.0.0, 64),
            narrow(r.1.0, 64),
    {
        let Self(n) = self;
        let left = (n & LEFT_MASK0) >> 64u32;
        let left = (left & LEFT_MASK1) << 32u32 | left & RIGHT_MASK1;
        let right = n & RIGHT_MASK0;
        let right = (right & LEFT_MASK1) << 32u32 | right & RIGHT_MASK1;
        proof {
            lemma_halve_union32(n, 0, 0);
            assert(left == spread32((n & LEFT_MASK0) >> 64u32));
            assert(right == spread32(n & RIGHT_MASK0));
        }
        (Bits64(left), Bits64(right))
    }

    /// Joins two words whose lanes fit in their lower halves: the lanes of
    /// `left` become the upper half of the result and those of `right` the
    /// lower half, each in lanes half as wide.
    pub fn union(left: Bits64<u128>, right: Bits64<u128>) -> (r: Self)
        requires
            narrow(left.0, 64),
            narrow(right.0, 64),
        ensures
            forall|i: u128| i < 2 ==> #[trigger] lane(right.0, 64, i) == lane(r.0, 32, i),
            forall|i: u128| i < 2 ==> #[trigger] lane(left.0, 64, i) == lane(r.0, 32, (i + 2) as u128),
    {
        let Bits64(top) = left;
        let Bits64(bottom) = right;
        proof {
            lemma_halve_union32(0, top, bottom);
        }
        let left = top;
        let right = bottom;
        let left = (left & LEFT_MASK0) >> 32u32 | left & RIGHT_MASK0;
        let right = (right & LEFT_MASK0) >> 32u32 | right & RIGHT_MASK0;
        proof {
            assert(left == gather32(top));
            assert(right == gather32(bottom));
        }
        Self(left << 64u32 | right)
    }

    /// Moves the lanes, which must fit in their lower halves, into lanes
    /// half as wide in the lower half of the word, and clears the upper half.
    pub fn squash(self) -> (r: Bits16<u128>)
        requires
            narrow(self.0, 32),
        ensures
            forall|i: u128| i < 4 ==> #[trigger] lane(r.0, 16, i) == lane(self.0, 32, i),
            forall|i: u128| i < 4 ==> #[trigger] lane(r.0, 16, (i + 4) as u128) == 0,
    {
        proof {
            lemma_zero();
        }
        let zero = Bits32(0);
        let r = Bits16::union(zero, self);
        proof {
            assert forall|i: u128| i < 4 implies #[trigger] lane(r.0, 16, (i + 4) as u128) == 0 by {
                assert(lane(zero.0, 32, i) == 0);
            }
        }
        r
    }

    /// The lane-wise distance between two words of hamming weights: each
    /// lane of the result is the absolute difference of the two lanes.
    pub fn minhwd(self, other: Self) -> (r: Self)
        requires
            weights(self.0, 32),
            weights(other.0, 32),
        ensures
            forall|i: u128|
                i < 4 ==> #[trigger] lane(r.0, 32, i) == min_distance(lane(self.0, 32, i), lane(other.0, 32, i)),
    {
        let Self(a) = self;
        let Self(b) = other;
        proof {
            lemma_weights_fit(a, 32);
            lemma_weights_fit(b, 32);
            lemma_distance32(a, b);
        }
        let m = a + (b ^ WEIGHT_MASK32);
        let high = m & WEIGHT_MSB32;
        let offset = (high ^ WEIGHT_MSB32) >> 5u32;
        let flips = high | high >> 1u32;
        let flips = flips | flips >> 2u32;
        let flips = flips | flips >> 2u32;
        Self(((m ^ flips) + offset) & WEIGHT_MASK32)
    }
    /// Moves the odd lanes (left) and the even lanes (right) into lanes twice
    /// as wide, each in the lower half of its new lane.
    pub fn split(self) -> (r: (Bits64<u128>, Bits64<u128>))
        ensures
            forall|i: u128|
                i < 2 ==> #[trigger] lane(r.0.0, 64, i) == lane(self.0, 32, (2 * i + 1) as u128)
                    && lane(r.1.0, 64, i) == lane(self.0, 32, (2 * i) as u128),
            narrow(r.0.0, 64),
            narrow(r.1.0, 64),
    {
        let Self(n) = self;
        proof {
            lemma_split(n);
        }
        (Bits64((n & LEFT_MASK1) >> 32u32), Bits64(n & RIGHT_MASK1))
    }

    /// The lane-wise distance between two words of hamming weights.
    pub fn hwd(self, other: Self) -> (r: Self)
        requires
            weights(self.0, 32),
            weights(other.0, 32),
        ensures
            forall|i: u128|
                i < 4 ==> #[trigger] lane(r.0, 32, i) == min_distance(lane(self.0, 32, i), lane(other.0, 32, i)),
    {
        self.minhwd(other)
    }
}

impl Bits64<u128> {
    /// Copies an element that fits in 64 bits into every lane.
    pub fn from_element(e: u128) -> (r: Self)
        requires
            e < 0x1_0000_0000_0000_0000,
        ensures
            forall|i: u128| i < 2 ==> #[trigger] lane(r.0, 64, i) == e,
    {
        // Doubling the run of copies at each step takes log2 of the lane count.
        let n0 = e | e << 64u32;
        proof {
            lemma_from_element(e, n0);
        }
        Self(n0)
    }

    /// Sets each lane to 1 if any of its bits is set, else to 0: reduces
    /// each half lane first, then joins the two halves of every lane.
    pub fn any(self) -> (r: Self)
        ensures
            forall|i: u128|
                i < 2 ==> #[trigger] lane(r.0, 64, i) == if lane(self.0, 64, i) != 0 { 1u128 } else { 0 },
    {
        let Bits32(y) = Bits32(self.0).any();
        let r = (y & LEFT_MASK1) >> 32u32 | y & RIGHT_MASK1;
        proof {
            lemma_any(self.0, y, r);
        }
        Self(r)
    }

    /// Adds each pair of neighbouring lanes into one lane twice as wide.
    pub fn sum_weight2(self) -> (r: Bits128<u128>)
        ensures
            pair_sums(self.0, r.0, 128),
    {
        let (left, right) = self.split();
        proof {
            lemma_add_narrow(left.0, right.0);
        }
        left + right
    }

    /// The sum of all lanes, found by adding neighbouring lanes until one
    /// lane is left.
    pub fn sum_weight(self) -> (r: u128)
        ensures
            r == lane_total(self.0, 64, 2),
    {
        let x128 = self.sum_weight2();
        proof {
            lemma_total_of_pair_sums(self.0, x128.0, 128, 1);
            lemma_total_of_one_lane(x128.0);
        }
        x128.0
    }

    /// The number of set bits of the word.
    pub fn count_ones(self) -> (r: u32)
        ensures
            r == popcount(self.0),
    {
        self.0.count_ones()
    }

    /// Moves the upper half of the word (left) and the lower half (right)
    /// each into lanes twice as wide, lane by lane and in order, each value in
    /// the lower half of its new lane.
    pub fn halve(self) -> (r: (Bits128<u128>, Bits128<u128>))
        ensures
            forall|i: u128| i < 1 ==> #[trigger] lane(r.0.0, 128, i) == lane(self.0, 64, (i + 1) as u128),
            forall|i: u128| i < 1 ==> #[trigger] lane(r.1.0, 128, i) == lane(self.0, 64, i),
            narrow(r.0.0, 128),
            narrow(r.1.0, 128),
    {
        let Self(n) = self;
        let left = (n & LEFT_MASK0) >> 64u32;
        let right = n & RIGHT_MASK0;
        proof {
            lemma_halve_union64(n, 0, 0);
            assert(left == spread64((n & LEFT_MASK0) >> 64u32));
            assert(right == spread64(n & RIGHT_MASK0));
        }
        (Bits128(left), Bits128(right))
    }

    /// Joins two words whose lanes fit in their lower halves: the lanes of
    /// `left` become the upper half of the result and those of `right` the
    /// lower half, each in lanes half as wide.
    pub fn union(left: Bits128<u128>, right: Bits128<u128>) -> (r: Self)
        requires
            narrow(left.0, 128),
            narrow(right.0, 128),
        ensures
            forall|i: u128| i < 1 ==> #[trigger] lane(right.0, 128, i) == lane(r.0, 64, i),
            forall|i: u128| i < 1 ==> #[trigger] lane(left.0, 128, i) == lane(r.0, 64, (i + 1) as u128),
    {
        let Bits128(top) = left;
        let Bits128(bottom) = right;
        proof {
            lemma_halve_union64(0, top, bottom);
        }
        let left = top;
        let right = bottom;
        proof {
            assert(left == gather64(top));
            assert(right == gather64(bottom));
        }
        Self(left << 64u32 | right)
    }

    /// Moves the lanes, which must fit in their lower halves, into lanes
    /// half as wide in the lower half of the word, and clears the upper half.
    pub fn squash(self) -> (r: Bits32<u128>)
        requires
            narrow(self.0, 64),
        ensures
            forall|i: u128| i < 2 ==> #[trigger] lane(r.0, 32, i) == lane(self.0, 64, i),
            forall|i: u128| i < 2 ==> #[trigger] lane(r.0, 32, (i + 2) as u128) == 0,
    {
        proof {
            lemma_zero();
        }
        let zero = Bits64(0);
        let r = Bits32::union(zero, self);
        proof {
            assert forall|i: u128| i < 2 implies #[trigger] lane(r.0, 32, (i + 2) as u128) == 0 by {
                assert(lane(zero.0, 64, i) == 0);
            }
        }
        r
    }

    /// The lane-wise distance between the two 64-bit lanes of two words.
    pub fn minhwd(self, other: Self) -> (r: Self)
        ensures
            forall|i: u128|
                i < 2 ==> #[trigger] lane(r.0, 64, i) == min_distance(lane(self.0, 64, i), lane(other.0, 64, i)),
    {
        let Self(a) = self;
        let Self(b) = other;
        proof {
            lemma_two_lanes(a, 0, 0);
            lemma_two_lanes(b, 0, 0);
        }
        let a_low = a & RIGHT_MASK0;
        let a_high = a >> 64u32;
        let b_low = b & RIGHT_MASK0;
        let b_high = b >> 64u32;
        let low = if a_low >= b_low {
            a_low - b_low
        } else {
            b_low - a_low
        };
        let high = if a_high >= b_high {
            a_high - b_high
        } else {
            b_high - a_high
        };
        proof {
            lemma_two_lanes(high << 64u32 | low, low, high);
            assert forall|i: u128| i < 2 implies #[trigger] lane(high << 64u32 | low, 64, i) == min_distance(
                lane(a, 64, i),
                lane(b, 64, i),
            ) by {
                if i == 1 {
                } else {
                    assert(i == 0);
                }
            }
        }
        Self(high << 64u32 | low)
    }

    /// The lane-wise distance between two words of hamming weights: each
    /// lane of the result is the absolute difference of the two lanes.
    pub fn hwd(self, other: Self) -> (r: Self)
        requires
            weights(self.0, 64),
            weights(other.0, 64),
        ensures
            forall|i: u128|
                i < 2 ==> #[trigger] lane(r.0, 64, i) == min_distance(lane(self.0, 64, i), lane(other.0, 64, i)),
    {
        let Self(a) = self;
        let Self(b) = other;
        proof {
            lemma_weights_fit(a, 64);
            lemma_weights_fit(b, 64);
            lemma_distance64(a, b);
        }
        let m = a + (b ^ WEIGHT_MASK64);
        let high = m & WEIGHT_MSB64;
        let offset = (high ^ WEIGHT_MSB64) >> 6u32;
        let flips = high | high >> 1u32;
        let flips = flips | flips >> 2u32;
        let flips = flips | flips >> 3u32;
        Self(((m ^ flips) + offset) & WEIGHT_MASK64)
    }
    /// Moves the odd lanes (left) and the even lanes (right) into lanes twice
    /// as wide, each in the lower half of its new lane.
    pub fn split(self) -> (r: (Bits128<u128>, Bits128<u128>))
        ensures
            forall|i: u128|
                i < 1 ==> #[trigger] lane(r.0.0, 128, i) == lane(self.0, 64, (2 * i + 1) as u128)
                    && lane(r.1.0, 128, i) == lane(self.0, 64, (2 * i) as u128),
            narrow(r.0.0, 128),
            narrow(r.1.0, 128),
    {
        let Self(n) = self;
        proof {
            lemma_split(n);
        }
        (Bits128((n & LEFT_MASK0) >> 64u32), Bits128(n & RIGHT_MASK0))
    }
}

impl Bits128<u128> {
    /// Sets each lane to 1 if any of its bits is set, else to 0: reduces
    /// each half lane first, then joins the two halves of every lane.
    pub fn any(self) -> (r: Self)
        ensures
            lane(r.0, 128, 0) == if lane(self.0, 128, 0) != 0 { 1u128 } else { 0 },
    {
        let Bits64(y) = Bits64(self.0).any();
        let r = (y & LEFT_MASK0) >> 64u32 | y & RIGHT_MASK0;
        proof {
            lemma_any(self.0, y, r);
            lemma_two_lanes(self.0, 0, 0);
            lemma_two_lanes(r, 0, 0);
        }
        Self(r)
    }

    /// The sum of all lanes: the single lane itself.
    pub fn sum_weight(self) -> (r: u128)
        ensures
            r == self.0,
    {
        self.0
    }

    /// The number of set bits of the word.
    pub fn count_ones(self) -> (r: u32)
        ensures
            r == popcount(self.0),
    {
        self.0.count_ones()
    }

    /// Moves the lanes, which must fit in their lower halves, into lanes
    /// half as wide in the lower half of the word, and clears the upper half.
    pub fn squash(self) -> (r: Bits64<u128>)
        requires
            narrow(self.0, 128),
        ensures
            forall|i: u128| i < 1 ==> #[trigger] lane(r.0, 64, i) == lane(self.0, 128, i),
            forall|i: u128| i < 1 ==> #[trigger] lane(r.0, 64, (i + 1) as u128) == 0,
    {
        proof {
            lemma_zero();
        }
        let zero = Bits128(0);
        let r = Bits64::union(zero, self);
        proof {
            assert forall|i: u128| i < 1 implies #[trigger] lane(r.0, 64, (i + 1) as u128) == 0 by {
                assert(lane(zero.0, 128, i) == 0);
            }
        }
        r
    }

    /// The distance between the single lanes of two words.
    pub fn minhwd(self, other: Self) -> (r: Self)
        ensures
            lane(r.0, 128, 0) == min_distance(lane(self.0, 128, 0), lane(other.0, 128, 0)),
    {
        proof {
            lemma_two_lanes(self.0, 0, 0);
            lemma_two_lanes(other.0, 0, 0);
        }
        let r = if self.0 >= other.0 {
            self.0 - other.0
        } else {
            other.0 - self.0
        };
        proof {
            lemma_two_lanes(r, 0, 0);
        }
        Self(r)
    }
}

} // verus!
