//! What holds across calls: round trips, symmetry, and the count of set bits
//! that the pairwise sums reach.
use vstd::prelude::*;

use crate::model::{lane, min_distance, narrow, pair_sums, popcount};
use crate::totals::{lemma_bit_total, lemma_total_of_one_lane, lemma_total_of_pair_sums};
use crate::facts::{lemma_agree_prefix, lemma_agree_step, lemma_half_count, lemma_rejoin_lanes};

verus! {

/// Two words whose lanes all agree, at any width, are the same word.
pub proof fn lemma_lanes_equal(x: u128, y: u128, k: u128)
    requires
        k == 1 || k == 2 || k == 4 || k == 8 || k == 16 || k == 32 || k == 64 || k == 128,
        forall|i: u128| i < 128u128 / k ==> #[trigger] lane(x, k, i) == lane(y, k, i),
    ensures
        x == y,
{
    lemma_agree_step(x, y, 0);
    lemma_agree_step(y, x, 0);
    if k == 128 {
        assert(lane(x, k, 0) == lane(y, k, 0));
    } else {
        lemma_agree_prefix(x, y, k, 128u128 / k);
        assert(k * (128u128 / k) == 128) by (nonlinear_arith)
            requires
                k == 1 || k == 2 || k == 4 || k == 8 || k == 16 || k == 32 || k == 64,
        ;
    }
}

/// Adding neighbouring lanes seven times, from single bits up to the whole
/// word, counts the set bits of the word.
pub proof fn lemma_pair_sums_count_ones(
    n: u128,
    x2: u128,
    x4: u128,
    x8: u128,
    x16: u128,
    x32: u128,
    x64: u128,
    x128: u128,
)
    requires
        pair_sums(n, x2, 2),
        pair_sums(x2, x4, 4),
        pair_sums(x4, x8, 8),
        pair_sums(x8, x16, 16),
        pair_sums(x16, x32, 32),
        pair_sums(x32, x64, 64),
        pair_sums(x64, x128, 128),
    ensures
        x128 == popcount(n),
{
    lemma_total_of_pair_sums(n, x2, 2, 64);
    lemma_total_of_pair_sums(x2, x4, 4, 32);
    lemma_total_of_pair_sums(x4, x8, 8, 16);
    lemma_total_of_pair_sums(x8, x16, 16, 8);
    lemma_total_of_pair_sums(x16, x32, 32, 4);
    lemma_total_of_pair_sums(x32, x64, 64, 2);
    lemma_total_of_pair_sums(x64, x128, 128, 1);
    lemma_total_of_one_lane(x128);
    lemma_bit_total(n, 128);
}

/// Joining the two halves of a word gives the word back, at every lane
/// width below 128.
pub proof fn lemma_union_of_halves(n: u128, left: u128, right: u128, r: u128, k: u128)
    requires
        k == 1 || k == 2 || k == 4 || k == 8 || k == 16 || k == 32 || k == 64,
        forall|i: u128| i < 64u128 / k ==> #[trigger] lane(left, (2 * k) as u128, i) == lane(n, k, (i + 64u128 / k) as u128),
        forall|i: u128| i < 64u128 / k ==> #[trigger] lane(right, (2 * k) as u128, i) == lane(n, k, i),
        forall|i: u128| i < 64u128 / k ==> #[trigger] lane(right, (2 * k) as u128, i) == lane(r, k, i),
        forall|i: u128| i < 64u128 / k ==> #[trigger] lane(left, (2 * k) as u128, i) == lane(r, k, (i + 64u128 / k) as u128),
    ensures
        r == n,
{
    assert forall|j: u128| j < 128u128 / k implies #[trigger] lane(r, k, j) == lane(n, k, j) by {
        let h = 64u128 / k;
        assert(128u128 / k == 2 * h);
        if j < h {
            assert(lane(right, (2 * k) as u128, j) == lane(n, k, j));
        } else {
            let i = (j - h) as u128;
            assert(lane(left, (2 * k) as u128, i) == lane(n, k, (i + h) as u128));
        }
    }
    lemma_lanes_equal(r, n, k);
}

/// Halving a word that was joined from two halves gives the two halves
/// back, at every lane width below 128.
pub proof fn lemma_halves_of_union(
    left: u128,
    right: u128,
    n: u128,
    left2: u128,
    right2: u128,
    k: u128,
)
    requires
        k == 1 || k == 2 || k == 4 || k == 8 || k == 16 || k == 32 || k == 64,
        forall|i: u128| i < 64u128 / k ==> #[trigger] lane(right, (2 * k) as u128, i) == lane(n, k, i),
        forall|i: u128| i < 64u128 / k ==> #[trigger] lane(left, (2 * k) as u128, i) == lane(n, k, (i + 64u128 / k) as u128),
        forall|i: u128| i < 64u128 / k ==> #[trigger] lane(left2, (2 * k) as u128, i) == lane(n, k, (i + 64u128 / k) as u128),
        forall|i: u128| i < 64u128 / k ==> #[trigger] lane(right2, (2 * k) as u128, i) == lane(n, k, i),
    ensures
        left2 == left,
        right2 == right,
{
    lemma_half_count(k);
    assert forall|i: u128| i < 128u128 / ((2 * k) as u128) implies #[trigger] lane(left2, (2 * k) as u128, i) == lane(left, (2 * k) as u128, i) by {
        assert(lane(left, (2 * k) as u128, i) == lane(n, k, (i + 64u128 / k) as u128));
    }
    assert forall|i: u128| i < 128u128 / ((2 * k) as u128) implies #[trigger] lane(right2, (2 * k) as u128, i) == lane(right, (2 * k) as u128, i) by {
        assert(lane(right, (2 * k) as u128, i) == lane(n, k, i));
    }
    lemma_lanes_equal(left2, left, (2 * k) as u128);
    lemma_lanes_equal(right2, right, (2 * k) as u128);
}

/// The lane-wise distance does not depend on the order of its operands: two
/// results, one for each order, are the same word.
pub proof fn lemma_distance_symmetric(a: u128, b: u128, r1: u128, r2: u128, k: u128)
    requires
        k == 1 || k == 2 || k == 4 || k == 8 || k == 16 || k == 32 || k == 64 || k == 128,
        forall|i: u128| i < 128u128 / k ==> #[trigger] lane(r1, k, i) == min_distance(lane(a, k, i), lane(b, k, i)),
        forall|i: u128| i < 128u128 / k ==> #[trigger] lane(r2, k, i) == min_distance(lane(b, k, i), lane(a, k, i)),
    ensures
        r1 == r2,
{
    lemma_lanes_equal(r1, r2, k);
}

/// After a broadcast, the odd lanes and the even lanes are the same.
pub proof fn lemma_broadcast_halves_agree(x: u128, e: u128, odd: u128, even: u128, k: u128)
    requires
        k == 1 || k == 2 || k == 4 || k == 8 || k == 16 || k == 32 || k == 64,
        forall|i: u128| i < 128u128 / k ==> #[trigger] lane(x, k, i) == e,
        forall|i: u128|
            i < 64u128 / k ==> #[trigger] lane(odd, (2 * k) as u128, i) == lane(x, k, (2 * i + 1) as u128)
                && lane(even, (2 * k) as u128, i) == lane(x, k, (2 * i) as u128),
    ensures
        odd == even,
{
    lemma_half_count(k);
    assert forall|i: u128| i < 128u128 / ((2 * k) as u128) implies #[trigger] lane(odd, (2 * k) as u128, i) == lane(even, (2 * k) as u128, i) by {
        assert(lane(x, k, (2 * i + 1) as u128) == e);
        assert(lane(x, k, (2 * i) as u128) == e);
    }
    lemma_lanes_equal(odd, even, (2 * k) as u128);
}

/// The two halves that a split gives make up the word again: the odd lanes
/// shifted up by one lane, beside the even lanes.
pub proof fn lemma_split_rejoins(n: u128, odd: u128, even: u128, k: u128)
    requires
        k == 1 || k == 2 || k == 4 || k == 8 || k == 16 || k == 32 || k == 64,
        forall|i: u128|
            i < 64u128 / k ==> #[trigger] lane(odd, (2 * k) as u128, i) == lane(n, k, (2 * i + 1) as u128)
                && lane(even, (2 * k) as u128, i) == lane(n, k, (2 * i) as u128),
        narrow(odd, (2 * k) as u128),
        narrow(even, (2 * k) as u128),
    ensures
        odd << k | even == n,
{
    lemma_half_count(k);
    assert forall|j: u128| j < 128u128 / k implies #[trigger] lane(odd << k | even, k, j) == lane(n, k, j) by {
        let i = j / 2;
        lemma_rejoin_lanes(odd, even, i);
        assert(lane(odd, (2 * k) as u128, i) == lane(n, k, (2 * i + 1) as u128));
        if j % 2 == 0 {
            assert(j == (2 * i) as u128);
        } else {
            assert(j == (2 * i + 1) as u128);
        }
    }
    lemma_lanes_equal(odd << k | even, n, k);
}

} // verus!
