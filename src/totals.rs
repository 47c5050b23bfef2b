//! Sums over lanes: how a lane-wise sum of neighbours keeps the total, and
//! how the total of single-bit lanes counts the set bits.
use vstd::prelude::*;

use crate::model::{field, lane, lane_total, ones_in, pair_sums, popcount};

verus! {

/// Relies on `u128::count_ones`: the number of ones in the binary
/// representation of the value.
pub assume_specification[ u128::count_ones ](x: u128) -> (r: u32)
    ensures
        r == popcount(x),
;

/// When every lane of `y` sums two neighbouring lanes of `x`, the first `n`
/// lanes of `y` sum the first `2 * n` lanes of `x`.
pub proof fn lemma_total_of_pair_sums(x: u128, y: u128, k: u128, n: nat)
    requires
        k == 2 || k == 4 || k == 8 || k == 16 || k == 32 || k == 64 || k == 128,
        pair_sums(x, y, k),
        n <= 128u128 / k,
    ensures
        lane_total(y, k, n) == lane_total(x, (k / 2) as u128, 2 * n),
    decreases n,
{
    if n > 0 {
        let j = (n - 1) as u128;
        lemma_total_of_pair_sums(x, y, k, (n - 1) as nat);
        assert(lane(y, k, j) == lane(x, (k / 2) as u128, (2 * j) as u128) + lane(
            x,
            (k / 2) as u128,
            (2 * j + 1) as u128,
        ));
        assert(lane_total(x, (k / 2) as u128, 2 * n) == lane_total(x, (k / 2) as u128, (2 * n - 1) as nat)
            + lane(x, (k / 2) as u128, (2 * j + 1) as u128));
        assert(lane_total(x, (k / 2) as u128, (2 * n - 1) as nat) == lane_total(
            x,
            (k / 2) as u128,
            (2 * n - 2) as nat,
        ) + lane(x, (k / 2) as u128, (2 * j) as u128));
    }
}

/// Counting one more bit at the top of a range.
pub proof fn lemma_ones_in_extend(x: u128, s: int, w: nat)
    ensures
        ones_in(x, s, w + 1) == ones_in(x, s, w) + field(x, (s + w) as u128, 1),
    decreases w,
{
    assert(ones_in(x, s, w + 1) == field(x, s as u128, 1) as nat + ones_in(x, s + 1, w));
    if w > 0 {
        lemma_ones_in_extend(x, s + 1, (w - 1) as nat);
        assert(s + 1 + (w - 1) == s + w);
        assert(ones_in(x, s, w) == field(x, s as u128, 1) as nat + ones_in(x, s + 1, (w - 1) as nat));
    } else {
        assert(ones_in(x, s + 1, 0) == 0);
    }
}

/// The total of the first `m` single-bit lanes counts the set bits among
/// the first `m` bits.
pub proof fn lemma_bit_total(x: u128, m: nat)
    requires
        m <= 128,
    ensures
        lane_total(x, 1, m) == ones_in(x, 0, m),
    decreases m,
{
    if m > 0 {
        lemma_bit_total(x, (m - 1) as nat);
        lemma_ones_in_extend(x, 0, (m - 1) as nat);
        assert((1 * (m - 1)) as u128 == (m - 1) as u128);
    }
}

/// The single lane of a 128-bit reading is the word itself.
pub proof fn lemma_total_of_one_lane(x: u128)
    ensures
        lane_total(x, 128, 1) == x,
{
    assert(field(x, 0, 128) == x) by (bit_vector);
    assert(lane(x, 128, 0) == x);
    assert(lane_total(x, 128, 0) == 0);
    assert(lane_total(x, 128, 1) == lane_total(x, 128, 0) + lane(x, 128, 0) as nat);
}

} // verus!
