//! The mathematical reading of a packed word: lanes, their values, and the
//! counts of set bits that the lane algebra computes.
use vstd::prelude::*;

use crate::masks::{
    LEFT_MASK0, LEFT_MASK1, LEFT_MASK2, LEFT_MASK3, LEFT_MASK4, LEFT_MASK5, LEFT_MASK6,
    WEIGHT_MASK16, WEIGHT_MASK32, WEIGHT_MASK4, WEIGHT_MASK64, WEIGHT_MASK8,
};

verus! {

/// All ones in the low `w` bits (`w` at most 128).
pub open spec fn low_ones(w: u128) -> u128 {
    if w >= 128 {
        u128::MAX
    } else {
        ((1u128 << w) - 1) as u128
    }
}

/// The `w` bits of `x` that start at bit `s` (bit 0 is the least significant),
/// read as an unsigned number.
pub open spec fn field(x: u128, s: u128, w: u128) -> u128 {
    (x >> s) & low_ones(w)
}

/// Lane `i` of `x` read as lanes of `k` bits; lane 0 holds the least
/// significant bits.
pub open spec fn lane(x: u128, k: u128, i: u128) -> u128 {
    field(x, (k * i) as u128, k)
}

/// The upper half of every `k`-bit lane (`k` from 2 to 128).
pub open spec fn upper_halves(k: u128) -> u128 {
    if k == 2 {
        LEFT_MASK6
    } else if k == 4 {
        LEFT_MASK5
    } else if k == 8 {
        LEFT_MASK4
    } else if k == 16 {
        LEFT_MASK3
    } else if k == 32 {
        LEFT_MASK2
    } else if k == 64 {
        LEFT_MASK1
    } else {
        LEFT_MASK0
    }
}

/// Every `k`-bit lane of `x` holds a value that fits in its lower half.
pub open spec fn narrow(x: u128, k: u128) -> bool {
    x & upper_halves(k) == 0
}

/// Every `k`-bit lane of `y` is the sum of the two `k / 2`-bit lanes of `x`
/// that share its position.
pub open spec fn pair_sums(x: u128, y: u128, k: u128) -> bool {
    forall|i: u128|
        i < 128u128 / k ==> #[trigger] lane(y, k, i) == lane(x, (k / 2) as u128, (2 * i) as u128) + lane(
            x,
            (k / 2) as u128,
            (2 * i + 1) as u128,
        )
}

/// The number of set bits among the `w` bits of `x` that start at bit `s`.
pub open spec fn ones_in(x: u128, s: int, w: nat) -> nat
    decreases w,
{
    if w == 0 {
        0
    } else {
        field(x, s as u128, 1) as nat + ones_in(x, s + 1, (w - 1) as nat)
    }
}

/// The number of set bits of `x`.
pub open spec fn popcount(x: u128) -> nat {
    ones_in(x, 0, 128)
}

/// The sum of the first `n` lanes of `x` read as lanes of `k` bits.
pub open spec fn lane_total(x: u128, k: u128, n: nat) -> nat
    decreases n,
{
    if n == 0 {
        0
    } else {
        lane_total(x, k, (n - 1) as nat) + lane(x, k, (n - 1) as u128) as nat
    }
}

/// `v` is a run of ones from bit 0 up, with nothing above it: its set bits
/// are packed at its low end.
pub open spec fn packed(v: u128) -> bool {
    v & (v + 1) as u128 == 0
}

/// The smallest hamming distance between two strings whose weights are `a`
/// and `b`.
pub open spec fn min_distance(a: u128, b: u128) -> u128 {
    if a >= b {
        (a - b) as u128
    } else {
        (b - a) as u128
    }
}

/// The largest hamming distance between two `k`-bit strings whose weights are
/// `a` and `b`.
pub open spec fn max_distance(a: u128, b: u128, k: u128) -> u128 {
    if a + b <= k {
        (a + b) as u128
    } else {
        (2 * k - a - b) as u128
    }
}

/// Every `k`-bit lane of `x` is a hamming weight of `k` bits: at most `k`.
pub open spec fn weights(x: u128, k: u128) -> bool {
    forall|i: u128| i < 128u128 / k ==> #[trigger] lane(x, k, i) <= k
}

/// The weight bits of every `k`-bit lane (`k` from 4 to 64): the low bits
/// that hold a number from 0 to `k`.
pub open spec fn weight_mask(k: u128) -> u128 {
    if k == 4 {
        WEIGHT_MASK4
    } else if k == 8 {
        WEIGHT_MASK8
    } else if k == 16 {
        WEIGHT_MASK16
    } else if k == 32 {
        WEIGHT_MASK32
    } else {
        WEIGHT_MASK64
    }
}

} // verus!
