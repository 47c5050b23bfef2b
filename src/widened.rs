//! Intermediate lane types that make the extra bit of a sum explicit: a word
//! of `2K`-bit lanes whose values still fit in `K` bits (the halves of a
//! split), and the sum of two of them, whose values fit in `K + 1` bits.
use vstd::prelude::*;

use crate::model::narrow;
use crate::facts::lemma_add_narrow;

use crate::{Bits2, Bits4, Bits8, Bits16, Bits32, Bits64, Bits128};

verus! {

/// `Bits2` lanes that each hold a value of at most 1 bit.
#[derive(Copy, Clone, Debug, PartialEq, Eq)]
pub struct Bits1x2<N>(pub Bits2<N>);

/// `Bits4` lanes that each hold a value of at most 2 bits.
#[derive(Copy, Clone, Debug, PartialEq, Eq)]
pub struct Bits2x4<N>(pub Bits4<N>);

/// `Bits4` lanes that each hold a value of at most 3 bits: the sum of two
/// lanes of 2 bits.
#[derive(Copy, Clone, Debug, PartialEq, Eq)]
pub struct Bits3x4<N>(pub Bits4<N>);

/// `Bits8` lanes that each hold a value of at most 4 bits.
#[derive(Copy, Clone, Debug, PartialEq, Eq)]
pub struct Bits4x8<N>(pub Bits8<N>);

/// `Bits8` lanes that each hold a value of at most 5 bits: the sum of two
/// lanes of 4 bits.
#[derive(Copy, Clone, Debug, PartialEq, Eq)]
pub struct Bits5x8<N>(pub Bits8<N>);

/// `Bits16` lanes that each hold a value of at most 8 bits.
#[derive(Copy, Clone, Debug, PartialEq, Eq)]
pub struct Bits8x16<N>(pub Bits16<N>);

/// `Bits16` lanes that each hold a value of at most 9 bits: the sum of two
/// lanes of 8 bits.
#[derive(Copy, Clone, Debug, PartialEq, Eq)]
pub struct Bits9x16<N>(pub Bits16<N>);

/// `Bits32` lanes that each hold a value of at most 16 bits.
#[derive(Copy, Clone, Debug, PartialEq, Eq)]
pub struct Bits16x32<N>(pub Bits32<N>);

/// `Bits32` lanes that each hold a value of at most 17 bits: the sum of two
/// lanes of 16 bits.
#[derive(Copy, Clone, Debug, PartialEq, Eq)]
pub struct Bits17x32<N>(pub Bits32<N>);

/// `Bits64` lanes that each hold a value of at most 32 bits.
#[derive(Copy, Clone, Debug, PartialEq, Eq)]
pub struct Bits32x64<N>(pub Bits64<N>);

/// `Bits64` lanes that each hold a value of at most 33 bits: the sum of two
/// lanes of 32 bits.
#[derive(Copy, Clone, Debug, PartialEq, Eq)]
pub struct Bits33x64<N>(pub Bits64<N>);

/// `Bits128` lanes that each hold a value of at most 64 bits.
#[derive(Copy, Clone, Debug, PartialEq, Eq)]
pub struct Bits64x128<N>(pub Bits128<N>);

/// `Bits128` lanes that each hold a value of at most 65 bits: the sum of two
/// lanes of 64 bits.
#[derive(Copy, Clone, Debug, PartialEq, Eq)]
pub struct Bits65x128<N>(pub Bits128<N>);

impl vstd::std_specs::ops::AddSpecImpl for Bits1x2<u128> {
    open spec fn obeys_add_spec() -> bool {
        true
    }

    open spec fn add_req(self, rhs: Self) -> bool {
        narrow(self.0.0, 2) && narrow(rhs.0.0, 2)
    }

    open spec fn add_spec(self, rhs: Self) -> Bits2<u128> {
        Bits2((self.0.0 + rhs.0.0) as u128)
    }
}

/// Adds two words whose lanes fit in their lower halves; no lane carries
/// into the next.
impl core::ops::Add for Bits1x2<u128> {
    type Output = Bits2<u128>;

    fn add(self, other: Self) -> Bits2<u128> {
        proof {
            lemma_add_narrow(self.0.0, other.0.0);
        }
        Bits2((self.0).0 + (other.0).0)
    }
}

impl vstd::std_specs::convert::FromSpecImpl<Bits1x2<u128>> for Bits2<u128> {
    open spec fn obeys_from_spec() -> bool {
        true
    }

    open spec fn from_spec(n: Bits1x2<u128>) -> Bits2<u128> {
        n.0
    }
}

/// Reads the lanes again as plain `Bits2` lanes.
impl From<Bits1x2<u128>> for Bits2<u128> {
    fn from(n: Bits1x2<u128>) -> Bits2<u128> {
        n.0
    }
}

impl vstd::std_specs::ops::AddSpecImpl for Bits2x4<u128> {
    open spec fn obeys_add_spec() -> bool {
        true
    }

    open spec fn add_req(self, rhs: Self) -> bool {
        narrow(self.0.0, 4) && narrow(rhs.0.0, 4)
    }

    open spec fn add_spec(self, rhs: Self) -> Bits3x4<u128> {
        Bits3x4(Bits4((self.0.0 + rhs.0.0) as u128))
    }
}

/// Adds two words whose lanes fit in their lower halves; no lane carries
/// into the next.
impl core::ops::Add for Bits2x4<u128> {
    type Output = Bits3x4<u128>;

    fn add(self, other: Self) -> Bits3x4<u128> {
        proof {
            lemma_add_narrow(self.0.0, other.0.0);
        }
        Bits3x4(Bits4((self.0).0 + (other.0).0))
    }
}

impl vstd::std_specs::convert::FromSpecImpl<Bits2x4<u128>> for Bits4<u128> {
    open spec fn obeys_from_spec() -> bool {
        true
    }

    open spec fn from_spec(n: Bits2x4<u128>) -> Bits4<u128> {
        n.0
    }
}

/// Reads the lanes again as plain `Bits4` lanes.
impl From<Bits2x4<u128>> for Bits4<u128> {
    fn from(n: Bits2x4<u128>) -> Bits4<u128> {
        n.0
    }
}

impl vstd::std_specs::convert::FromSpecImpl<Bits3x4<u128>> for Bits4<u128> {
    open spec fn obeys_from_spec() -> bool {
        true
    }

    open spec fn from_spec(n: Bits3x4<u128>) -> Bits4<u128> {
        n.0
    }
}

/// Reads the lanes again as plain `Bits4` lanes.
impl From<Bits3x4<u128>> for Bits4<u128> {
    fn from(n: Bits3x4<u128>) -> Bits4<u128> {
        n.0
    }
}

impl vstd::std_specs::ops::AddSpecImpl for Bits4x8<u128> {
    open spec fn obeys_add_spec() -> bool {
        true
    }

    open spec fn add_req(self, rhs: Self) -> bool {
        narrow(self.0.0, 8) && narrow(rhs.0.0, 8)
    }

    open spec fn add_spec(self, rhs: Self) -> Bits5x8<u128> {
        Bits5x8(Bits8((self.0.0 + rhs.0.0) as u128))
    }
}

/// Adds two words whose lanes fit in their lower halves; no lane carries
/// into the next.
impl core::ops::Add for Bits4x8<u128> {
    type Output = Bits5x8<u128>;

    fn add(self, other: Self) -> Bits5x8<u128> {
        proof {
            lemma_add_narrow(self.0.0, other.0.0);
        }
        Bits5x8(Bits8((self.0).0 + (other.0).0))
    }
}

impl vstd::std_specs::convert::FromSpecImpl<Bits4x8<u128>> for Bits8<u128> {
    open spec fn obeys_from_spec() -> bool {
        true
    }

    open spec fn from_spec(n: Bits4x8<u128>) -> Bits8<u128> {
        n.0
    }
}

/// Reads the lanes again as plain `Bits8` lanes.
impl From<Bits4x8<u128>> for Bits8<u128> {
    fn from(n: Bits4x8<u128>) -> Bits8<u128> {
        n.0
    }
}

impl vstd::std_specs::convert::FromSpecImpl<Bits5x8<u128>> for Bits8<u128> {
    open spec fn obeys_from_spec() -> bool {
        true
    }

    open spec fn from_spec(n: Bits5x8<u128>) -> Bits8<u128> {
        n.0
    }
}

/// Reads the lanes again as plain `Bits8` lanes.
impl From<Bits5x8<u128>> for Bits8<u128> {
    fn from(n: Bits5x8<u128>) -> Bits8<u128> {
        n.0
    }
}

impl vstd::std_specs::ops::AddSpecImpl for Bits8x16<u128> {
    open spec fn obeys_add_spec() -> bool {
        true
    }

    open spec fn add_req(self, rhs: Self) -> bool {
        narrow(self.0.0, 16) && narrow(rhs.0.0, 16)
    }

    open spec fn add_spec(self, rhs: Self) -> Bits9x16<u128> {
        Bits9x16(Bits16((self.0.0 + rhs.0.0) as u128))
    }
}

/// Adds two words whose lanes fit in their lower halves; no lane carries
/// into the next.
impl core::ops::Add for Bits8x16<u128> {
    type Output = Bits9x16<u128>;

    fn add(self, other: Self) -> Bits9x16<u128> {
        proof {
            lemma_add_narrow(self.0.0, other.0.0);
        }
        Bits9x16(Bits16((self.0).0 + (other.0).0))
    }
}

impl vstd::std_specs::convert::FromSpecImpl<Bits8x16<u128>> for Bits16<u128> {
    open spec fn obeys_from_spec() -> bool {
        true
    }

    open spec fn from_spec(n: Bits8x16<u128>) -> Bits16<u128> {
        n.0
    }
}

/// Reads the lanes again as plain `Bits16` lanes.
impl From<Bits8x16<u128>> for Bits16<u128> {
    fn from(n: Bits8x16<u128>) -> Bits16<u128> {
        n.0
    }
}

impl vstd::std_specs::convert::FromSpecImpl<Bits9x16<u128>> for Bits16<u128> {
    open spec fn obeys_from_spec() -> bool {
        true
    }

    open spec fn from_spec(n: Bits9x16<u128>) -> Bits16<u128> {
        n.0
    }
}

/// Reads the lanes again as plain `Bits16` lanes.
impl From<Bits9x16<u128>> for Bits16<u128> {
    fn from(n: Bits9x16<u128>) -> Bits16<u128> {
        n.0
    }
}

impl vstd::std_specs::ops::AddSpecImpl for Bits16x32<u128> {
    open spec fn obeys_add_spec() -> bool {
        true
    }

    open spec fn add_req(self, rhs: Self) -> bool {
        narrow(self.0.0, 32) && narrow(rhs.0.0, 32)
    }

    open spec fn add_spec(self, rhs: Self) -> Bits17x32<u128> {
        Bits17x32(Bits32((self.0.0 + rhs.0.0) as u128))
    }
}

/// Adds two words whose lanes fit in their lower halves; no lane carries
/// into the next.
impl core::ops::Add for Bits16x32<u128> {
    type Output = Bits17x32<u128>;

    fn add(self, other: Self) -> Bits17x32<u128> {
        proof {
            lemma_add_narrow(self.0.0, other.0.0);
        }
        Bits17x32(Bits32((self.0).0 + (other.0).0))
    }
}

impl vstd::std_specs::convert::FromSpecImpl<Bits16x32<u128>> for Bits32<u128> {
    open spec fn obeys_from_spec() -> bool {
        true
    }

    open spec fn from_spec(n: Bits16x32<u128>) -> Bits32<u128> {
        n.0
    }
}

/// Reads the lanes again as plain `Bits32` lanes.
impl From<Bits16x32<u128>> for Bits32<u128> {
    fn from(n: Bits16x32<u128>) -> Bits32<u128> {
        n.0
    }
}

impl vstd::std_specs::convert::FromSpecImpl<Bits17x32<u128>> for Bits32<u128> {
    open spec fn obeys_from_spec() -> bool {
        true
    }

    open spec fn from_spec(n: Bits17x32<u128>) -> Bits32<u128> {
        n.0
    }
}

/// Reads the lanes again as plain `Bits32` lanes.
impl From<Bits17x32<u128>> for Bits32<u128> {
    fn from(n: Bits17x32<u128>) -> Bits32<u128> {
        n.0
    }
}

impl vstd::std_specs::ops::AddSpecImpl for Bits32x64<u128> {
    open spec fn obeys_add_spec() -> bool {
        true
    }

    open spec fn add_req(self, rhs: Self) -> bool {
        narrow(self.0.0, 64) && narrow(rhs.0.0, 64)
    }

    open spec fn add_spec(self, rhs: Self) -> Bits33x64<u128> {
        Bits33x64(Bits64((self.0.0 + rhs.0.0) as u128))
    }
}

/// Adds two words whose lanes fit in their lower halves; no lane carries
/// into the next.
impl core::ops::Add for Bits32x64<u128> {
    type Output = Bits33x64<u128>;

    fn add(self, other: Self) -> Bits33x64<u128> {
        proof {
            lemma_add_narrow(self.0.0, other.0.0);
        }
        Bits33x64(Bits64((self.0).0 + (other.0).0))
    }
}

impl vstd::std_specs::convert::FromSpecImpl<Bits32x64<u128>> for Bits64<u128> {
    open spec fn obeys_from_spec() -> bool {
        true
    }

    open spec fn from_spec(n: Bits32x64<u128>) -> Bits64<u128> {
        n.0
    }
}

/// Reads the lanes again as plain `Bits64` lanes.
impl From<Bits32x64<u128>> for Bits64<u128> {
    fn from(n: Bits32x64<u128>) -> Bits64<u128> {
        n.0
    }
}

impl vstd::std_specs::convert::FromSpecImpl<Bits33x64<u128>> for Bits64<u128> {
    open spec fn obeys_from_spec() -> bool {
        true
    }

    open spec fn from_spec(n: Bits33x64<u128>) -> Bits64<u128> {
        n.0
    }
}

/// Reads the lanes again as plain `Bits64` lanes.
impl From<Bits33x64<u128>> for Bits64<u128> {
    fn from(n: Bits33x64<u128>) -> Bits64<u128> {
        n.0
    }
}

impl vstd::std_specs::ops::AddSpecImpl for Bits64x128<u128> {
    open spec fn obeys_add_spec() -> bool {
        true
    }

    open spec fn add_req(self, rhs: Self) -> bool {
        narrow(self.0.0, 128) && narrow(rhs.0.0, 128)
    }

    open spec fn add_spec(self, rhs: Self) -> Bits65x128<u128> {
        Bits65x128(Bits128((self.0.0 + rhs.0.0) as u128))
    }
}

/// Adds two words whose lanes fit in their lower halves; no lane carries
/// into the next.
impl core::ops::Add for Bits64x128<u128> {
    type Output = Bits65x128<u128>;

    fn add(self, other: Self) -> Bits65x128<u128> {
        proof {
            lemma_add_narrow(self.0.0, other.0.0);
        }
        Bits65x128(Bits128((self.0).0 + (other.0).0))
    }
}

impl vstd::std_specs::convert::FromSpecImpl<Bits64x128<u128>> for Bits128<u128> {
    open spec fn obeys_from_spec() -> bool {
        true
    }

    open spec fn from_spec(n: Bits64x128<u128>) -> Bits128<u128> {
        n.0
    }
}

/// Reads the lanes again as plain `Bits128` lanes.
impl From<Bits64x128<u128>> for Bits128<u128> {
    fn from(n: Bits64x128<u128>) -> Bits128<u128> {
        n.0
    }
}

impl vstd::std_specs::convert::FromSpecImpl<Bits65x128<u128>> for Bits128<u128> {
    open spec fn obeys_from_spec() -> bool {
        true
    }

    open spec fn from_spec(n: Bits65x128<u128>) -> Bits128<u128> {
        n.0
    }
}

/// Reads the lanes again as plain `Bits128` lanes.
impl From<Bits65x128<u128>> for Bits128<u128> {
    fn from(n: Bits65x128<u128>) -> Bits128<u128> {
        n.0
    }
}

} // verus!
