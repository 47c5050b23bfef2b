//! Operators on the lane types: plain addition, masking and shifting of the
//! whole word.
use vstd::prelude::*;

use crate::{Bits1, Bits2, Bits4, Bits8, Bits16, Bits32, Bits64, Bits128};

verus! {

impl vstd::std_specs::ops::AddSpecImpl for Bits1<u128> {
    open spec fn obeys_add_spec() -> bool {
        true
    }

    open spec fn add_req(self, rhs: Self) -> bool {
        self.0 + rhs.0 <= u128::MAX
    }

    open spec fn add_spec(self, rhs: Self) -> Self {
        Bits1((self.0 + rhs.0) as u128)
    }
}

/// Adds the two words as numbers. A lane that overflows carries into the
/// next lane: keep the lanes small enough, or add the halves that `split`
/// gives in lanes twice as wide.
impl core::ops::Add for Bits1<u128> {
    type Output = Self;

    fn add(self, rhs: Self) -> Self {
        Bits1(self.0 + rhs.0)
    }
}

impl vstd::std_specs::ops::BitAndSpecImpl<u128> for Bits1<u128> {
    open spec fn obeys_bitand_spec() -> bool {
        true
    }

    open spec fn bitand_req(self, rhs: u128) -> bool {
        true
    }

    open spec fn bitand_spec(self, rhs: u128) -> Self {
        Bits1(self.0 & rhs)
    }
}

/// Masks the word.
impl core::ops::BitAnd<u128> for Bits1<u128> {
    type Output = Self;

    fn bitand(self, rhs: u128) -> Self {
        Bits1(self.0 & rhs)
    }
}

impl vstd::std_specs::ops::ShrSpecImpl<u32> for Bits1<u128> {
    open spec fn obeys_shr_spec() -> bool {
        true
    }

    open spec fn shr_req(self, rhs: u32) -> bool {
        rhs < 128
    }

    open spec fn shr_spec(self, rhs: u32) -> Self {
        Bits1(self.0 >> rhs)
    }
}

/// Shifts the whole word right.
impl core::ops::Shr<u32> for Bits1<u128> {
    type Output = Self;

    fn shr(self, rhs: u32) -> Self {
        Bits1(self.0 >> rhs)
    }
}

impl vstd::std_specs::ops::AddSpecImpl for Bits2<u128> {
    open spec fn obeys_add_spec() -> bool {
        true
    }

    open spec fn add_req(self, rhs: Self) -> bool {
        self.0 + rhs.0 <= u128::MAX
    }

    open spec fn add_spec(self, rhs: Self) -> Self {
        Bits2((self.0 + rhs.0) as u128)
    }
}

/// Adds the two words as numbers. A lane that overflows carries into the
/// next lane: keep the lanes small enough, or add the halves that `split`
/// gives in lanes twice as wide.
impl core::ops::Add for Bits2<u128> {
    type Output = Self;

    fn add(self, rhs: Self) -> Self {
        Bits2(self.0 + rhs.0)
    }
}

impl vstd::std_specs::ops::BitAndSpecImpl<u128> for Bits2<u128> {
    open spec fn obeys_bitand_spec() -> bool {
        true
    }

    open spec fn bitand_req(self, rhs: u128) -> bool {
        true
    }

    open spec fn bitand_spec(self, rhs: u128) -> Self {
        Bits2(self.0 & rhs)
    }
}

/// Masks the word.
impl core::ops::BitAnd<u128> for Bits2<u128> {
    type Output = Self;

    fn bitand(self, rhs: u128) -> Self {
        Bits2(self.0 & rhs)
    }
}

impl vstd::std_specs::ops::ShrSpecImpl<u32> for Bits2<u128> {
    open spec fn obeys_shr_spec() -> bool {
        true
    }

    open spec fn shr_req(self, rhs: u32) -> bool {
        rhs < 128
    }

    open spec fn shr_spec(self, rhs: u32) -> Self {
        Bits2(self.0 >> rhs)
    }
}

/// Shifts the whole word right.
impl core::ops::Shr<u32> for Bits2<u128> {
    type Output = Self;

    fn shr(self, rhs: u32) -> Self {
        Bits2(self.0 >> rhs)
    }
}

impl vstd::std_specs::ops::AddSpecImpl for Bits4<u128> {
    open spec fn obeys_add_spec() -> bool {
        true
    }

    open spec fn add_req(self, rhs: Self) -> bool {
        self.0 + rhs.0 <= u128::MAX
    }

    open spec fn add_spec(self, rhs: Self) -> Self {
        Bits4((self.0 + rhs.0) as u128)
    }
}

/// Adds the two words as numbers. A lane that overflows carries into the
/// next lane: keep the lanes small enough, or add the halves that `split`
/// gives in lanes twice as wide.
impl core::ops::Add for Bits4<u128> {
    type Output = Self;

    fn add(self, rhs: Self) -> Self {
        Bits4(self.0 + rhs.0)
    }
}

impl vstd::std_specs::ops::BitAndSpecImpl<u128> for Bits4<u128> {
    open spec fn obeys_bitand_spec() -> bool {
        true
    }

    open spec fn bitand_req(self, rhs: u128) -> bool {
        true
    }

    open spec fn bitand_spec(self, rhs: u128) -> Self {
        Bits4(self.0 & rhs)
    }
}

/// Masks the word.
impl core::ops::BitAnd<u128> for Bits4<u128> {
    type Output = Self;

    fn bitand(self, rhs: u128) -> Self {
        Bits4(self.0 & rhs)
    }
}

impl vstd::std_specs::ops::ShrSpecImpl<u32> for Bits4<u128> {
    open spec fn obeys_shr_spec() -> bool {
        true
    }

    open spec fn shr_req(self, rhs: u32) -> bool {
        rhs < 128
    }

    open spec fn shr_spec(self, rhs: u32) -> Self {
        Bits4(self.0 >> rhs)
    }
}

/// Shifts the whole word right.
impl core::ops::Shr<u32> for Bits4<u128> {
    type Output = Self;

    fn shr(self, rhs: u32) -> Self {
        Bits4(self.0 >> rhs)
    }
}

impl vstd::std_specs::ops::AddSpecImpl for Bits8<u128> {
    open spec fn obeys_add_spec() -> bool {
        true
    }

    open spec fn add_req(self, rhs: Self) -> bool {
        self.0 + rhs.0 <= u128::MAX
    }

    open spec fn add_spec(self, rhs: Self) -> Self {
        Bits8((self.0 + rhs.0) as u128)
    }
}

/// Adds the two words as numbers. A lane that overflows carries into the
/// next lane: keep the lanes small enough, or add the halves that `split`
/// gives in lanes twice as wide.
impl core::ops::Add for Bits8<u128> {
    type Output = Self;

    fn add(self, rhs: Self) -> Self {
        Bits8(self.0 + rhs.0)
    }
}

impl vstd::std_specs::ops::BitAndSpecImpl<u128> for Bits8<u128> {
    open spec fn obeys_bitand_spec() -> bool {
        true
    }

    open spec fn bitand_req(self, rhs: u128) -> bool {
        true
    }

    open spec fn bitand_spec(self, rhs: u128) -> Self {
        Bits8(self.0 & rhs)
    }
}

/// Masks the word.
impl core::ops::BitAnd<u128> for Bits8<u128> {
    type Output = Self;

    fn bitand(self, rhs: u128) -> Self {
        Bits8(self.0 & rhs)
    }
}

impl vstd::std_specs::ops::ShrSpecImpl<u32> for Bits8<u128> {
    open spec fn obeys_shr_spec() -> bool {
        true
    }

    open spec fn shr_req(self, rhs: u32) -> bool {
        rhs < 128
    }

    open spec fn shr_spec(self, rhs: u32) -> Self {
        Bits8(self.0 >> rhs)
    }
}

/// Shifts the whole word right.
impl core::ops::Shr<u32> for Bits8<u128> {
    type Output = Self;

    fn shr(self, rhs: u32) -> Self {
        Bits8(self.0 >> rhs)
    }
}

impl vstd::std_specs::ops::AddSpecImpl for Bits16<u128> {
    open spec fn obeys_add_spec() -> bool {
        true
    }

    open spec fn add_req(self, rhs: Self) -> bool {
        self.0 + rhs.0 <= u128::MAX
    }

    open spec fn add_spec(self, rhs: Self) -> Self {
        Bits16((self.0 + rhs.0) as u128)
    }
}

/// Adds the two words as numbers. A lane that overflows carries into the
/// next lane: keep the lanes small enough, or add the halves that `split`
/// gives in lanes twice as wide.
impl core::ops::Add for Bits16<u128> {
    type Output = Self;

    fn add(self, rhs: Self) -> Self {
        Bits16(self.0 + rhs.0)
    }
}

impl vstd::std_specs::ops::BitAndSpecImpl<u128> for Bits16<u128> {
    open spec fn obeys_bitand_spec() -> bool {
        true
    }

    open spec fn bitand_req(self, rhs: u128) -> bool {
        true
    }

    open spec fn bitand_spec(self, rhs: u128) -> Self {
        Bits16(self.0 & rhs)
    }
}

/// Masks the word.
impl core::ops::BitAnd<u128> for Bits16<u128> {
    type Output = Self;

    fn bitand(self, rhs: u128) -> Self {
        Bits16(self.0 & rhs)
    }
}

impl vstd::std_specs::ops::ShrSpecImpl<u32> for Bits16<u128> {
    open spec fn obeys_shr_spec() -> bool {
        true
    }

    open spec fn shr_req(self, rhs: u32) -> bool {
        rhs < 128
    }

    open spec fn shr_spec(self, rhs: u32) -> Self {
        Bits16(self.0 >> rhs)
    }
}

/// Shifts the whole word right.
impl core::ops::Shr<u32> for Bits16<u128> {
    type Output = Self;

    fn shr(self, rhs: u32) -> Self {
        Bits16(self.0 >> rhs)
    }
}

impl vstd::std_specs::ops::AddSpecImpl for Bits32<u128> {
    open spec fn obeys_add_spec() -> bool {
        true
    }

    open spec fn add_req(self, rhs: Self) -> bool {
        self.0 + rhs.0 <= u128::MAX
    }

    open spec fn add_spec(self, rhs: Self) -> Self {
        Bits32((self.0 + rhs.0) as u128)
    }
}

/// Adds the two words as numbers. A lane that overflows carries into the
/// next lane: keep the lanes small enough, or add the halves that `split`
/// gives in lanes twice as wide.
impl core::ops::Add for Bits32<u128> {
    type Output = Self;

    fn add(self, rhs: Self) -> Self {
        Bits32(self.0 + rhs.0)
    }
}

impl vstd::std_specs::ops::BitAndSpecImpl<u128> for Bits32<u128> {
    open spec fn obeys_bitand_spec() -> bool {
        true
    }

    open spec fn bitand_req(self, rhs: u128) -> bool {
        true
    }

    open spec fn bitand_spec(self, rhs: u128) -> Self {
        Bits32(self.0 & rhs)
    }
}

/// Masks the word.
impl core::ops::BitAnd<u128> for Bits32<u128> {
    type Output = Self;

    fn bitand(self, rhs: u128) -> Self {
        Bits32(self.0 & rhs)
    }
}

impl vstd::std_specs::ops::ShrSpecImpl<u32> for Bits32<u128> {
    open spec fn obeys_shr_spec() -> bool {
        true
    }

    open spec fn shr_req(self, rhs: u32) -> bool {
        rhs < 128
    }

    open spec fn shr_spec(self, rhs: u32) -> Self {
        Bits32(self.0 >> rhs)
    }
}

/// Shifts the whole word right.
impl core::ops::Shr<u32> for Bits32<u128> {
    type Output = Self;

    fn shr(self, rhs: u32) -> Self {
        Bits32(self.0 >> rhs)
    }
}

impl vstd::std_specs::ops::AddSpecImpl for Bits64<u128> {
    open spec fn obeys_add_spec() -> bool {
        true
    }

    open spec fn add_req(self, rhs: Self) -> bool {
        self.0 + rhs.0 <= u128::MAX
    }

    open spec fn add_spec(self, rhs: Self) -> Self {
        Bits64((self.0 + rhs.0) as u128)
    }
}

/// Adds the two words as numbers. A lane that overflows carries into the
/// next lane: keep the lanes small enough, or add the halves that `split`
/// gives in lanes twice as wide.
impl core::ops::Add for Bits64<u128> {
    type Output = Self;

    fn add(self, rhs: Self) -> Self {
        Bits64(self.0 + rhs.0)
    }
}

impl vstd::std_specs::ops::BitAndSpecImpl<u128> for Bits64<u128> {
    open spec fn obeys_bitand_spec() -> bool {
        true
    }

    open spec fn bitand_req(self, rhs: u128) -> bool {
        true
    }

    open spec fn bitand_spec(self, rhs: u128) -> Self {
        Bits64(self.0 & rhs)
    }
}

/// Masks the word.
impl core::ops::BitAnd<u128> for Bits64<u128> {
    type Output = Self;

    fn bitand(self, rhs: u128) -> Self {
        Bits64(self.0 & rhs)
    }
}

impl vstd::std_specs::ops::ShrSpecImpl<u32> for Bits64<u128> {
    open spec fn obeys_shr_spec() -> bool {
        true
    }

    open spec fn shr_req(self, rhs: u32) -> bool {
        rhs < 128
    }

    open spec fn shr_spec(self, rhs: u32) -> Self {
        Bits64(self.0 >> rhs)
    }
}

/// Shifts the whole word right.
impl core::ops::Shr<u32> for Bits64<u128> {
    type Output = Self;

    fn shr(self, rhs: u32) -> Self {
        Bits64(self.0 >> rhs)
    }
}

impl vstd::std_specs::ops::AddSpecImpl for Bits128<u128> {
    open spec fn obeys_add_spec() -> bool {
        true
    }

    open spec fn add_req(self, rhs: Self) -> bool {
        self.0 + rhs.0 <= u128::MAX
    }

    open spec fn add_spec(self, rhs: Self) -> Self {
        Bits128((self.0 + rhs.0) as u128)
    }
}

/// Adds the two words as numbers. A lane that overflows carries into the
/// next lane: keep the lanes small enough, or add the halves that `split`
/// gives in lanes twice as wide.
impl core::ops::Add for Bits128<u128> {
    type Output = Self;

    fn add(self, rhs: Self) -> Self {
        Bits128(self.0 + rhs.0)
    }
}

impl vstd::std_specs::ops::BitAndSpecImpl<u128> for Bits128<u128> {
    open spec fn obeys_bitand_spec() -> bool {
        true
    }

    open spec fn bitand_req(self, rhs: u128) -> bool {
        true
    }

    open spec fn bitand_spec(self, rhs: u128) -> Self {
        Bits128(self.0 & rhs)
    }
}

/// Masks the word.
impl core::ops::BitAnd<u128> for Bits128<u128> {
    type Output = Self;

    fn bitand(self, rhs: u128) -> Self {
        Bits128(self.0 & rhs)
    }
}

impl vstd::std_specs::ops::ShrSpecImpl<u32> for Bits128<u128> {
    open spec fn obeys_shr_spec() -> bool {
        true
    }

    open spec fn shr_req(self, rhs: u32) -> bool {
        rhs < 128
    }

    open spec fn shr_spec(self, rhs: u32) -> Self {
        Bits128(self.0 >> rhs)
    }
}

/// Shifts the whole word right.
impl core::ops::Shr<u32> for Bits128<u128> {
    type Output = Self;

    fn shr(self, rhs: u32) -> Self {
        Bits128(self.0 >> rhs)
    }
}

impl vstd::std_specs::convert::FromSpecImpl<Bits128<u128>> for u128 {
    open spec fn obeys_from_spec() -> bool {
        true
    }

    open spec fn from_spec(n: Bits128<u128>) -> u128 {
        n.0
    }
}

/// The single lane of a 128-bit reading is the word itself.
impl From<Bits128<u128>> for u128 {
    fn from(n: Bits128<u128>) -> u128 {
        n.0
    }
}

} // verus!
