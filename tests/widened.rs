use swar::widened::{Bits1x2, Bits3x4, Bits4x8, Bits5x8, Bits2x4};
use swar::{Bits2, Bits4, Bits8};

#[test]
fn adding_split_halves_keeps_each_sum_in_its_lane() {
    let (odd, even) = Bits4(0xF9F1u128).split();
    let sum: Bits5x8<u128> = Bits4x8(odd) + Bits4x8(even);
    assert_eq!(sum, Bits5x8(Bits8(0x1810)));
    assert_eq!(Bits8::from(sum), Bits8(0x1810));
    assert_eq!(Bits8::from(Bits4x8(odd)), odd);
}

#[test]
fn adding_single_bit_halves_gives_two_bit_lanes() {
    let (odd, even) = swar::Bits1(0b11_10_01_00u128).split();
    let sum: Bits2<u128> = Bits1x2(odd) + Bits1x2(even);
    assert_eq!(sum, Bits2(0b10_01_01_00));
}

#[test]
fn adding_two_bit_halves() {
    let (odd, even) = Bits2(0b11_11_10_01u128).split();
    let sum: Bits3x4<u128> = Bits2x4(odd) + Bits2x4(even);
    assert_eq!(Bits4::from(sum), Bits4(0x63));
}
