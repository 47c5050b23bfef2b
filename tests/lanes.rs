use swar::{Bits1, Bits128, Bits16, Bits2, Bits32, Bits4, Bits64, Bits8};

#[test]
fn hamming_weights_in_parallel() {
    let n = 0xAAAA_AAAA_AAAA_AAAA_AAAA_AAAA_AAAA_AAAAu128;
    let weight: u128 = Bits1(n)
        .sum_weight2()
        .sum_weight2()
        .sum_weight2()
        .sum_weight2()
        .sum_weight2()
        .sum_weight2()
        .sum_weight2()
        .into();
    assert_eq!(weight as u32, n.count_ones());
    assert_eq!(
        Bits1(n).sum_weight2().sum_weight2().0,
        0x2222_2222_2222_2222_2222_2222_2222_2222
    );
    assert_eq!(
        Bits1(n).sum_weight2().sum_weight2().split().0,
        Bits8(0x0202_0202_0202_0202_0202_0202_0202_0202)
    );
}

#[test]
fn hamming_weight_differences_in_parallel() {
    let a = Bits2(0b00_01_10_00_01_10_00_01_10u128);
    let b = Bits2(0b00_00_00_01_01_01_10_10_10u128);
    let expected = Bits2(0b00_01_10_01_00_01_10_01_00u128);
    assert_eq!(a.minhwd(b), expected);
    assert_eq!(b.minhwd(a), expected);
    assert_eq!(a.hwd(b), expected);
}

#[test]
fn maxhwd_of_two_bit_weights() {
    let a = Bits2(0b00_01_10_00_01_10_00_01_10u128);
    let b = Bits2(0b00_00_00_01_01_01_10_10_10u128);
    let e = Bits2(0b00_01_10_01_10_01_10_01_00u128);
    assert_eq!(a.maxhwd(b), e);
}

#[test]
fn single_bit_distances_are_xor() {
    let a = Bits1(0b1100u128);
    let b = Bits1(0b1010u128);
    assert_eq!(a.minhwd(b), Bits1(0b0110));
    assert_eq!(a.maxhwd(b), Bits1(0b0110));
    assert_eq!(a.hwd(b), Bits1(0b0110));
}

#[test]
fn from_element_broadcasts() {
    assert_eq!(Bits1::from_element(1), Bits1(0xFFFF_FFFF_FFFF_FFFF_FFFF_FFFF_FFFF_FFFF));
    assert_eq!(Bits1::from_element(0), Bits1(0x0000_0000_0000_0000_0000_0000_0000_0000));
    assert_eq!(Bits2::from_element(0b10), Bits2(0xAAAA_AAAA_AAAA_AAAA_AAAA_AAAA_AAAA_AAAA));
    assert_eq!(Bits4::from_element(0b0110), Bits4(0x6666_6666_6666_6666_6666_6666_6666_6666));
    assert_eq!(Bits8::from_element(0xFE), Bits8(0xFEFE_FEFE_FEFE_FEFE_FEFE_FEFE_FEFE_FEFE));
    assert_eq!(Bits16::from_element(0xFEED), Bits16(0xFEED_FEED_FEED_FEED_FEED_FEED_FEED_FEED));
    assert_eq!(
        Bits32::from_element(0xFEED_FACE),
        Bits32(0xFEED_FACE_FEED_FACE_FEED_FACE_FEED_FACE)
    );
    assert_eq!(
        Bits64::from_element(0xFEED_FACE_CAFE_BEEF),
        Bits64(0xFEED_FACE_CAFE_BEEF_FEED_FACE_CAFE_BEEF)
    );
}

#[test]
fn broadcast_halves_agree() {
    assert_eq!(Bits1::from_element(1).split().0, Bits1::from_element(1).split().1);
    assert_eq!(Bits2::from_element(3).split().0, Bits2::from_element(3).split().1);
    assert_eq!(Bits4::from_element(9).split().0, Bits4::from_element(9).split().1);
    assert_eq!(Bits8::from_element(0xA5).split().0, Bits8::from_element(0xA5).split().1);
    assert_eq!(Bits16::from_element(0xBEEF).split().0, Bits16::from_element(0xBEEF).split().1);
    assert_eq!(
        Bits32::from_element(0xDEAD_BEEF).split().0,
        Bits32::from_element(0xDEAD_BEEF).split().1
    );
    let (l, r) = Bits64::from_element(0x0123_4567_89AB_CDEF).split();
    assert_eq!(l, r);
    assert_eq!(l, Bits128(0x0123_4567_89AB_CDEF));
}

#[test]
fn any_per_lane() {
    assert_eq!(Bits1(0b1010u128).any(), Bits1(0b1010u128));
    assert_eq!(Bits2(0b01101100u128).any(), Bits2(0b01010100u128));
    assert_eq!(Bits4(0xE_0u128).any(), Bits4(0x1_0u128));
    assert_eq!(Bits8(0xF0_00u128).any(), Bits8(0x01_00u128));
    assert_eq!(Bits16(0x8000_0000u128).any(), Bits16(0x0001_0000u128));
    assert_eq!(Bits32(0x8000_0000_0000_0000u128).any(), Bits32(0x0000_0001_0000_0000u128));
    assert_eq!(
        Bits64(0x8000_0000_0000_0000_0000_0000_0000_0000u128).any(),
        Bits64(0x0000_0000_0000_0001_0000_0000_0000_0000u128)
    );
    assert_eq!(
        Bits128(0x8000_0000_0000_0000_0000_0000_0000_0000u128).any(),
        Bits128(0x0000_0000_0000_0000_0000_0000_0000_0001u128)
    );
    assert_eq!(Bits128(0u128).any(), Bits128(0u128));
}

#[test]
fn any_matches_lane_test_exhaustively_on_small_lanes() {
    for v in 0u128..256 {
        let x = v << 64 | v;
        let a4 = Bits4(x).any().0;
        for i in 0..32 {
            let lane = (x >> (4 * i)) & 0xF;
            assert_eq!((a4 >> (4 * i)) & 0xF, (lane != 0) as u128);
        }
        let a8 = Bits8(x).any().0;
        for i in 0..16 {
            let lane = (x >> (8 * i)) & 0xFF;
            assert_eq!((a8 >> (8 * i)) & 0xFF, (lane != 0) as u128);
        }
        let a2 = Bits2(x).any().0;
        for i in 0..64 {
            let lane = (x >> (2 * i)) & 0x3;
            assert_eq!((a2 >> (2 * i)) & 0x3, (lane != 0) as u128);
        }
    }
}

#[test]
fn halve_examples() {
    let (left, right) = Bits1(0b1101 << 64 | 0b0101u128).halve();
    assert_eq!(left, Bits2(0b0101_0001));
    assert_eq!(right, Bits2(0b0001_0001));
    let (left, right) = Bits2(0b1101 << 64 | 0b0101u128).halve();
    assert_eq!(left, Bits4(0b0011_0001));
    assert_eq!(right, Bits4(0b0001_0001));
    let (left, right) = Bits4(0xABCD << 64 | 0xDEAD).halve();
    assert_eq!(left, Bits8(0x0A0B_0C0D));
    assert_eq!(right, Bits8(0x0D0E_0A0D));
    let (left, right) = Bits8(0xABCD << 64 | 0xDEAD).halve();
    assert_eq!(left, Bits16(0x00AB_00CD));
    assert_eq!(right, Bits16(0x00DE_00AD));
    let (left, right) = Bits16(0x0BAD_CAFE << 64 | 0xDEAD_BEEF).halve();
    assert_eq!(left, Bits32(0x0000_0BAD_0000_CAFE));
    assert_eq!(right, Bits32(0x0000_DEAD_0000_BEEF));
    let (left, right) = Bits32(0x0BAD_CAFE << 64 | 0xDEAD_BEEF).halve();
    assert_eq!(left, Bits64(0x0BAD_CAFE));
    assert_eq!(right, Bits64(0xDEAD_BEEF));
    let (left, right) = Bits64(0x0BAD_CAFE << 64 | 0xDEAD_BEEF).halve();
    assert_eq!(left, Bits128(0x0BAD_CAFE));
    assert_eq!(right, Bits128(0xDEAD_BEEF));
}

#[test]
fn union_undoes_halve() {
    let n = 0xFEED_FACE_CAFE_BEEF_FEED_FACE_CAFE_BEEFu128;
    let (l, r) = Bits1(n).halve();
    assert_eq!(Bits1::union(l, r), Bits1(n));
    let (l, r) = Bits2(n).halve();
    assert_eq!(Bits2::union(l, r), Bits2(n));
    let (l, r) = Bits4(n).halve();
    assert_eq!(Bits4::union(l, r), Bits4(n));
    let (l, r) = Bits8(n).halve();
    assert_eq!(Bits8::union(l, r), Bits8(n));
    let (l, r) = Bits16(n).halve();
    assert_eq!(Bits16::union(l, r), Bits16(n));
    let (l, r) = Bits32(n).halve();
    assert_eq!(Bits32::union(l, r), Bits32(n));
    let (l, r) = Bits64(n).halve();
    assert_eq!(Bits64::union(l, r), Bits64(n));
}

#[test]
fn halve_undoes_union() {
    let (l, r) = Bits4(0x1234_5678_9ABC_DEF0_0FED_CBA9_8765_4321u128).halve();
    let joined = Bits4::union(l, r);
    assert_eq!(joined.halve(), (l, r));
    let (l, r) = Bits1(0x0123_4567_89AB_CDEF_0123_4567_89AB_CDEFu128).halve();
    assert_eq!(Bits1::union(l, r).halve(), (l, r));
}

#[test]
fn squash_keeps_the_low_half() {
    assert_eq!(Bits2(0b0101_0001u128).squash(), Bits1(0b1101));
    assert_eq!(Bits8(0x0A0B_0C0Du128).squash(), Bits4(0xABCD));
    assert_eq!(Bits16(0x00AB_00CDu128).squash(), Bits8(0xABCD));
    assert_eq!(Bits32(0x0000_0BAD_0000_CAFEu128).squash(), Bits16(0x0BAD_CAFE));
    assert_eq!(Bits64(0x0BAD_CAFE_u128 << 64 | 0xDEAD_BEEF).squash(), Bits32(0x0BAD_CAFE_DEAD_BEEF));
    assert_eq!(Bits128(0xDEAD_BEEFu128).squash(), Bits64(0xDEAD_BEEF));
    assert_eq!(Bits4(0x0301u128).squash(), Bits2(0b00_11_00_01));
}

#[test]
fn split_moves_odd_and_even_lanes() {
    let (odd, even) = Bits4(0x1234u128).split();
    assert_eq!(odd, Bits8(0x0103));
    assert_eq!(even, Bits8(0x0204));
    let (odd, even) = Bits1(0b10u128).split();
    assert_eq!(odd, Bits2(0b01));
    assert_eq!(even, Bits2(0));
    assert_eq!(odd.0 << 1 | even.0, 0b10);
}

#[test]
fn pack_ones_examples() {
    assert_eq!(Bits1(0b00_01_10_11u128).pack_ones(), Bits2(0b00_01_01_11));
    assert_eq!(Bits2(0b11_01_01_00u128).pack_ones(), Bits4(0b0111_0001));
    assert_eq!(Bits2(0b11_11_00_00u128).pack_ones(), Bits4(0b1111_0000));
    assert_eq!(Bits2(0b01_01_00_01u128).pack_ones(), Bits4(0b0011_0001));
    assert_eq!(Bits2(0b11_00_00_11u128).pack_ones(), Bits4(0b0011_0011));
    assert_eq!(Bits4(0b0111_0001u128).pack_ones(), Bits8(0b00001111));
    assert_eq!(Bits4(0b1111_0000u128).pack_ones(), Bits8(0b0000_1111));
    assert_eq!(Bits4(0b0011_0001u128).pack_ones(), Bits8(0b0000_0111));
    assert_eq!(Bits4(0b0011_0011u128).pack_ones(), Bits8(0b00001111));
    assert_eq!(Bits4(0b1111_1111u128).pack_ones(), Bits8(0b11111111));
}

#[test]
fn pack_ones_in_the_top_lane() {
    assert_eq!(Bits2(0b11_11u128 << 124).pack_ones(), Bits4(0b1111u128 << 124));
    assert_eq!(Bits1(0b11u128 << 126).pack_ones(), Bits2(0b11u128 << 126));
    assert_eq!(Bits4(0xFFu128 << 120).pack_ones(), Bits8(0xFFu128 << 120));
}

fn check_distance(bits: u32, f: impl Fn(u128, u128) -> u128) {
    for a in 0u128..=bits as u128 {
        for b in 0u128..=bits as u128 {
            let aa = a | a << bits;
            let bb = b | b << bits;
            let diff = (a as i128 - b as i128).unsigned_abs();
            assert_eq!(f(aa, bb), diff | diff << bits, "{} {}", a, b);
            assert_eq!(f(bb, aa), diff | diff << bits, "{} {}", b, a);
        }
    }
}

#[test]
fn minhwd_exhaustive_on_two_lanes() {
    check_distance(4, |a, b| Bits4(a).minhwd(Bits4(b)).0);
    check_distance(8, |a, b| Bits8(a).minhwd(Bits8(b)).0);
    check_distance(16, |a, b| Bits16(a).minhwd(Bits16(b)).0);
    check_distance(32, |a, b| Bits32(a).minhwd(Bits32(b)).0);
    check_distance(64, |a, b| Bits64(a).minhwd(Bits64(b)).0);
}

#[test]
fn hwd_exhaustive_on_two_lanes() {
    check_distance(4, |a, b| Bits4(a).hwd(Bits4(b)).0);
    check_distance(8, |a, b| Bits8(a).hwd(Bits8(b)).0);
    check_distance(16, |a, b| Bits16(a).hwd(Bits16(b)).0);
    check_distance(32, |a, b| Bits32(a).hwd(Bits32(b)).0);
    check_distance(64, |a, b| Bits64(a).hwd(Bits64(b)).0);
}

#[test]
fn minhwd_of_single_lanes() {
    assert_eq!(Bits128(5u128).minhwd(Bits128(128)), Bits128(123));
    assert_eq!(Bits128(128u128).minhwd(Bits128(5)), Bits128(123));
    assert_eq!(Bits128(7u128).minhwd(Bits128(7)), Bits128(0));
}

#[test]
fn minhwd_fills_every_lane() {
    let a = Bits8::from_element(7);
    let b = Bits8::from_element(2);
    assert_eq!(a.minhwd(b), Bits8::from_element(5));
    assert_eq!(b.minhwd(a), Bits8::from_element(5));
    let a = Bits4::from_element(4);
    let b = Bits4::from_element(0);
    assert_eq!(a.minhwd(b), Bits4::from_element(4));
}

#[test]
fn operators_act_on_the_whole_word() {
    assert_eq!(Bits4(0x0102u128) + Bits4(0x0304), Bits4(0x0406));
    assert_eq!(Bits8(0xFF00u128) & 0x0FF0, Bits8(0x0F00));
    assert_eq!(Bits16(0xFF00u128) >> 4, Bits16(0x0FF0));
    assert_eq!(Bits128(0xABu128) + Bits128(0x01), Bits128(0xAC));
    assert_eq!(u128::from(Bits128(42u128)), 42);
}
