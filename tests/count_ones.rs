use swar::{Bits1, Bits4, Bits8};

/// A small deterministic generator (splitmix64) for sample words.
struct Sampler(u64);

impl Sampler {
    fn next_u64(&mut self) -> u64 {
        self.0 = self.0.wrapping_add(0x9E37_79B9_7F4A_7C15);
        let mut z = self.0;
        z = (z ^ (z >> 30)).wrapping_mul(0xBF58_476D_1CE4_E5B9);
        z = (z ^ (z >> 27)).wrapping_mul(0x94D0_49BB_1331_11EB);
        z ^ (z >> 31)
    }

    fn next_u128(&mut self) -> u128 {
        (self.next_u64() as u128) << 64 | self.next_u64() as u128
    }
}

#[test]
fn sum_weight() {
    let mut rng = Sampler(0x0505_0505_0505_0505);
    for _ in 0..100_000 {
        let number = rng.next_u128();
        assert_eq!(
            number.count_ones(),
            Bits1(number)
                .sum_weight2()
                .sum_weight2()
                .sum_weight2()
                .sum_weight2()
                .sum_weight2()
                .sum_weight2()
                .sum_weight2()
                .0 as u32
        );
    }
}

#[test]
fn sum_weight_matches_count_ones_at_every_width() {
    let mut rng = Sampler(7);
    for _ in 0..1000 {
        let n = rng.next_u128();
        let c = n.count_ones() as u128;
        let b2 = Bits1(n).sum_weight2();
        assert_eq!(Bits1(n).sum_weight(), c);
        assert_eq!(b2.sum_weight(), c);
        let b4 = b2.sum_weight2();
        assert_eq!(b4.sum_weight(), c);
        let b8 = b4.sum_weight2();
        assert_eq!(b8.sum_weight(), c);
        let b16 = b8.sum_weight2();
        assert_eq!(b16.sum_weight(), c);
        let b32 = b16.sum_weight2();
        assert_eq!(b32.sum_weight(), c);
        let b64 = b32.sum_weight2();
        assert_eq!(b64.sum_weight(), c);
        let b128 = b64.sum_weight2();
        assert_eq!(b128.sum_weight(), c);
        assert_eq!(u128::from(b128), c);
    }
}

#[test]
fn sum_weight_of_all_ones_and_zero() {
    assert_eq!(Bits1(u128::MAX).sum_weight(), 128);
    assert_eq!(Bits1(0u128).sum_weight(), 0);
    assert_eq!(Bits1(u128::MAX).count_ones(), 128);
    assert_eq!(Bits8(0x0102_0304u128).sum_weight(), 10);
    assert_eq!(Bits4(0xFu128 << 124).sum_weight(), 15);
}
