use whispertype::audio::binary::{
    divide, fraction, multiply, round_quotient, round_whole, whole, Dyadic, MANTISSA_END,
    MANTISSA_MIN,
};

fn value(x: Dyadic) -> f64 {
    x.mantissa as f64 * 2.0f64.powi(x.exponent)
}

fn next(seed: &mut u64) -> u64 {
    *seed = seed.wrapping_mul(6_364_136_223_846_793_005).wrapping_add(1_442_695_040_888_963_407);
    *seed >> 11
}

#[test]
fn mantissa_bounds_are_powers_of_two() {
    assert_eq!(MANTISSA_MIN, 1u128 << 52);
    assert_eq!(MANTISSA_END, 1u128 << 53);
}

#[test]
fn zero_stays_zero() {
    assert_eq!(round_quotient(0, 7), Dyadic { mantissa: 0, exponent: 0 });
    assert_eq!(round_whole(0), Dyadic { mantissa: 0, exponent: 0 });
    assert_eq!(whole(round_whole(0)), Some(0));
    assert_eq!(fraction(round_whole(0)), (0, 0));
}

#[test]
fn whole_numbers_are_normalised() {
    assert_eq!(round_whole(1), Dyadic { mantissa: 1 << 52, exponent: -52 });
    assert_eq!(round_whole(3), Dyadic { mantissa: 3 << 51, exponent: -51 });
    assert_eq!(round_whole(4800), Dyadic { mantissa: 4800 << 40, exponent: -40 });
    assert_eq!(whole(round_whole(4800)), Some(4800));
    assert_eq!(fraction(round_whole(4800)), (0, 40));
}

#[test]
fn ties_go_to_the_even_mantissa() {
    // 2^53 + 1 lies halfway between two doubles: the even mantissa wins
    let below = round_quotient((1u128 << 53) + 1, 1);
    assert_eq!(below, Dyadic { mantissa: 1 << 52, exponent: 1 });
    // 2^53 + 3 lies halfway too, and here the even mantissa is the upper one
    let above = round_quotient((1u128 << 53) + 3, 1);
    assert_eq!(above, Dyadic { mantissa: (1 << 52) + 2, exponent: 1 });
    // rounding up from the largest mantissa carries into the exponent
    let carried = round_quotient((1u128 << 54) - 1, 1);
    assert_eq!(carried, Dyadic { mantissa: 1 << 52, exponent: 2 });
    assert_eq!(value(below), ((1u64 << 53) + 1) as f64);
    assert_eq!(value(above), ((1u64 << 53) + 3) as f64);
}

#[test]
fn rounding_agrees_with_the_machines_doubles() {
    let mut seed = 0x1234_5678_9abc_def0u64;
    for _ in 0..20_000 {
        let num = next(&mut seed) % (1 << 32);
        let den = 1 + next(&mut seed) % ((1 << 32) - 1);
        let ours = round_quotient(num as u128, den as u128);
        assert_eq!(value(ours), num as f64 / den as f64, "{} / {}", num, den);
        let big = next(&mut seed) as usize;
        assert_eq!(value(round_whole(big)), big as f64);
    }
}

#[test]
fn division_and_multiplication_agree_with_the_machines_doubles() {
    let mut seed = 0x0fed_cba9_8765_4321u64;
    for _ in 0..20_000 {
        let a = round_quotient((next(&mut seed) % (1 << 40)) as u128, 1 + (next(&mut seed) % 1000) as u128);
        let b = round_quotient(1 + (next(&mut seed) % (1 << 32)) as u128, 1 + (next(&mut seed) % (1 << 32)) as u128);
        assert_eq!(value(divide(a, b)), value(a) / value(b));
        assert_eq!(value(multiply(a, b)), value(a) * value(b));
    }
}

#[test]
fn whole_part_and_fraction_split_a_value() {
    let mut seed = 0x5555_aaaa_1234_4321u64;
    for _ in 0..20_000 {
        let x = round_quotient((next(&mut seed) % (1 << 44)) as u128, 1 + (next(&mut seed) % (1 << 20)) as u128);
        let v = value(x);
        assert_eq!(whole(x), Some(v as usize));
        let (numerator, shift) = fraction(x);
        assert_eq!(numerator as f64 * 2.0f64.powi(-(shift as i32)), v - v.floor());
    }
    // a value below one has no whole part, however small it is
    let tiny = round_quotient(1, 4_000_000_000);
    assert_eq!(whole(tiny), Some(0));
    let (numerator, shift) = fraction(tiny);
    assert_eq!(numerator as f64 * 2.0f64.powi(-(shift as i32)), 1.0 / 4_000_000_000.0);
    // and a value that is too large to count is told apart
    let huge = Dyadic { mantissa: 1 << 52, exponent: 12 };
    assert_eq!(whole(huge), None);
    assert_eq!(whole(Dyadic { mantissa: 1 << 52, exponent: 11 }), Some(1usize << 63));
}
