use dh_exchange::modexp::{modexp, mul_mod, power_mod, NumericError};

/// Square-and-multiply over 128-bit arithmetic that never narrows, as a
/// second opinion on the library's results.
fn reference_pow_mod(base: u64, exponent: u64, modulus: u64) -> u64 {
    let m = modulus as u128;
    let mut acc: u128 = 1 % m;
    let mut i = 64;
    while i > 0 {
        i -= 1;
        acc = acc * acc % m;
        if (exponent >> i) & 1 == 1 {
            acc = acc * (base as u128 % m) % m;
        }
    }
    acc as u64
}

#[test]
fn power_mod_small_values() {
    assert_eq!(power_mod(4, 13, 497), 445);
    assert_eq!(power_mod(2, 10, 1000), 24);
    assert_eq!(power_mod(2, 3, 5), 3);
    assert_eq!(power_mod(7, 1, 13), 7);
    assert_eq!(power_mod(0, 5, 13), 0);
    assert_eq!(power_mod(13, 5, 13), 0);
}

#[test]
fn power_mod_with_the_default_group() {
    assert_eq!(power_mod(124_717, 0, 345_466_091), 1);
    assert_eq!(power_mod(124_717, 1, 345_466_091), 124_717);
    assert_eq!(power_mod(124_717, 2, 345_466_091), 8_355_994);
    assert_eq!(power_mod(124_717, 3, 345_466_091), 208_773_242);
    assert_eq!(power_mod(124_717, 123_456, 345_466_091), 273_064_241);
    assert_eq!(power_mod(124_717, 654_321, 345_466_091), 273_511_302);
}

#[test]
fn power_mod_is_exact_over_the_whole_64_bit_range() {
    let max = u64::MAX;
    assert_eq!(power_mod(max, max, max - 58), 4_959_809_447_704_153_900);
    assert_eq!(
        power_mod(max - 1, max, 18_446_744_073_709_551_557),
        2_012_073_826_774_673_798
    );
    assert_eq!(
        power_mod(0xdead_beef_cafe_babe, 0x0123_4567_89ab_cdef, 0xfedc_ba98_7654_3211),
        2_833_396_779_800_673_497
    );
}

#[test]
fn power_mod_matches_reference_method() {
    let samples: [u64; 9] = [
        0,
        1,
        2,
        3,
        124_717,
        345_466_091,
        0xffff_ffff,
        0x1_0000_0001,
        u64::MAX,
    ];
    for &base in samples.iter() {
        for &exponent in samples.iter() {
            for &modulus in samples.iter() {
                if modulus > 0 {
                    assert_eq!(
                        power_mod(base, exponent, modulus),
                        reference_pow_mod(base, exponent, modulus)
                    );
                }
            }
        }
    }
}

#[test]
fn zero_exponent_gives_one() {
    for &modulus in [2u64, 3, 497, 345_466_091, u64::MAX].iter() {
        for &base in [0u64, 1, 2, 124_717, u64::MAX].iter() {
            assert_eq!(power_mod(base, 0, modulus), 1);
        }
    }
}

#[test]
fn modulus_one_gives_zero() {
    assert_eq!(power_mod(5, 0, 1), 0);
    assert_eq!(power_mod(5, 3, 1), 0);
    assert_eq!(power_mod(0, 0, 1), 0);
}

#[test]
fn result_is_below_the_modulus() {
    for modulus in 1u64..40 {
        for base in 0u64..40 {
            for exponent in 0u64..12 {
                assert!(power_mod(base, exponent, modulus) < modulus);
            }
        }
    }
}

#[test]
fn power_mod_is_repeatable() {
    let first = power_mod(124_717, 987_654_321, 345_466_091);
    let second = power_mod(124_717, 987_654_321, 345_466_091);
    assert_eq!(first, second);
}

#[test]
fn both_sides_derive_the_same_secret() {
    let p = 345_466_091u64;
    let g = 124_717u64;
    assert_eq!(power_mod(power_mod(g, 654_321, p), 123_456, p), 156_974_248);
    assert_eq!(power_mod(power_mod(g, 123_456, p), 654_321, p), 156_974_248);
    for a in 0u64..30 {
        for b in 0u64..30 {
            let public_a = power_mod(g, a, p);
            let public_b = power_mod(g, b, p);
            assert_eq!(power_mod(public_b, a, p), power_mod(public_a, b, p));
        }
    }
}

#[test]
fn both_sides_agree_for_a_64_bit_modulus() {
    let p = 18_446_744_073_709_551_557u64;
    let g = 0xdead_beef_cafe_babeu64;
    let a = 0x0123_4567_89ab_cdefu64;
    let b = 0xfedc_ba98_7654_3210u64;
    let public_a = power_mod(g, a, p);
    let public_b = power_mod(g, b, p);
    assert_eq!(power_mod(public_b, a, p), power_mod(public_a, b, p));
}

#[test]
fn modexp_rejects_a_zero_modulus() {
    assert_eq!(modexp(2, 10, 0), Err(NumericError::InvalidModulus));
    assert_eq!(modexp(0, 0, 0), Err(NumericError::InvalidModulus));
}

#[test]
fn modexp_agrees_with_power_mod() {
    assert_eq!(modexp(4, 13, 497), Ok(445));
    assert_eq!(modexp(124_717, 2, 345_466_091), Ok(8_355_994));
    assert_eq!(modexp(9, 0, 1), Ok(0));
    assert_eq!(modexp(9, 0, 2), Ok(1));
}

#[test]
fn mul_mod_does_not_wrap() {
    let max = u64::MAX;
    assert_eq!(mul_mod(max, max, 18_446_744_073_709_551_557), 3364);
    assert_eq!(mul_mod(max, max - 1, max), 0);
    assert_eq!(mul_mod(6, 7, 5), 2);
    assert_eq!(mul_mod(0, max, 3), 0);
}
