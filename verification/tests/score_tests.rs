use call_screening::score::{Score, INFINITY_MAGNITUDE, ONE_MAGNITUDE, SIGN_BIT};

fn score(value: f32) -> Score {
    Score::from_bits(value.to_bits())
}

fn samples() -> Vec<u32> {
    let mut bits: Vec<u32> = vec![
        0,
        1,
        SIGN_BIT,
        SIGN_BIT + 1,
        ONE_MAGNITUDE - 1,
        ONE_MAGNITUDE,
        ONE_MAGNITUDE + 1,
        SIGN_BIT + ONE_MAGNITUDE,
        INFINITY_MAGNITUDE - 1,
        INFINITY_MAGNITUDE,
        INFINITY_MAGNITUDE + 1,
        SIGN_BIT + INFINITY_MAGNITUDE,
        SIGN_BIT + INFINITY_MAGNITUDE + 1,
        0x7FFF_FFFF,
        0xFFFF_FFFF,
    ];
    let mut state: u32 = 0x9E37_79B9;
    for _ in 0..20_000 {
        state ^= state << 13;
        state ^= state >> 17;
        state ^= state << 5;
        bits.push(state);
    }
    bits
}

#[test]
fn the_constants_are_the_patterns_of_the_numbers() {
    assert_eq!(ONE_MAGNITUDE, 1.0f32.to_bits());
    assert_eq!(INFINITY_MAGNITUDE, f32::INFINITY.to_bits());
    assert_eq!(SIGN_BIT, (-0.0f32).to_bits());
    assert_eq!(Score::zero().to_bits(), 0.0f32.to_bits());
    assert_eq!(Score::one().to_bits(), 1.0f32.to_bits());
}

#[test]
fn what_is_no_number_is_recognised() {
    for bits in samples() {
        assert_eq!(Score::from_bits(bits).is_not_a_number(), f32::from_bits(bits).is_nan());
    }
    assert!(score(f32::NAN).is_not_a_number());
    assert!(!score(f32::INFINITY).is_not_a_number());
    assert!(!score(f32::NEG_INFINITY).is_not_a_number());
}

#[test]
fn the_unit_interval_is_recognised() {
    for bits in samples() {
        let value = f32::from_bits(bits);
        assert_eq!(Score::from_bits(bits).is_in_unit_interval(), 0.0 <= value && value <= 1.0);
    }
}

#[test]
fn clamping_is_what_it_is_for_numbers() {
    for bits in samples() {
        let value = f32::from_bits(bits);
        let clamped = Score::from_bits(bits).clamp_unit();
        if value.is_nan() {
            assert_eq!(clamped.to_bits(), bits);
        } else {
            assert_eq!(clamped.to_bits(), value.clamp(0.0, 1.0).to_bits());
            assert!(clamped.is_in_unit_interval());
        }
    }
}

#[test]
fn clamping_gives_exact_values() {
    assert_eq!(f32::from_bits(score(1.7).clamp_unit().to_bits()), 1.0);
    assert_eq!(f32::from_bits(score(-2.5).clamp_unit().to_bits()), 0.0);
    assert_eq!(f32::from_bits(score(0.85).clamp_unit().to_bits()), 0.85);
    assert_eq!(f32::from_bits(score(1.0e30).clamp_unit().to_bits()), 1.0);
    assert_eq!(f32::from_bits(score(-1.0e30).clamp_unit().to_bits()), 0.0);
    assert_eq!(score(f32::MIN_POSITIVE).clamp_unit(), score(f32::MIN_POSITIVE));
}
