use sector_engine::scalar::{meters_to_units, units_to_meters, INFINITY, ONE, SIGN_BIT, UNIT_TO_METERS};

fn quarter_on_this_machine(bits: u32) -> u32 {
    (f32::from_bits(bits) / 4.0).to_bits()
}

fn fourfold_on_this_machine(bits: u32) -> u32 {
    (f32::from_bits(bits) * 4.0).to_bits()
}

fn next(seed: &mut u64) -> u32 {
    *seed = seed.wrapping_mul(6364136223846793005).wrapping_add(1442695040888963407);
    (*seed >> 32) as u32
}

#[test]
fn four_map_units_are_one_meter() {
    assert_eq!(UNIT_TO_METERS, 4);
    assert_eq!(ONE, 1.0f32.to_bits());
    assert_eq!(units_to_meters(4.0f32.to_bits()), 1.0f32.to_bits());
    assert_eq!(meters_to_units(1.0f32.to_bits()), 4.0f32.to_bits());
}

#[test]
fn spawn_coordinates_scale_exactly() {
    assert_eq!(units_to_meters(1077.0f32.to_bits()), 269.25f32.to_bits());
    assert_eq!(units_to_meters(20.0f32.to_bits()), 5.0f32.to_bits());
    assert_eq!(units_to_meters((-3600.0f32).to_bits()), (-900.0f32).to_bits());
    assert_eq!(meters_to_units(269.25f32.to_bits()), 1077.0f32.to_bits());
    assert_eq!(meters_to_units((-900.0f32).to_bits()), (-3600.0f32).to_bits());
}

#[test]
fn zero_keeps_its_sign() {
    assert_eq!(units_to_meters(0), 0);
    assert_eq!(units_to_meters(SIGN_BIT), SIGN_BIT);
    assert_eq!(meters_to_units(0), 0);
    assert_eq!(meters_to_units(SIGN_BIT), SIGN_BIT);
}

#[test]
fn infinities_stay_and_nan_stays_nan() {
    assert_eq!(units_to_meters(INFINITY), INFINITY);
    assert_eq!(units_to_meters(INFINITY | SIGN_BIT), INFINITY | SIGN_BIT);
    assert_eq!(meters_to_units(INFINITY), INFINITY);
    assert_eq!(meters_to_units(INFINITY | SIGN_BIT), INFINITY | SIGN_BIT);
    assert!(f32::from_bits(units_to_meters(f32::NAN.to_bits())).is_nan());
    assert!(f32::from_bits(meters_to_units(f32::NAN.to_bits())).is_nan());
    assert!(f32::from_bits(units_to_meters(0xffc0_0001)).is_nan());
}

#[test]
fn product_beyond_range_is_infinite() {
    assert_eq!(meters_to_units(f32::MAX.to_bits()), INFINITY);
    assert_eq!(meters_to_units((-f32::MAX).to_bits()), INFINITY | SIGN_BIT);
    assert_eq!(meters_to_units(0x7e80_0000), INFINITY);
    assert_eq!(meters_to_units(0x7e7f_ffff), 0x7f7f_ffff);
}

#[test]
fn tiny_quotients_round_to_even() {
    // In steps of the smallest subnormal: 1/4 -> 0, 2/4 -> 0, 3/4 -> 1,
    // 5/4 -> 1, 6/4 -> 2, 7/4 -> 2, 10/4 -> 2, 14/4 -> 4.
    assert_eq!(units_to_meters(1), 0);
    assert_eq!(units_to_meters(2), 0);
    assert_eq!(units_to_meters(3), 1);
    assert_eq!(units_to_meters(5), 1);
    assert_eq!(units_to_meters(6), 2);
    assert_eq!(units_to_meters(7), 2);
    assert_eq!(units_to_meters(10), 2);
    assert_eq!(units_to_meters(14), 4);
    assert_eq!(units_to_meters(SIGN_BIT | 3), SIGN_BIT | 1);
}

#[test]
fn quotient_agrees_with_the_machine_at_the_edges() {
    let edges: [u32; 16] = [
        0x0000_0000,
        0x0000_0001,
        0x007f_ffff,
        0x0080_0000,
        0x0080_0001,
        0x00ff_ffff,
        0x0100_0000,
        0x0100_0001,
        0x017f_fffe,
        0x017f_ffff,
        0x0180_0000,
        0x0180_0001,
        0x3f80_0000,
        0x7f7f_ffff,
        0x7f80_0000,
        0x7e80_0000,
    ];
    for m in edges {
        for bits in [m, m | SIGN_BIT] {
            assert_eq!(units_to_meters(bits), quarter_on_this_machine(bits), "{:#x}", bits);
            assert_eq!(meters_to_units(bits), fourfold_on_this_machine(bits), "{:#x}", bits);
        }
    }
}

#[test]
fn quotient_and_product_agree_with_the_machine_on_many_values() {
    let mut seed: u64 = 0x5eed;
    for _ in 0..200_000 {
        let bits = next(&mut seed);
        if f32::from_bits(bits).is_nan() {
            continue;
        }
        assert_eq!(units_to_meters(bits), quarter_on_this_machine(bits), "{:#x}", bits);
        assert_eq!(meters_to_units(bits), fourfold_on_this_machine(bits), "{:#x}", bits);
    }
    // The smallest magnitudes, where the quotient is rounded.
    for _ in 0..200_000 {
        let bits = next(&mut seed) & 0x81ff_ffff;
        assert_eq!(units_to_meters(bits), quarter_on_this_machine(bits), "{:#x}", bits);
        assert_eq!(meters_to_units(bits), fourfold_on_this_machine(bits), "{:#x}", bits);
    }
}

#[test]
fn conversion_there_and_back_loses_nothing() {
    let mut seed: u64 = 7;
    for _ in 0..100_000 {
        let bits = next(&mut seed);
        let magnitude = bits & 0x7fff_ffff;
        if magnitude >= 0x0180_0000 && magnitude < INFINITY {
            assert_eq!(meters_to_units(units_to_meters(bits)), bits);
        }
        if magnitude < INFINITY - 0x0100_0000 {
            assert_eq!(units_to_meters(meters_to_units(bits)), bits);
        }
    }
}
