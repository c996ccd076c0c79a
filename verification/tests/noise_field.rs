use lipuma::fixed::{Fx, SCALE};
use lipuma::noise::FractalNoise;

fn fx(raw: i64) -> Fx {
    Fx::new(raw)
}

#[test]
fn noise_is_deterministic_across_calls() {
    let field = FractalNoise::new(0xDEADBEEF, fx(20000), 5);
    let d = fx(123456);
    let a = field.get(d);
    let b = field.get(d);
    assert_eq!(a.raw, b.raw);
}

#[test]
fn noise_is_deterministic_across_values() {
    let a = FractalNoise::new(42, fx(30000), 7);
    let b = FractalNoise::new(42, fx(30000), 7);
    for step in -50i64..50i64 {
        let d = fx(step * 7919);
        assert_eq!(a.get(d).raw, b.get(d).raw);
    }
}

#[test]
fn zero_octaves_give_zero_everywhere() {
    let field = FractalNoise::new(987654321, fx(30000), 0);
    for step in -100i64..100i64 {
        let d = fx(step * 12345);
        assert_eq!(field.get(d).raw, 0);
    }
}

#[test]
fn one_octave_gives_zero_everywhere() {
    let field = FractalNoise::new(13, fx(60000), 1);
    for step in -100i64..100i64 {
        let d = fx(step * 54321);
        assert_eq!(field.get(d).raw, 0);
    }
}

#[test]
fn seed_zero_collapses_to_constant_band_sum() {
    // With seed 0 every lattice hash is 0, every lattice value is -1, and
    // each band contributes exactly minus its lacunarity power: with
    // lacunarity 1/2 and three octaves the value is -(0.5 + 0.25).
    let field = FractalNoise::new(0, fx(SCALE / 2), 3);
    for step in -20i64..20i64 {
        let d = fx(step * 100000);
        assert_eq!(field.get(d).raw, -49152);
    }
}

#[test]
fn negative_distances_are_defined() {
    let field = FractalNoise::new(777, fx(22937), 3);
    let v = field.get(fx(-5 * SCALE));
    assert!(v.raw.abs() <= 105 * SCALE);
}

#[test]
fn field_values_stay_within_the_lacunarity_power_sum() {
    // With lacunarity 1/2 and three octaves the executed bands are
    // weighted 1/2 and 1/4: the value is bounded by 0.75 units plus six
    // raw steps of flooring slack per band.
    let field = FractalNoise::new(0x1234_5678, fx(SCALE / 2), 3);
    let bound = SCALE / 2 + SCALE / 4 + 12;
    for step in -200i64..200i64 {
        let d = fx(step * 33333);
        let v = field.get(d);
        assert!(v.raw.abs() <= bound);
    }
}
