//! Exact-value tests for the fixed-point scalar layer, vectors, intervals,
//! random utilities, gamma correction and pixel quantization.

use path_tracer::color::write_color;
use path_tracer::fx::{fx_add, fx_div, fx_mul, fx_sqrt, fx_sub, FX_MAX, SCALE};
use path_tracer::interval::Interval;
use path_tracer::utils::{degrees_to_radians, random_double, random_double_range, seed_random, PI_FX};
use path_tracer::vec3::Vec3;

const S: i128 = 65536;

#[test]
fn fx_basic_arithmetic() {
    assert_eq!(SCALE, S);
    assert_eq!(fx_add(S, S), 2 * S);
    assert_eq!(fx_sub(S, 3 * S), -2 * S);
    // 1.5 * 2.0 == 3.0
    assert_eq!(fx_mul(98304, 131072), 196608);
    // 3.0 / 2.0 == 1.5
    assert_eq!(fx_div(196608, 131072), 98304);
    // division truncates toward zero on negatives
    assert_eq!(fx_div(-S, 3 * S), -21845);
}

#[test]
fn fx_saturates_instead_of_overflowing() {
    assert_eq!(fx_add(FX_MAX, FX_MAX), FX_MAX);
    assert_eq!(fx_sub(-FX_MAX, FX_MAX), -FX_MAX);
    assert_eq!(fx_mul(FX_MAX, FX_MAX), FX_MAX);
}

#[test]
fn fx_division_by_zero_saturates_with_sign() {
    assert_eq!(fx_div(S, 0), FX_MAX);
    assert_eq!(fx_div(-S, 0), -FX_MAX);
    assert_eq!(fx_div(0, 0), FX_MAX);
}

#[test]
fn fx_sqrt_exact_squares() {
    assert_eq!(fx_sqrt(0), 0);
    assert_eq!(fx_sqrt(S), S); // sqrt(1) == 1
    assert_eq!(fx_sqrt(4 * S), 2 * S); // sqrt(4) == 2
    assert_eq!(fx_sqrt(16384), 32768); // sqrt(0.25) == 0.5
    assert_eq!(fx_sqrt(-S), 0); // negative input maps to zero
}

#[test]
fn vec3_componentwise_ops() {
    let a = Vec3::new(S, 2 * S, 3 * S);
    let b = Vec3::new(4 * S, 5 * S, 6 * S);
    assert_eq!(a.plus(b), Vec3::new(5 * S, 7 * S, 9 * S));
    assert_eq!(b.minus(a), Vec3::new(3 * S, 3 * S, 3 * S));
    assert_eq!(a.negate(), Vec3::new(-S, -2 * S, -3 * S));
    assert_eq!(a.times(2 * S), Vec3::new(2 * S, 4 * S, 6 * S));
    assert_eq!(a.elementwise_mul(b), Vec3::new(4 * S, 10 * S, 18 * S));
    // dot((1,2,3),(4,5,6)) == 32
    assert_eq!(a.dot(b), 32 * S);
    // cross((1,2,3),(4,5,6)) == (-3, 6, -3)
    assert_eq!(a.cross(b), Vec3::new(-3 * S, 6 * S, -3 * S));
    assert_eq!(a.length_squared(), 14 * S);
}

#[test]
fn vec3_length_and_normalization() {
    let v = Vec3::new(3 * S, 4 * S, 0);
    assert_eq!(v.length_squared(), 25 * S);
    assert_eq!(v.length(), 5 * S);
    let n = v.normalized();
    // components follow the reciprocal-multiply rule exactly
    let inv = fx_div(S, 5 * S);
    assert_eq!(n, Vec3::new(fx_mul(3 * S, inv), fx_mul(4 * S, inv), 0));
    // and the result is unit length within fixed-point tolerance
    let ls = n.length_squared();
    assert!(ls > S - 400 && ls <= S + 400, "unit length off: {}", ls);
}

#[test]
fn vec3_near_zero_and_reflect() {
    assert!(Vec3::new(0, 0, 0).near_zero());
    assert!(!Vec3::new(1, 0, 0).near_zero());
    // reflect((1,-1,0), (0,1,0)) == (1,1,0)
    let v = Vec3::new(S, -S, 0);
    let n = Vec3::new(0, S, 0);
    assert_eq!(Vec3::reflect(&v, &n), Vec3::new(S, S, 0));
}

#[test]
fn interval_surrounds_is_strict() {
    let iv = Interval::new(0, S);
    assert!(!iv.surrounds(0));
    assert!(!iv.surrounds(S));
    assert!(iv.surrounds(1));
    assert!(iv.surrounds(S - 1));
    let empty = Interval::default();
    assert!(!empty.surrounds(0));
    assert!(!empty.surrounds(FX_MAX - 1));
}

#[test]
fn interval_clamp() {
    let iv = Interval::new(0, 65470);
    assert_eq!(iv.clamp(-5), 0);
    assert_eq!(iv.clamp(70000), 65470);
    assert_eq!(iv.clamp(1234), 1234);
}

#[test]
fn random_double_stays_in_unit_range() {
    seed_random(7);
    for _ in 0..1000 {
        let d = random_double();
        assert!(0 <= d && d < S);
    }
}

#[test]
fn random_double_range_and_random_vec_stay_in_bounds() {
    seed_random(13);
    for _ in 0..500 {
        let d = random_double_range(-2 * S, 3 * S);
        assert!(-2 * S <= d && d < 3 * S);
    }
    for _ in 0..100 {
        let v = Vec3::new(0, 0, 0).random_vec();
        for comp in [v.x, v.y, v.z] {
            assert!(0 <= comp && comp < S);
        }
    }
}

#[test]
fn degrees_to_radians_follows_pi_scaling() {
    // 180 degrees maps to pi, up to the two fixed-point truncations
    let expected = ((11796480i128 * PI_FX) / 65536) * 65536 / 11796480;
    assert_eq!(degrees_to_radians(180 * S), expected);
    assert!(expected >= PI_FX - 2 && expected <= PI_FX);
    assert_eq!(degrees_to_radians(0), 0);
}

#[test]
fn gamma_fixed_points() {
    assert_eq!(Vec3::linear_to_gamma(0), 0);
    assert_eq!(Vec3::linear_to_gamma(S), S);
    // sqrt(0.25) == 0.5
    assert_eq!(Vec3::linear_to_gamma(16384), 32768);
    // negative light is flushed to zero
    assert_eq!(Vec3::linear_to_gamma(-S), 0);
}

#[test]
fn quantization_clamps_to_byte_range() {
    // a channel of 0.9995: gamma lifts it above the 0.999 ceiling, which
    // clamps and quantizes to 255, never 256
    let bright = Vec3::new(65503, 65503, 65503);
    assert_eq!(write_color(&bright), "255 255 255\n");
    let black = Vec3::new(0, 0, 0);
    assert_eq!(write_color(&black), "0 0 0\n");
    let negative = Vec3::new(-S, -12345, -1);
    assert_eq!(write_color(&negative), "0 0 0\n");
    // 0.25 gammas to 0.5, and 256 * 0.5 == 128
    let mid = Vec3::new(16384, 16384, 16384);
    assert_eq!(write_color(&mid), "128 128 128\n");
}

#[test]
fn quantization_never_leaves_byte_range() {
    seed_random(99);
    for _ in 0..200 {
        let c = Vec3::new(
            random_double() * 4 - 2 * S,
            random_double() * 4 - 2 * S,
            random_double() * 4 - 2 * S,
        );
        let line = write_color(&c);
        for tok in line.trim_end().split(' ') {
            let v: i64 = tok.parse().unwrap();
            assert!((0..=255).contains(&v));
        }
    }
}
