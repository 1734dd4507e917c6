use pathtracer::util::rsqrt_seed;
use pathtracer::util::RSQRT_MAGIC;
use pathtracer::util::RSQRT_SEED_MIN;

fn fast_inverse_root(n: f32) -> f32 {
    let y = f32::from_bits(rsqrt_seed(n.to_bits()));
    y * (1.5 - (n * 0.5 * y * y))
}

#[test]
fn seed_by_the_bits() {
    assert_eq!(rsqrt_seed(0), 0x5f37_59df);
    assert_eq!(rsqrt_seed(1), 0x5f37_59df);
    assert_eq!(rsqrt_seed(2), 0x5f37_59de);
    assert_eq!(rsqrt_seed(0x3f80_0000), 0x3f77_59df);
    assert_eq!(rsqrt_seed(0x4080_0000), 0x3ef7_59df);
    assert_eq!(rsqrt_seed(0x7fff_ffff), 0x1f37_59e0);
}

#[test]
fn seed_stays_within_its_bounds() {
    assert_eq!(RSQRT_MAGIC, 0x5f37_59df);
    assert_eq!(rsqrt_seed(0), RSQRT_MAGIC);
    assert_eq!(rsqrt_seed(0x7fff_ffff), RSQRT_SEED_MIN);
    for value in [0.0f32, 1.0e-20, 0.25, 1.0, 3.0, 1.0e20, f32::MAX, f32::INFINITY] {
        let seed = rsqrt_seed(value.to_bits());
        assert!(RSQRT_SEED_MIN <= seed && seed <= RSQRT_MAGIC);
        let guess = f32::from_bits(seed);
        assert!(guess.is_finite() && guess.is_normal() && guess > 0.0);
    }
}

#[test]
fn seed_with_one_newton_step_is_close_to_the_inverse_root() {
    for value in [0.01f32, 0.25, 1.0, 2.0, 4.0, 100.0, 12345.0] {
        let exact = 1.0 / value.sqrt();
        let fast = fast_inverse_root(value);
        assert!(((fast - exact) / exact).abs() < 0.002);
    }
}
