use rez::fx::Fx;
use rez::fx::FX_MAX;
use rez::fx::FX_ONE;

#[test]
fn whole_and_raw_construction() {
    assert_eq!(Fx::whole(3).v, 3 * FX_ONE);
    assert_eq!(Fx::whole(-2).v, -2 * FX_ONE);
    assert_eq!(Fx::raw(123).v, 123);
    assert_eq!(Fx::zero().v, 0);
    assert_eq!(Fx::one().v, FX_ONE);
}

#[test]
fn addition_and_subtraction_are_exact_in_band() {
    let a = Fx::whole(5);
    let b = Fx::whole(7);
    assert_eq!(a.add(b).v, 12 * FX_ONE);
    assert_eq!(a.sub(b).v, -2 * FX_ONE);
    assert_eq!(b.neg().v, -7 * FX_ONE);
}

#[test]
fn saturation_clamps_to_the_band_edge() {
    let big = Fx { v: FX_MAX };
    assert_eq!(big.add(Fx::one()).v, FX_MAX);
    assert_eq!(big.neg().sub(Fx::one()).v, -FX_MAX);
    assert_eq!(big.mul(big).v, FX_MAX);
}

#[test]
fn multiplication_truncates_toward_zero() {
    let half = Fx { v: 32768 };
    let three = Fx::whole(3);
    assert_eq!(three.mul(half).v, 3 * 32768);
    // (-3/65536) * (1/2) = -1.5 steps, truncated to -1
    assert_eq!(Fx { v: -3 }.mul(half).v, -1);
    assert_eq!(Fx { v: 3 }.mul(half).v, 1);
}

#[test]
fn division_matches_exact_quotients() {
    let six = Fx::whole(6);
    let two = Fx::whole(2);
    assert_eq!(six.div(two).v, 3 * FX_ONE);
    assert_eq!(six.div(two.neg()).v, -3 * FX_ONE);
    assert_eq!(six.div_n(4).v, (6 * FX_ONE) / 4);
}

#[test]
fn sqrt_on_perfect_squares_is_exact() {
    assert_eq!(Fx::whole(4).sqrt().v, 2 * FX_ONE);
    assert_eq!(Fx::whole(9).sqrt().v, 3 * FX_ONE);
    assert_eq!(Fx::one().sqrt().v, FX_ONE);
    assert_eq!(Fx::zero().sqrt().v, 0);
    assert_eq!(Fx::whole(-5).sqrt().v, 0);
}

#[test]
fn sqrt_rounds_down() {
    // sqrt(2) = 92681.9 raw steps
    let r = Fx::whole(2).sqrt().v;
    assert_eq!(r, 92681);
    let exact = f64::sqrt(2.0);
    let approx = r as f64 / FX_ONE as f64;
    assert!((exact - approx).abs() < 2.0e-5);
}

#[test]
fn seeded_generators_reproduce_their_stream() {
    let mut a = rez::rng::rng_from_seed(99);
    let mut b = rez::rng::rng_from_seed(99);
    let mut c = rez::rng::rng_from_seed(100);
    let mut same = true;
    for _ in 0..16 {
        let x = rez::rng::rand_unit01(&mut a);
        let y = rez::rng::rand_unit01(&mut b);
        assert_eq!(x.v, y.v);
        assert!(0 <= x.v && x.v < FX_ONE);
        let z = rez::rng::rand_symmetric(&mut c);
        assert!(-FX_ONE <= z.v && z.v <= FX_ONE);
        if z.v != x.v {
            same = false;
        }
    }
    assert!(!same);
}
