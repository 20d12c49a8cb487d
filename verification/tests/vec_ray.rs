use rez::fx::Fx;
use rez::fx::FX_ONE;
use rez::ray::Ray;
use rez::vec3::Vec3;

fn whole(x: i64, y: i64, z: i64) -> Vec3 {
    Vec3::whole(x, y, z)
}

#[test]
fn componentwise_arithmetic() {
    let a = whole(1, 2, 3);
    let b = whole(4, -5, 6);
    let s = a.add(b);
    assert_eq!((s.x.v, s.y.v, s.z.v), (5 * FX_ONE, -3 * FX_ONE, 9 * FX_ONE));
    let d = a.sub(b);
    assert_eq!((d.x.v, d.y.v, d.z.v), (-3 * FX_ONE, 7 * FX_ONE, -3 * FX_ONE));
    let n = a.neg();
    assert_eq!((n.x.v, n.y.v, n.z.v), (-FX_ONE, -2 * FX_ONE, -3 * FX_ONE));
    let m = a.mul(Fx::whole(2));
    assert_eq!((m.x.v, m.y.v, m.z.v), (2 * FX_ONE, 4 * FX_ONE, 6 * FX_ONE));
    let q = a.div(Fx::whole(2));
    assert_eq!((q.x.v, q.y.v, q.z.v), (FX_ONE / 2, FX_ONE, 3 * FX_ONE / 2));
}

#[test]
fn dot_cross_and_length() {
    let a = whole(1, 2, 3);
    let b = whole(4, -5, 6);
    assert_eq!(a.dot(b).v, (4 - 10 + 18) * FX_ONE);
    let c = a.cross(b);
    // (2*6 - 3*(-5), 3*4 - 1*6, 1*(-5) - 2*4) = (27, 6, -13)
    assert_eq!((c.x.v, c.y.v, c.z.v), (27 * FX_ONE, 6 * FX_ONE, -13 * FX_ONE));
    let p = whole(3, 4, 0);
    assert_eq!(p.squared().v, 25 * FX_ONE);
    assert_eq!(p.length().v, 5 * FX_ONE);
}

#[test]
fn unit_vector_has_nearly_unit_length() {
    // 3-4-5 triangle: exact components are 0.6 and 0.8
    let u = whole(3, 4, 0).unit();
    assert_eq!(u.x.v, 3 * FX_ONE / 5);
    assert_eq!(u.y.v, 4 * FX_ONE / 5);
    assert_eq!(u.z.v, 0);
    assert!((u.length().v - FX_ONE).abs() <= 16);

    let w = whole(1, -7, 2).unit();
    assert!((w.squared().v - FX_ONE).abs() <= 16);
    assert!((w.length().v - FX_ONE).abs() <= 16);
}

#[test]
fn small_detects_only_degenerate_vectors() {
    assert!(Vec3::zero().small());
    assert!(!whole(0, 0, 1).small());
    // a vector of a few raw steps squares to zero steps and is small
    assert!(Vec3::new(Fx { v: 3 }, Fx { v: 0 }, Fx { v: 0 }).small());
}

#[test]
fn hemisphere_flips_against_the_axis() {
    let axis = whole(0, 0, 1);
    let inward = whole(1, 1, -2);
    let flipped = inward.ensure_in_hemisphere(axis);
    assert_eq!((flipped.x.v, flipped.y.v, flipped.z.v), (-FX_ONE, -FX_ONE, 2 * FX_ONE));
    let outward = whole(1, 1, 2);
    let kept = outward.ensure_in_hemisphere(axis);
    assert_eq!((kept.x.v, kept.y.v, kept.z.v), (FX_ONE, FX_ONE, 2 * FX_ONE));
    assert!(flipped.dot(axis).v >= 0);
    assert!(kept.dot(axis).v >= 0);
}

#[test]
fn ray_evaluation() {
    let r = Ray::new(whole(1, 0, 0), whole(0, 2, -1));
    let p = r.at(Fx::whole(3));
    assert_eq!((p.x.v, p.y.v, p.z.v), (FX_ONE, 6 * FX_ONE, -3 * FX_ONE));
    let q = r.at(Fx::whole(-1));
    assert_eq!((q.x.v, q.y.v, q.z.v), (FX_ONE, -2 * FX_ONE, FX_ONE));
}

#[test]
fn random_samplers_stay_in_their_domains() {
    let mut rng = <rand::rngs::StdRng as rand::SeedableRng>::seed_from_u64(7);
    for _ in 0..200 {
        let b = Vec3::random_in_unit_sphere(&mut rng);
        let sq = b.squared().v;
        assert!(0 < sq && sq <= FX_ONE);
        let u = Vec3::random_unit(&mut rng);
        assert!((u.squared().v - FX_ONE).abs() <= 64);
        let d = Vec3::random_in_unit_disk(&mut rng);
        assert_eq!(d.z.v, 0);
        assert!(d.squared().v <= FX_ONE);
    }
}
