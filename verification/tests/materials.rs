use rez::collider::Collision;
use rez::colour::Colour;
use rez::fx::Fx;
use rez::fx::FX_ONE;
use rez::material::Dielectric;
use rez::material::Lambertian;
use rez::material::Material;
use rez::material::Metal;
use rez::material::reflect;
use rez::ray::Ray;
use rez::vec3::Vec3;

fn rng() -> rand::rngs::StdRng {
    <rand::rngs::StdRng as rand::SeedableRng>::seed_from_u64(42)
}

fn collision_at(point: Vec3, normal: Vec3, front: bool) -> Collision {
    Collision { point, normal, t: Fx::whole(1), front, material: Material::Absorbent }
}

#[test]
fn reflection_is_exact() {
    // d = (1, -1, 0) about n = (0, 1, 0): reflection is (1, 1, 0)
    let r = reflect(Vec3::whole(1, -1, 0), Vec3::whole(0, 1, 0));
    assert_eq!((r.x.v, r.y.v, r.z.v), (FX_ONE, FX_ONE, 0));
    // normal incidence reverses the direction
    let b = reflect(Vec3::whole(0, 0, -1), Vec3::whole(0, 0, 1));
    assert_eq!((b.x.v, b.y.v, b.z.v), (0, 0, FX_ONE));
}

#[test]
fn zero_fuzz_metal_reflects_ideally() {
    let albedo = Colour::new(Fx { v: 45875 }, Fx { v: 39321 }, Fx { v: 32768 });
    let metal = Metal::new(albedo, Fx::zero());
    let ray = Ray::new(Vec3::whole(0, 2, 0), Vec3::whole(1, -1, 0));
    let col = collision_at(Vec3::whole(1, 1, 0), Vec3::whole(0, 1, 0), true);
    let (att, scattered) = metal.scatter(ray, &col, &mut rng()).unwrap();
    assert_eq!(att, albedo);
    assert_eq!(
        (scattered.orig.x.v, scattered.orig.y.v, scattered.orig.z.v),
        (FX_ONE, FX_ONE, 0)
    );
    assert_eq!(
        (scattered.dir.x.v, scattered.dir.y.v, scattered.dir.z.v),
        (FX_ONE, FX_ONE, 0)
    );
}

#[test]
fn metal_declines_grazing_absorption() {
    // the reflected direction dips below the surface: no scatter
    let metal = Metal::new(Colour::white(), Fx::zero());
    let ray = Ray::new(Vec3::whole(0, -1, 0), Vec3::whole(0, 1, 0));
    let col = collision_at(Vec3::whole(0, 0, 0), Vec3::whole(0, 1, 0), false);
    assert!(metal.scatter(ray, &col, &mut rng()).is_none());
}

#[test]
fn metal_fuzz_is_clamped() {
    let m = Metal::new(Colour::white(), Fx::whole(7));
    assert_eq!(m.fuzz.v, FX_ONE);
    let m2 = Metal::new(Colour::white(), Fx::whole(-7));
    assert_eq!(m2.fuzz.v, 0);
    let m3 = Metal::new(Colour::white(), Fx { v: 300 });
    assert_eq!(m3.fuzz.v, 300);
}

#[test]
fn matched_index_dielectric_passes_straight_through() {
    let glass = Dielectric::new(Fx::one());
    let ray = Ray::new(Vec3::whole(0, 0, 1), Vec3::whole(0, 0, -1));
    let col = collision_at(Vec3::whole(0, 0, 0), Vec3::whole(0, 0, 1), true);
    let mut r = rng();
    for _ in 0..50 {
        let (att, scattered) = glass.scatter(ray, &col, &mut r).unwrap();
        assert_eq!(att, Colour::white());
        assert_eq!(
            (scattered.dir.x.v, scattered.dir.y.v, scattered.dir.z.v),
            (0, 0, -FX_ONE)
        );
    }
}

#[test]
fn dielectric_always_scatters_white() {
    let glass = Dielectric::new(Fx { v: 98304 });
    let ray = Ray::new(Vec3::whole(0, 1, 1), Vec3::whole(1, -2, -1));
    let col = collision_at(Vec3::whole(0, 0, 0), Vec3::whole(0, 1, 0), true);
    let mut r = rng();
    for _ in 0..50 {
        let (att, scattered) = glass.scatter(ray, &col, &mut r).unwrap();
        assert_eq!(att, Colour::white());
        assert_eq!(
            (scattered.orig.x.v, scattered.orig.y.v, scattered.orig.z.v),
            (0, 0, 0)
        );
    }
}

#[test]
fn lambertian_scatters_from_the_hit_point_with_its_albedo() {
    let albedo = Colour::new(Fx { v: 26214 }, Fx { v: 13107 }, Fx { v: 6553 });
    let mat = Lambertian::new(albedo);
    let ray = Ray::new(Vec3::whole(0, 3, 0), Vec3::whole(0, -1, 0));
    let col = collision_at(Vec3::whole(0, 1, 0), Vec3::whole(0, 1, 0), true);
    let mut r = rng();
    for _ in 0..50 {
        let (att, scattered) = mat.scatter(ray, &col, &mut r).unwrap();
        assert_eq!(att, albedo);
        assert_eq!(scattered.orig.y.v, FX_ONE);
        assert!(!scattered.dir.small());
    }
}

#[test]
fn absorbent_material_never_scatters() {
    let col = collision_at(Vec3::whole(0, 1, 0), Vec3::whole(0, 1, 0), true);
    let ray = Ray::new(Vec3::whole(0, 3, 0), Vec3::whole(0, -1, 0));
    assert!(Material::Absorbent.scatter(ray, &col, &mut rng()).is_none());
}

#[test]
fn schlick_reflectance_matches_the_formula() {
    // cos = 0.5, eta = 1.5: r0 = 0.04, reflectance = 0.04 + 0.96/32
    let r = rez::material::reflectance(Fx { v: 32768 }, Fx { v: 98304 });
    assert_eq!(r.v, 4587);
    // normal incidence at matched index reflects nothing
    let z = rez::material::reflectance(Fx { v: FX_ONE }, Fx { v: FX_ONE });
    assert_eq!(z.v, 0);
}

#[test]
fn matched_index_is_straight_within_tolerance_off_axis() {
    // an oblique incidence: matched index should pass (nearly) straight
    let glass = Dielectric::new(Fx::one());
    let d = Vec3::whole(1, 0, -5).unit();
    let ray = Ray::new(Vec3::whole(0, 0, 1), d);
    let col = collision_at(Vec3::whole(0, 0, 0), Vec3::whole(0, 0, 1), true);
    let mut r = rng();
    for _ in 0..20 {
        let (_, scattered) = glass.scatter(ray, &col, &mut r).unwrap();
        assert!((scattered.dir.x.v - d.x.v).abs() <= 8);
        assert!((scattered.dir.y.v - d.y.v).abs() <= 8);
        assert!((scattered.dir.z.v - d.z.v).abs() <= 8);
    }
}
