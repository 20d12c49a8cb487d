use rez::colour::Colour;
use rez::collider::Scene;
use rez::collider::Sphere;
use rez::fx::Fx;
use rez::fx::FX_MAX;
use rez::fx::FX_ONE;
use rez::material::Lambertian;
use rez::material::Material;
use rez::ray::Ray;
use rez::vec3::Vec3;

fn grey() -> Material {
    Material::Lambertian(Lambertian::new(Colour::new(
        Fx { v: 32768 },
        Fx { v: 32768 },
        Fx { v: 32768 },
    )))
}

fn full_range() -> (Fx, Fx) {
    (Fx { v: -FX_MAX }, Fx { v: FX_MAX })
}

#[test]
fn ray_through_centre_hits_with_antiparallel_normal() {
    let s = Sphere::new(Vec3::whole(0, 0, -3), Fx::whole(1), grey());
    let r = Ray::new(Vec3::whole(0, 0, 0), Vec3::whole(0, 0, -1));
    let c = s.collide(r, full_range()).unwrap();
    assert_eq!(c.t.v, 2 * FX_ONE);
    assert_eq!((c.point.x.v, c.point.y.v, c.point.z.v), (0, 0, -2 * FX_ONE));
    // the normal exactly opposes the incident direction at the near hit
    assert_eq!((c.normal.x.v, c.normal.y.v, c.normal.z.v), (0, 0, FX_ONE));
    assert!(c.front);
    assert!(r.dir.dot(c.normal).v <= 0);
}

#[test]
fn radius_negation_keeps_the_hit_and_flips_the_face() {
    let outer = Sphere::new(Vec3::whole(0, 0, -3), Fx::whole(1), grey());
    let inner = Sphere::new(Vec3::whole(0, 0, -3), Fx::whole(-1), grey());
    let r = Ray::new(Vec3::whole(0, 0, 0), Vec3::whole(0, 0, -1));
    let c1 = outer.collide(r, full_range()).unwrap();
    let c2 = inner.collide(r, full_range()).unwrap();
    assert_eq!(c1.t.v, c2.t.v);
    assert_eq!(
        (c1.point.x.v, c1.point.y.v, c1.point.z.v),
        (c2.point.x.v, c2.point.y.v, c2.point.z.v)
    );
    // the stored, against-ray normals agree; the face flags are opposite
    assert_eq!(
        (c1.normal.x.v, c1.normal.y.v, c1.normal.z.v),
        (c2.normal.x.v, c2.normal.y.v, c2.normal.z.v)
    );
    assert!(c1.front);
    assert!(!c2.front);
}

#[test]
fn a_ray_that_misses_returns_none() {
    let s = Sphere::new(Vec3::whole(0, 0, -3), Fx::whole(1), grey());
    let r = Ray::new(Vec3::whole(0, 0, 0), Vec3::whole(0, 1, 0));
    assert!(s.collide(r, full_range()).is_none());
}

#[test]
fn hits_behind_the_range_are_culled() {
    let s = Sphere::new(Vec3::whole(0, 0, -3), Fx::whole(1), grey());
    let r = Ray::new(Vec3::whole(0, 0, 0), Vec3::whole(0, 0, -1));
    // both roots (t = 2 and t = 4) lie below the lower bound
    assert!(s.collide(r, (Fx::whole(5), Fx { v: FX_MAX })).is_none());
    // the range excludes the near root but includes the far one
    let c = s.collide(r, (Fx::whole(3), Fx { v: FX_MAX })).unwrap();
    assert_eq!(c.t.v, 4 * FX_ONE);
    assert!(!c.front);
}

#[test]
fn from_inside_the_far_root_is_taken_and_the_face_is_back() {
    let s = Sphere::new(Vec3::whole(0, 0, 0), Fx::whole(2), grey());
    let r = Ray::new(Vec3::whole(0, 0, 0), Vec3::whole(0, 0, -1));
    let c = s.collide(r, (Fx { v: 66 }, Fx { v: FX_MAX })).unwrap();
    assert_eq!(c.t.v, 2 * FX_ONE);
    assert!(!c.front);
    // the normal still opposes the ray: it points back toward +z
    assert_eq!((c.normal.x.v, c.normal.y.v, c.normal.z.v), (0, 0, FX_ONE));
}

#[test]
fn scene_returns_the_nearest_hit() {
    let mut scene = Scene::new();
    scene.push(Sphere::new(Vec3::whole(0, 0, -9), Fx::whole(1), grey()));
    scene.push(Sphere::new(Vec3::whole(0, 0, -3), Fx::whole(1), grey()));
    scene.push(Sphere::new(Vec3::whole(0, 0, -6), Fx::whole(1), grey()));
    let r = Ray::new(Vec3::whole(0, 0, 0), Vec3::whole(0, 0, -1));
    let c = scene.collide(r, full_range()).unwrap();
    assert_eq!(c.t.v, 2 * FX_ONE);
}

#[test]
fn scene_tie_breaks_by_insertion_order() {
    let m1 = Material::Lambertian(Lambertian::new(Colour::new(
        Fx { v: 100 },
        Fx { v: 0 },
        Fx { v: 0 },
    )));
    let m2 = Material::Lambertian(Lambertian::new(Colour::new(
        Fx { v: 0 },
        Fx { v: 200 },
        Fx { v: 0 },
    )));
    let mut scene = Scene::new();
    scene.push(Sphere::new(Vec3::whole(0, 0, -3), Fx::whole(1), m1));
    scene.push(Sphere::new(Vec3::whole(0, 0, -3), Fx::whole(1), m2));
    let r = Ray::new(Vec3::whole(0, 0, 0), Vec3::whole(0, 0, -1));
    let c = scene.collide(r, full_range()).unwrap();
    assert_eq!(c.material, m1);
}

#[test]
fn empty_scene_never_hits() {
    let scene = Scene::new();
    let r = Ray::new(Vec3::whole(0, 0, 0), Vec3::whole(0, 0, -1));
    assert!(scene.collide(r, full_range()).is_none());
}

#[test]
fn degenerate_ray_reports_no_hit() {
    let s = Sphere::new(Vec3::whole(0, 0, -3), Fx::whole(1), grey());
    let r = Ray::new(Vec3::whole(0, 0, 0), Vec3::zero());
    assert!(s.collide(r, full_range()).is_none());
}
