use rez::camera::Camera;
use rez::collider::Scene;
use rez::collider::Sphere;
use rez::colour::Colour;
use rez::fx::Fx;
use rez::fx::FX_ONE;
use rez::material::Lambertian;
use rez::material::Material;
use rez::ray::Ray;
use rez::raytracer::Raytracer;
use rez::raytracer::ray_colour;
use rez::vec3::Vec3;

fn rng() -> rand::rngs::StdRng {
    <rand::rngs::StdRng as rand::SeedableRng>::seed_from_u64(3)
}

fn grey() -> Material {
    Material::Lambertian(Lambertian::new(Colour::new(
        Fx { v: 32768 },
        Fx { v: 32768 },
        Fx { v: 32768 },
    )))
}

fn fixture_scene(material: Material) -> Scene {
    let mut scene = Scene::new();
    scene.push(Sphere::new(Vec3::whole(0, 0, -1), Fx { v: 32768 }, material));
    scene.push(Sphere::new(
        Vec3::new(Fx::zero(), Fx { v: -6586368 }, Fx::whole(-1)),
        Fx::whole(100),
        material,
    ));
    scene
}

fn fixture_camera() -> Camera {
    Camera::builder()
        .origin(Vec3::whole(0, 0, 0))
        .target(Vec3::whole(0, 0, -1))
        .vup(Vec3::whole(0, 1, 0))
        .v_fov(Fx { v: 102943 })
        .aspect_ratio(Fx { v: 120259 })
        .aperture(Fx::zero())
        .focus_dist(Fx::whole(1))
        .build()
        .unwrap()
}

#[test]
fn vertical_miss_returns_the_exact_sky_top() {
    let scene = fixture_scene(grey());
    let r = Ray::new(Vec3::whole(0, 0, 0), Vec3::whole(0, 1, 0));
    let c = ray_colour(r, &scene, 4, &mut rng());
    // straight up: t = 1, the pure horizon blue of the closed formula
    assert_eq!((c.r.v, c.g.v, c.b.v), (32768, 45875, FX_ONE));
}

#[test]
fn horizontal_miss_returns_the_exact_sky_blend() {
    let scene = fixture_scene(grey());
    let r = Ray::new(Vec3::whole(5, 0, 0), Vec3::whole(1, 0, 0));
    let c = ray_colour(r, &scene, 4, &mut rng());
    // level flight: t = 1/2, the even blend of white and horizon blue
    assert_eq!((c.r.v, c.g.v, c.b.v), (49152, 55705, FX_ONE));
}

#[test]
fn sky_gradient_has_no_stochastic_variance() {
    let scene = fixture_scene(grey());
    let r = Ray::new(Vec3::whole(0, 0, 0), Vec3::whole(3, 2, 1));
    let mut a = rng();
    let mut b = <rand::rngs::StdRng as rand::SeedableRng>::seed_from_u64(1234567);
    assert_eq!(ray_colour(r, &scene, 4, &mut a), ray_colour(r, &scene, 4, &mut b));
}

#[test]
fn exhausted_depth_is_black() {
    let scene = fixture_scene(grey());
    let r = Ray::new(Vec3::whole(0, 0, 0), Vec3::whole(0, 0, -1));
    let c = ray_colour(r, &scene, 0, &mut rng());
    assert_eq!((c.r.v, c.g.v, c.b.v), (0, 0, 0));
}

#[test]
fn absorptive_scene_renders_foreground_black() {
    let scene = fixture_scene(Material::Absorbent);
    // a ray into the centre sphere terminates at black, at any depth
    let r = Ray::new(Vec3::whole(0, 0, 0), Vec3::whole(0, 0, -1));
    for depth in 1..6u32 {
        let c = ray_colour(r, &scene, depth, &mut rng());
        assert_eq!((c.r.v, c.g.v, c.b.v), (0, 0, 0));
    }
    // a ray into the ground sphere as well
    let down = Ray::new(Vec3::whole(0, 0, 0), Vec3::whole(0, -1, -1));
    let c = ray_colour(down, &scene, 5, &mut rng());
    assert_eq!((c.r.v, c.g.v, c.b.v), (0, 0, 0));
}

#[test]
fn fixture_render_is_reproducible_bit_for_bit() {
    let tracer = Raytracer::new(fixture_scene(grey()), fixture_camera(), 20, 11, 1, 1);
    let first = tracer.render();
    let second = tracer.render();
    assert_eq!(first.len(), 220);
    assert_eq!(first, second);
}

#[test]
fn rendered_pixels_stay_displayable() {
    let tracer = Raytracer::new(fixture_scene(grey()), fixture_camera(), 12, 8, 4, 3);
    let pixels = tracer.render();
    assert_eq!(pixels.len(), 96);
    let mut saw_sky = false;
    let mut saw_surface = false;
    for p in &pixels {
        for v in [p.r.v, p.g.v, p.b.v] {
            assert!(0 <= v && v <= FX_ONE);
        }
        if p.b.v == FX_ONE {
            saw_sky = true;
        }
        if p.b.v < FX_ONE {
            saw_surface = true;
        }
    }
    assert!(saw_sky);
    assert!(saw_surface);
}

#[test]
fn accumulator_resolves_averages_with_gamma() {
    let mut acc = rez::raytracer::Pixel::empty();
    // four samples of a quarter-intensity grey average to 1/4; the
    // square-root gamma lifts that to 1/2
    for _ in 0..4 {
        acc.add_sample(Colour::new(Fx { v: 16384 }, Fx { v: 16384 }, Fx { v: 16384 }));
    }
    let c = acc.resolve();
    assert_eq!((c.r.v, c.g.v, c.b.v), (32768, 32768, 32768));

    let mut black = rez::raytracer::Pixel::empty();
    for _ in 0..7 {
        black.add_sample(Colour::black());
    }
    let b = black.resolve();
    assert_eq!((b.r.v, b.g.v, b.b.v), (0, 0, 0));
}

#[test]
fn quantization_rounds_and_clamps() {
    let c = Colour::new(Fx { v: 32768 }, Fx { v: -5 }, Fx { v: 70000 });
    // 0.5 -> round(127.5) = 128 under round-half-up; negatives and
    // over-range values clamp
    assert_eq!(c.to_24bit_rgb(), (128, 0, 255));
    assert_eq!(Colour::white().to_24bit_rgb(), (255, 255, 255));
    assert_eq!(Colour::black().to_24bit_rgb(), (0, 0, 0));
}

#[test]
fn empty_scene_renders_pure_sky() {
    // every sample is the sky gradient, whose blue channel is always
    // full; the resolve keeps it full
    let tracer = Raytracer::new(Scene::new(), fixture_camera(), 8, 6, 3, 2);
    let pixels = tracer.render();
    assert_eq!(pixels.len(), 48);
    for p in &pixels {
        assert_eq!(p.b.v, FX_ONE);
        assert!(p.r.v >= 32768 && p.g.v >= 32768);
    }
}
