use rez::camera::Camera;
use rez::camera::CameraBuildError;
use rez::camera::PI_FX;
use rez::fx::Fx;
use rez::fx::FX_ONE;
use rez::vec3::Vec3;

fn rng() -> rand::rngs::StdRng {
    <rand::rngs::StdRng as rand::SeedableRng>::seed_from_u64(9)
}

fn valid_builder() -> rez::camera::CameraBuilder {
    Camera::builder()
        .origin(Vec3::whole(0, 0, 0))
        .target(Vec3::whole(0, 0, -1))
        .vup(Vec3::whole(0, 1, 0))
        .v_fov(Fx { v: PI_FX / 2 })
        .aspect_ratio(Fx { v: 3 * FX_ONE / 2 })
        .aperture(Fx::zero())
        .focus_dist(Fx::whole(1))
}

#[test]
fn missing_fields_are_reported_in_order() {
    assert_eq!(Camera::builder().build().unwrap_err(), CameraBuildError::MissingOrigin);
    assert_eq!(
        Camera::builder().origin(Vec3::zero()).build().unwrap_err(),
        CameraBuildError::MissingTarget
    );
    assert_eq!(
        Camera::builder().origin(Vec3::zero()).target(Vec3::whole(0, 0, -1)).build().unwrap_err(),
        CameraBuildError::MissingVup
    );
    let b = Camera::builder()
        .origin(Vec3::zero())
        .target(Vec3::whole(0, 0, -1))
        .vup(Vec3::whole(0, 1, 0));
    assert_eq!(b.build().unwrap_err(), CameraBuildError::MissingVFov);
    let b = b.v_fov(Fx { v: PI_FX / 2 });
    assert_eq!(b.build().unwrap_err(), CameraBuildError::MissingAspectRatio);
    let b = b.aspect_ratio(Fx::one());
    assert_eq!(b.build().unwrap_err(), CameraBuildError::MissingAperture);
    let b = b.aperture(Fx::zero());
    assert_eq!(b.build().unwrap_err(), CameraBuildError::MissingFocusDist);
    assert!(b.focus_dist(Fx::whole(1)).build().is_ok());
}

#[test]
fn error_messages_identify_the_field() {
    assert_eq!(CameraBuildError::MissingOrigin.message(), "`origin` must be initialized");
    assert_eq!(CameraBuildError::MissingVFov.message(), "`v_fov` must be initialized");
}

#[test]
fn out_of_range_field_of_view_is_rejected() {
    let b = valid_builder().v_fov(Fx::zero());
    assert_eq!(b.build().unwrap_err(), CameraBuildError::InvalidVFov);
    let b = valid_builder().v_fov(Fx { v: PI_FX });
    assert_eq!(b.build().unwrap_err(), CameraBuildError::InvalidVFov);
}

#[test]
fn degenerate_geometry_is_rejected() {
    let b = valid_builder().target(Vec3::whole(0, 0, 0));
    assert_eq!(b.build().unwrap_err(), CameraBuildError::DegenerateDirection);
    let b = valid_builder().vup(Vec3::whole(0, 0, 1));
    assert_eq!(b.build().unwrap_err(), CameraBuildError::DegenerateUp);
}

#[test]
fn pinhole_rays_are_deterministic_and_aim_at_the_viewport() {
    let cam = valid_builder().build().unwrap();
    let mut r1 = rng();
    let mut r2 = rng();
    let half = Fx { v: 32768 };
    let a = cam.ray(half, half, &mut r1);
    let b = cam.ray(half, half, &mut r2);
    assert_eq!((a.orig, a.dir), (b.orig, b.dir));
    // the centre ray of a camera looking down -z heads into -z
    assert!(a.dir.z.v < 0);
    assert!(a.dir.x.v.abs() <= 2);
    assert!(a.dir.y.v.abs() <= 2);
    // a pinhole never jitters its origin
    assert_eq!((a.orig.x.v, a.orig.y.v, a.orig.z.v), (0, 0, 0));
}

#[test]
fn viewport_scales_with_the_field_of_view_tangent() {
    // v_fov = pi/2 gives a half-height of tan(pi/4), which is 1
    let cam = valid_builder().build().unwrap();
    // vertical span = 2 * tan(pi/4) * focus = 2, within polynomial tolerance
    let len = cam.vertical.length().v;
    assert!((len - 2 * FX_ONE).abs() < 64, "vertical span {len}");
    // horizontal span = aspect (1.5) times that = 3
    let h = cam.horizontal.length().v;
    assert!((h - 3 * FX_ONE).abs() < 96, "horizontal span {h}");
}

#[test]
fn aperture_jitters_the_origin_within_the_lens() {
    let cam = valid_builder().aperture(Fx { v: FX_ONE / 2 }).build().unwrap();
    let mut r = rng();
    let half = Fx { v: 32768 };
    for _ in 0..50 {
        let ray = cam.ray(half, half, &mut r);
        // the lens radius is a quarter unit
        assert!(ray.orig.x.v.abs() <= FX_ONE / 4);
        assert!(ray.orig.y.v.abs() <= FX_ONE / 4);
        assert_eq!(ray.orig.z.v, 0);
    }
}
