//! The thin-lens camera: a validated builder deriving the orthonormal
//! viewport basis, and per-sample ray generation with lens jitter.
use vstd::prelude::*;
use crate::fx::FX_ONE;
use crate::fx::Fx;
use crate::fx::clip;
use crate::fx::fx_div;
use crate::fx::fx_mul;
use crate::fx::fx_sub;
use crate::fx::tdiv;
use crate::ray::Ray;
use crate::vec3::Vec3;
use crate::vec3::cross_spec;
use crate::vec3::lemma_squared_nonneg;
use crate::vec3::squared_spec;
use crate::vec3::unit_spec;
use crate::vec3::vadd;
use crate::vec3::vscale;
use crate::vec3::vsub;

verus! {

/// Pi in raw fixed-point steps (rounded down).
pub const PI_FX: i64 = 205887;

/// Maclaurin sine, Horner form, for arguments in `[0, pi/2]`.
pub open spec fn sin_spec(x: int) -> int {
    let x2 = fx_mul(x, x);
    let t5 = fx_sub(FX_ONE as int, clip(tdiv(x2, 110)));
    let t4 = fx_sub(FX_ONE as int, fx_mul(clip(tdiv(x2, 72)), t5));
    let t3 = fx_sub(FX_ONE as int, fx_mul(clip(tdiv(x2, 42)), t4));
    let t2 = fx_sub(FX_ONE as int, fx_mul(clip(tdiv(x2, 20)), t3));
    let t1 = fx_sub(FX_ONE as int, fx_mul(clip(tdiv(x2, 6)), t2));
    fx_mul(x, t1)
}

/// Maclaurin cosine, Horner form, for arguments in `[0, pi/2]`.
pub open spec fn cos_spec(x: int) -> int {
    let x2 = fx_mul(x, x);
    let t5 = fx_sub(FX_ONE as int, clip(tdiv(x2, 90)));
    let t4 = fx_sub(FX_ONE as int, fx_mul(clip(tdiv(x2, 56)), t5));
    let t3 = fx_sub(FX_ONE as int, fx_mul(clip(tdiv(x2, 30)), t4));
    let t2 = fx_sub(FX_ONE as int, fx_mul(clip(tdiv(x2, 12)), t3));
    fx_sub(FX_ONE as int, fx_mul(clip(tdiv(x2, 2)), t2))
}

/// Tangent on `[0, pi/2)`: sine over cosine, saturating where the
/// cosine's approximation is not positive.
pub open spec fn tan_spec(x: int) -> int {
    let c = cos_spec(x);
    if c <= 0 {
        crate::fx::FX_MAX as int
    } else {
        fx_div(sin_spec(x), c)
    }
}

/// Evaluate the sine polynomial.
fn sin_poly(x: Fx) -> (r: Fx)
    requires
        0 <= x.i() <= 102944,
    ensures
        r.i() == sin_spec(x.i()),
        r.wf(),
{
    let x2 = x.mul(x);
    let t5 = Fx::one().sub(x2.div_n(110));
    let t4 = Fx::one().sub(x2.div_n(72).mul(t5));
    let t3 = Fx::one().sub(x2.div_n(42).mul(t4));
    let t2 = Fx::one().sub(x2.div_n(20).mul(t3));
    let t1 = Fx::one().sub(x2.div_n(6).mul(t2));
    x.mul(t1)
}

/// Evaluate the cosine polynomial.
fn cos_poly(x: Fx) -> (r: Fx)
    requires
        0 <= x.i() <= 102944,
    ensures
        r.i() == cos_spec(x.i()),
        r.wf(),
{
    let x2 = x.mul(x);
    let t5 = Fx::one().sub(x2.div_n(90));
    let t4 = Fx::one().sub(x2.div_n(56).mul(t5));
    let t3 = Fx::one().sub(x2.div_n(30).mul(t4));
    let t2 = Fx::one().sub(x2.div_n(12).mul(t3));
    Fx::one().sub(x2.div_n(2).mul(t2))
}

/// Tangent of an angle in `[0, pi/2)`.
fn tan_poly(x: Fx) -> (r: Fx)
    requires
        0 <= x.i() <= 102944,
    ensures
        r.i() == tan_spec(x.i()),
        r.wf(),
{
    let c = cos_poly(x);
    if c.v <= 0 {
        Fx { v: crate::fx::FX_MAX }
    } else {
        sin_poly(x).div(c)
    }
}

/// The derived camera: origin, lower-left viewport corner, the span
/// vectors, the lens basis, and the lens radius.
#[derive(Clone, Copy, PartialEq, Eq, Structural, Debug)]
pub struct Camera {
    pub origin: Vec3,
    pub llc: Vec3,
    pub horizontal: Vec3,
    pub vertical: Vec3,
    pub u: Vec3,
    pub v: Vec3,
    pub lens_radius: Fx,
}

/// Why a camera configuration was rejected.
#[derive(Clone, Copy, PartialEq, Eq, Structural, Debug)]
pub enum CameraBuildError {
    MissingOrigin,
    MissingTarget,
    MissingVup,
    MissingVFov,
    MissingAspectRatio,
    MissingAperture,
    MissingFocusDist,
    /// The vertical field of view must lie strictly between 0 and pi.
    InvalidVFov,
    /// The origin and the look-at target coincide.
    DegenerateDirection,
    /// The up vector is parallel to the viewing direction.
    DegenerateUp,
}

impl CameraBuildError {
    /// A human-readable description of the rejected field.
    pub fn message(&self) -> (m: &'static str) {
        match self {
            CameraBuildError::MissingOrigin => "`origin` must be initialized",
            CameraBuildError::MissingTarget => "`target` must be initialized",
            CameraBuildError::MissingVup => "`vup` must be initialized",
            CameraBuildError::MissingVFov => "`v_fov` must be initialized",
            CameraBuildError::MissingAspectRatio => "`aspect_ratio` must be initialized",
            CameraBuildError::MissingAperture => "`aperture` must be initialized",
            CameraBuildError::MissingFocusDist => "`focus_dist` must be initialized",
            CameraBuildError::InvalidVFov => "`v_fov` must lie strictly between 0 and pi",
            CameraBuildError::DegenerateDirection => "`origin` and `target` must differ",
            CameraBuildError::DegenerateUp => "`vup` must not be parallel to the view direction",
        }
    }
}

/// A camera configuration under construction; every field must be set
/// before `build` succeeds.
#[derive(Clone, Copy, PartialEq, Eq, Structural, Debug)]
pub struct CameraBuilder {
    pub origin: Option<Vec3>,
    pub target: Option<Vec3>,
    pub vup: Option<Vec3>,
    pub v_fov: Option<Fx>,
    pub aspect_ratio: Option<Fx>,
    pub aperture: Option<Fx>,
    pub focus_dist: Option<Fx>,
}

/// The viewing direction is degenerate: origin and target coincide (to
/// within representation).
pub open spec fn degenerate_direction(b: CameraBuilder) -> bool {
    squared_spec(vsub(b.origin.unwrap(), b.target.unwrap())) == 0
}

/// The up vector is degenerate: its cross product with the view axis
/// vanishes.
pub open spec fn degenerate_up(b: CameraBuilder) -> bool {
    squared_spec(
        cross_spec(
            b.vup.unwrap(),
            unit_spec(vsub(b.origin.unwrap(), b.target.unwrap())),
        ),
    ) == 0
}

/// Every builder field has been set.
pub open spec fn all_present(b: CameraBuilder) -> bool {
    &&& b.origin is Some
    &&& b.target is Some
    &&& b.vup is Some
    &&& b.v_fov is Some
    &&& b.aspect_ratio is Some
    &&& b.aperture is Some
    &&& b.focus_dist is Some
}

/// All fields are present and describe a buildable camera.
pub open spec fn buildable(b: CameraBuilder) -> bool {
    &&& all_present(b)
    &&& 0 < b.v_fov.unwrap().i() < PI_FX
    &&& !degenerate_direction(b)
    &&& !degenerate_up(b)
}

/// The camera derived from a complete, valid configuration: viewport
/// half-extent from the field-of-view tangent, the orthonormal basis
/// `w`, `u`, `v`, the focus-scaled span vectors, and the lens radius.
pub open spec fn camera_build_spec(b: CameraBuilder) -> Camera
    recommends
        buildable(b),
{
    let origin = b.origin.unwrap();
    let height = fx_mul(2 * FX_ONE, tan_spec(tdiv(b.v_fov.unwrap().i(), 2)));
    let width = fx_mul(b.aspect_ratio.unwrap().i(), height);
    let w = unit_spec(vsub(origin, b.target.unwrap()));
    let u = unit_spec(cross_spec(b.vup.unwrap(), w));
    let v = cross_spec(w, u);
    let focus = b.focus_dist.unwrap().i();
    let horizontal = vscale(vscale(u, width), focus);
    let vertical = vscale(vscale(v, height), focus);
    let llc = vsub(
        vsub(
            vsub(origin, vscale(horizontal, 32768)),
            vscale(vertical, 32768),
        ),
        vscale(w, focus),
    );
    Camera {
        origin,
        llc,
        horizontal,
        vertical,
        u,
        v,
        lens_radius: crate::vec3::fxi(fx_mul(b.aperture.unwrap().i(), 32768)),
    }
}

impl CameraBuilder {
    pub fn origin(self, value: Vec3) -> (b: CameraBuilder)
        ensures
            b == (CameraBuilder { origin: Some(value), ..self }),
    {
        CameraBuilder { origin: Some(value), ..self }
    }

    pub fn target(self, value: Vec3) -> (b: CameraBuilder)
        ensures
            b == (CameraBuilder { target: Some(value), ..self }),
    {
        CameraBuilder { target: Some(value), ..self }
    }

    pub fn vup(self, value: Vec3) -> (b: CameraBuilder)
        ensures
            b == (CameraBuilder { vup: Some(value), ..self }),
    {
        CameraBuilder { vup: Some(value), ..self }
    }

    pub fn v_fov(self, value: Fx) -> (b: CameraBuilder)
        ensures
            b == (CameraBuilder { v_fov: Some(value), ..self }),
    {
        CameraBuilder { v_fov: Some(value), ..self }
    }

    pub fn aspect_ratio(self, value: Fx) -> (b: CameraBuilder)
        ensures
            b == (CameraBuilder { aspect_ratio: Some(value), ..self }),
    {
        CameraBuilder { aspect_ratio: Some(value), ..self }
    }

    pub fn aperture(self, value: Fx) -> (b: CameraBuilder)
        ensures
            b == (CameraBuilder { aperture: Some(value), ..self }),
    {
        CameraBuilder { aperture: Some(value), ..self }
    }

    pub fn focus_dist(self, value: Fx) -> (b: CameraBuilder)
        ensures
            b == (CameraBuilder { focus_dist: Some(value), ..self }),
    {
        CameraBuilder { focus_dist: Some(value), ..self }
    }

    /// Validate the configuration and derive the camera. Each missing
    /// field is reported in declaration order; a complete configuration
    /// is rejected only for an out-of-range field of view or degenerate
    /// geometry, and otherwise yields exactly the derived camera.
    pub fn build(&self) -> (r: Result<Camera, CameraBuildError>)
        ensures
            buildable(*self) ==> r == Ok::<Camera, CameraBuildError>(camera_build_spec(*self)),
            r is Ok <==> buildable(*self),
            r == Err::<Camera, CameraBuildError>(CameraBuildError::MissingOrigin) <==> self.origin
                is None,
            r == Err::<Camera, CameraBuildError>(CameraBuildError::MissingTarget) <==> self.origin
                is Some && self.target is None,
            r == Err::<Camera, CameraBuildError>(CameraBuildError::MissingVup) <==> self.origin
                is Some && self.target is Some && self.vup is None,
            r == Err::<Camera, CameraBuildError>(CameraBuildError::MissingVFov) <==> self.origin
                is Some && self.target is Some && self.vup is Some && self.v_fov is None,
            r == Err::<Camera, CameraBuildError>(CameraBuildError::MissingAspectRatio)
                <==> self.origin is Some && self.target is Some && self.vup is Some && self.v_fov
                is Some && self.aspect_ratio is None,
            r == Err::<Camera, CameraBuildError>(CameraBuildError::MissingAperture) <==> self.origin
                is Some && self.target is Some && self.vup is Some && self.v_fov is Some
                && self.aspect_ratio is Some && self.aperture is None,
            r == Err::<Camera, CameraBuildError>(CameraBuildError::MissingFocusDist)
                <==> self.origin is Some && self.target is Some && self.vup is Some && self.v_fov
                is Some && self.aspect_ratio is Some && self.aperture is Some && self.focus_dist
                is None,
            r == Err::<Camera, CameraBuildError>(CameraBuildError::InvalidVFov) <==> all_present(
                *self,
            ) && !(0 < self.v_fov.unwrap().i() < PI_FX),
            r == Err::<Camera, CameraBuildError>(CameraBuildError::DegenerateDirection)
                <==> all_present(*self) && 0 < self.v_fov.unwrap().i() < PI_FX
                && degenerate_direction(*self),
            r == Err::<Camera, CameraBuildError>(CameraBuildError::DegenerateUp) <==> all_present(
                *self,
            ) && 0 < self.v_fov.unwrap().i() < PI_FX && !degenerate_direction(*self)
                && degenerate_up(*self),
    {
        let origin = match self.origin {
            Some(o) => o,
            None => {
                return Err(CameraBuildError::MissingOrigin);
            },
        };
        let target = match self.target {
            Some(t) => t,
            None => {
                return Err(CameraBuildError::MissingTarget);
            },
        };
        let vup = match self.vup {
            Some(u) => u,
            None => {
                return Err(CameraBuildError::MissingVup);
            },
        };
        let v_fov = match self.v_fov {
            Some(f) => f,
            None => {
                return Err(CameraBuildError::MissingVFov);
            },
        };
        let aspect_ratio = match self.aspect_ratio {
            Some(a) => a,
            None => {
                return Err(CameraBuildError::MissingAspectRatio);
            },
        };
        let aperture = match self.aperture {
            Some(a) => a,
            None => {
                return Err(CameraBuildError::MissingAperture);
            },
        };
        let focus_dist = match self.focus_dist {
            Some(f) => f,
            None => {
                return Err(CameraBuildError::MissingFocusDist);
            },
        };
        if !(0 < v_fov.v && v_fov.v < PI_FX) {
            return Err(CameraBuildError::InvalidVFov);
        }

        let axis = origin.sub(target);
        if axis.small() {
            return Err(CameraBuildError::DegenerateDirection);
        }
        proof {
            lemma_squared_nonneg(axis);
        }
        let w = axis.unit();
        let uc = vup.cross(w);
        if uc.small() {
            return Err(CameraBuildError::DegenerateUp);
        }
        proof {
            lemma_squared_nonneg(uc);
        }

        let half = Fx { v: (v_fov.v as u64 / 2) as i64 };
        let height = Fx { v: 2 * FX_ONE }.mul(tan_poly(half));
        let width = aspect_ratio.mul(height);

        let u = uc.unit();
        let v = w.cross(u);

        let horizontal = u.mul(width).mul(focus_dist);
        let vertical = v.mul(height).mul(focus_dist);
        let half_one = Fx { v: 32768 };
        let llc = origin.sub(horizontal.mul(half_one)).sub(vertical.mul(half_one)).sub(
            w.mul(focus_dist),
        );

        let lens_radius = aperture.mul(half_one);

        Ok(Camera { origin, llc, horizontal, vertical, u, v, lens_radius })
    }
}

/// The ray a camera casts for normalized image coordinates `(h, v)`,
/// given the lens-disk draw `rd`.
pub open spec fn cam_ray_spec(cam: Camera, h: int, v: int, rd: Vec3) -> Ray {
    let scaled = vscale(rd, cam.lens_radius.i());
    let offset = vadd(vscale(cam.u, scaled.x.i()), vscale(cam.v, scaled.y.i()));
    let orig = vadd(cam.origin, offset);
    Ray {
        orig,
        dir: vsub(
            vadd(vadd(cam.llc, vscale(cam.horizontal, h)), vscale(cam.vertical, v)),
            orig,
        ),
    }
}

impl Camera {
    /// A fresh, empty configuration.
    pub fn builder() -> (b: CameraBuilder)
        ensures
            b == (CameraBuilder {
                origin: None,
                target: None,
                vup: None,
                v_fov: None,
                aspect_ratio: None,
                aperture: None,
                focus_dist: None,
            }),
    {
        CameraBuilder {
            origin: None,
            target: None,
            vup: None,
            v_fov: None,
            aspect_ratio: None,
            aperture: None,
            focus_dist: None,
        }
    }

    /// Cast the ray for normalized image-plane coordinates `(h, v)`,
    /// jittering the origin within the lens disk; a zero aperture
    /// degenerates to the deterministic pinhole ray.
    pub fn ray(&self, h: Fx, v: Fx, rng: &mut rand::rngs::StdRng) -> (r: Ray)
        ensures
            exists|d: Vec3|
                #![auto]
                d.wf() && d.z.i() == 0 && 0 <= squared_spec(d) <= FX_ONE && r == cam_ray_spec(
                    *self,
                    h.i(),
                    v.i(),
                    d,
                ),
            self.lens_radius.i() == 0 ==> r == cam_ray_spec(
                *self,
                h.i(),
                v.i(),
                Vec3 { x: crate::vec3::fxi(0), y: crate::vec3::fxi(0), z: crate::vec3::fxi(0) },
            ),
    {
        let rd = Vec3::random_in_unit_disk(rng);
        let scaled = rd.mul(self.lens_radius);
        let offset = self.u.mul(scaled.x).add(self.v.mul(scaled.y));
        let origin = self.origin.add(offset);
        let dir = self.llc.add(self.horizontal.mul(h)).add(self.vertical.mul(v)).sub(origin);
        proof {
            if self.lens_radius.i() == 0 {
                lemma_pinhole(*self, h.i(), v.i(), rd);
            }
        }
        Ray::new(origin, dir)
    }
}

/// With a zero lens radius the disk draw is irrelevant: every draw
/// yields the pinhole ray.
proof fn lemma_pinhole(cam: Camera, h: int, v: int, rd: Vec3)
    requires
        cam.lens_radius.i() == 0,
    ensures
        cam_ray_spec(cam, h, v, rd) == cam_ray_spec(
            cam,
            h,
            v,
            Vec3 { x: crate::vec3::fxi(0), y: crate::vec3::fxi(0), z: crate::vec3::fxi(0) },
        ),
{
    crate::material::lemma_fx_mul_zero_right(rd.x.i());
    crate::material::lemma_fx_mul_zero_right(rd.y.i());
    crate::material::lemma_fx_mul_zero_right(rd.z.i());
    crate::material::lemma_fx_mul_zero_right(0);
}

} // verus!
