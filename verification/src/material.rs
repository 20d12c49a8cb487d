//! The scattering model: diffuse, specular, refractive, and fully
//! absorbing materials, each deciding how an incoming ray continues.
//!
//! Scattering draws randomness from an explicit generator; the contracts
//! state everything that holds of every possible draw, and pin the
//! deterministic parts (the reflection law, the attenuation, the scatter
//! origin) exactly.
use vstd::prelude::*;
use crate::colour::Colour;
use crate::colour::cwhite;
use crate::colour::in_unit;
use crate::collider::Collision;
use crate::fx::FX_ONE;
use crate::fx::Fx;
use crate::fx::fx_add;
use crate::fx::fx_div;
use crate::fx::fx_mul;
use crate::fx::fx_neg;
use crate::fx::fx_sqrt;
use crate::fx::fx_sub;
use crate::ray::Ray;
use crate::rng::rand_unit01;
use crate::vec3::Vec3;
use crate::vec3::dot_spec;
use crate::vec3::is_unit_draw;
use crate::vec3::squared_spec;
use crate::vec3::unit_spec;
use crate::vec3::vadd;
use crate::vec3::vneg;
use crate::vec3::vscale;
use crate::vec3::vsub;

verus! {

/// Ideal mirror reflection: `d - 2 * dot(d, n) * n`.
pub open spec fn reflect_spec(incident: Vec3, normal: Vec3) -> Vec3 {
    vsub(incident, vscale(vscale(normal, dot_spec(incident, normal)), 2 * FX_ONE))
}

/// Vector-form Snell refraction of the normalized incident direction.
pub open spec fn refract_spec(incident: Vec3, normal: Vec3, ratio: int) -> Vec3
    recommends
        squared_spec(incident) > 0,
{
    let u = unit_spec(incident);
    let cos_theta = dot_spec(vneg(u), normal);
    let perp = vscale(vadd(u, vscale(normal, cos_theta)), ratio);
    let para = vscale(normal, fx_neg(fx_sqrt(fx_sub(FX_ONE as int, squared_spec(perp)))));
    vadd(perp, para)
}

/// Schlick's reflectance approximation:
/// `r0 + (1 - r0) * (1 - cos)^5` with `r0 = ((1 - eta) / (1 + eta))^2`.
pub open spec fn reflectance_spec(cosine: int, eta: int) -> int
    recommends
        eta >= 0,
{
    let q = fx_div(fx_sub(FX_ONE as int, eta), fx_add(FX_ONE as int, eta));
    let r0 = fx_mul(q, q);
    let f = fx_sub(FX_ONE as int, cosine);
    let f5 = fx_mul(fx_mul(fx_mul(fx_mul(f, f), f), f), f);
    fx_add(r0, fx_mul(fx_sub(FX_ONE as int, r0), f5))
}

/// Mirror reflection about a surface normal.
pub fn reflect(incident: Vec3, normal: Vec3) -> (r: Vec3)
    ensures
        r == reflect_spec(incident, normal),
        r.wf(),
{
    incident.sub(normal.mul(incident.dot(normal)).mul(Fx { v: 2 * FX_ONE }))
}

/// Snell refraction of the (normalized) incident direction; total
/// internal reflection must be excluded by the caller, as the original
/// contract demands.
pub fn refract(incident: Vec3, normal: Vec3, eta_ratio: Fx) -> (r: Vec3)
    requires
        squared_spec(incident) > 0,
    ensures
        r == refract_spec(incident, normal, eta_ratio.i()),
        r.wf(),
{
    let u = incident.unit();
    let cos_theta = u.neg().dot(normal);
    let perp = u.add(normal.mul(cos_theta)).mul(eta_ratio);
    let para = normal.mul(Fx::one().sub(perp.squared()).sqrt().neg());
    perp.add(para)
}

/// Schlick's angle-dependent reflectance probability.
pub fn reflectance(cosine: Fx, eta: Fx) -> (r: Fx)
    requires
        eta.i() >= 0,
    ensures
        r.i() == reflectance_spec(cosine.i(), eta.i()),
        r.wf(),
{
    let q = Fx::one().sub(eta).div(Fx::one().add(eta));
    let r0 = q.mul(q);
    let f = Fx::one().sub(cosine);
    let f5 = f.mul(f).mul(f).mul(f).mul(f);
    r0.add(Fx::one().sub(r0).mul(f5))
}

/// A diffuse surface that tints by its albedo.
#[derive(Clone, Copy, PartialEq, Eq, Structural, Debug)]
pub struct Lambertian {
    pub albedo: Colour,
}

impl Lambertian {
    pub fn new(albedo: Colour) -> (r: Lambertian)
        ensures
            r.albedo == albedo,
    {
        Lambertian { albedo }
    }

    /// Diffuse bounce: the surface normal plus a random unit vector,
    /// re-sampled while the sum degenerates; the (vanishingly unlikely)
    /// final fallback is the normal itself, or a fixed unit axis if even
    /// the normal is degenerate. Always scatters; the attenuation is the
    /// albedo, the new ray starts at the hit point, and its direction is
    /// never degenerate.
    pub fn scatter(&self, _ray: Ray, col: &Collision, rng: &mut rand::rngs::StdRng) -> (r: Option<
        (Colour, Ray),
    >)
        requires
            col.normal.wf(),
        ensures
            r matches Some((att, sc)) && att == self.albedo && sc.orig == col.point && sc.dir.wf()
                && !sc.dir.small_spec(),
            r matches Some((att, sc)) ==> sc.dir == col.normal || sc.dir == (Vec3 {
                x: Fx { v: FX_ONE },
                y: Fx { v: 0 },
                z: Fx { v: 0 },
            }) || exists|u: Vec3| #![auto] is_unit_draw(u) && sc.dir == vadd(col.normal, u),
    {
        let mut dir = col.normal.add(Vec3::random_unit(rng));
        let mut tries: u32 = 0;
        while dir.small() && tries < 32
            invariant
                dir.wf(),
                col.normal.wf(),
                exists|u: Vec3| #![auto] is_unit_draw(u) && dir == vadd(col.normal, u),
            decreases 32 - tries,
        {
            dir = col.normal.add(Vec3::random_unit(rng));
            tries = tries + 1;
        }
        let dir = if dir.small() {
            if col.normal.small() {
                // even the surface normal is degenerate: bounce along
                // a fixed unit axis rather than hand back no direction
                proof {
                    crate::vec3::lemma_unit_axis_squared();
                }
                Vec3 { x: Fx::one(), y: Fx::zero(), z: Fx::zero() }
            } else {
                col.normal
            }
        } else {
            dir
        };
        Some((self.albedo, Ray::new(col.point, dir)))
    }
}

/// A specular surface with an optional fuzzy highlight.
#[derive(Clone, Copy, PartialEq, Eq, Structural, Debug)]
pub struct Metal {
    pub albedo: Colour,
    pub fuzz: Fx,
}

impl Metal {
    /// The fuzz factor is clamped into `[0, 1]`.
    pub fn new(albedo: Colour, fuzz: Fx) -> (r: Metal)
        ensures
            r.albedo == albedo,
            r.fuzz.i() == crate::colour::clamp01(fuzz.i()),
            0 <= r.fuzz.i() <= FX_ONE,
    {
        let f = if fuzz.v < 0 {
            Fx::zero()
        } else if fuzz.v > FX_ONE {
            Fx::one()
        } else {
            fuzz
        };
        Metal { albedo, fuzz: f }
    }

    /// Specular bounce: reflect about the normal and perturb by
    /// `fuzz * random_unit`. Scatters exactly when the reflected
    /// direction leaves the surface; with zero fuzz the scattered
    /// direction is the ideal geometric reflection.
    pub fn scatter(&self, ray: Ray, col: &Collision, rng: &mut rand::rngs::StdRng) -> (r: Option<
        (Colour, Ray),
    >)
        ensures
            r is Some <==> dot_spec(reflect_spec(ray.dir, col.normal), col.normal) > 0,
            r matches Some((att, sc)) ==> att == self.albedo && sc.orig == col.point && sc.dir.wf(),
            r matches Some((att, sc)) ==> exists|p: Vec3|
                #![auto]
                is_unit_draw(p) && sc.dir == vadd(reflect_spec(ray.dir, col.normal), vscale(
                    p,
                    self.fuzz.i(),
                )),
            self.fuzz.i() == 0 ==> (r matches Some((att, sc)) ==> sc.dir == reflect_spec(
                ray.dir,
                col.normal,
            )),
    {
        let reflected = reflect(ray.dir, col.normal);
        let ru = Vec3::random_unit(rng);
        let dir = reflected.add(ru.mul(self.fuzz));
        let scattered = Ray::new(col.point, dir);
        proof {
            if self.fuzz.i() == 0 {
                lemma_scale_zero_add_identity(reflected, ru);
            }
        }
        if reflected.dot(col.normal).v > 0 {
            Some((self.albedo, scattered))
        } else {
            None
        }
    }
}

/// Scaling by zero then adding is the identity on in-band vectors.
proof fn lemma_scale_zero_add_identity(base: Vec3, u: Vec3)
    requires
        base.wf(),
    ensures
        vadd(base, vscale(u, 0)) == base,
{
    lemma_fx_mul_zero_right(u.x.i());
    lemma_fx_mul_zero_right(u.y.i());
    lemma_fx_mul_zero_right(u.z.i());
}

/// Multiplying by a zero scalar yields zero.
pub proof fn lemma_fx_mul_zero_right(a: int)
    ensures
        fx_mul(a, 0) == 0,
{
    assert(a * 0 == 0) by (nonlinear_arith);
    assert(0int / 65536 == 0) by (nonlinear_arith);
}

/// A transparent medium that reflects or refracts by Fresnel chance.
#[derive(Clone, Copy, PartialEq, Eq, Structural, Debug)]
pub struct Dielectric {
    pub eta: Fx,
}

/// Total internal reflection: the refraction ratio stretches the sine
/// of the incidence angle beyond one.
pub open spec fn tir_spec(dir: Vec3, normal: Vec3, ratio: int) -> bool
    recommends
        squared_spec(dir) > 0,
{
    let cos = dot_spec(vneg(unit_spec(dir)), normal);
    let sin = fx_sqrt(fx_sub(FX_ONE as int, fx_mul(cos, cos)));
    fx_mul(ratio, sin) > FX_ONE
}

/// The direction a dielectric boundary hands back, given the Fresnel
/// draw `p`: reflect on total internal reflection or when the Schlick
/// reflectance exceeds the draw, refract otherwise.
pub open spec fn dielectric_dir(dir: Vec3, normal: Vec3, ratio: int, p: int) -> Vec3
    recommends
        squared_spec(dir) > 0,
        ratio >= 0,
{
    let cos = dot_spec(vneg(unit_spec(dir)), normal);
    if tir_spec(dir, normal, ratio) || reflectance_spec(cos, ratio) > p {
        reflect_spec(dir, normal)
    } else {
        refract_spec(dir, normal, ratio)
    }
}

/// The refraction ratio to apply at a boundary: `1 / eta` entering the
/// medium, `eta` leaving it.
pub open spec fn ratio_spec(eta: int, front: bool) -> int
    recommends
        eta > 0,
{
    if front {
        fx_div(FX_ONE as int, eta)
    } else {
        eta
    }
}

impl Dielectric {
    pub fn new(eta: Fx) -> (r: Dielectric)
        ensures
            r.eta == eta,
    {
        Dielectric { eta }
    }

    /// Refractive bounce: pick the ratio by face orientation, then
    /// reflect on total internal reflection or a Schlick chance, and
    /// refract otherwise. Always scatters, with opaque white
    /// attenuation, from the hit point, in one of those two directions.
    pub fn scatter(&self, ray: Ray, col: &Collision, rng: &mut rand::rngs::StdRng) -> (r: Option<
        (Colour, Ray),
    >)
        requires
            squared_spec(ray.dir) > 0,
            self.eta.i() > 0,
        ensures
            r matches Some((att, sc)) && att == cwhite() && sc.orig == col.point && sc.dir.wf() && (
            sc.dir == reflect_spec(ray.dir, col.normal) || sc.dir == refract_spec(
                ray.dir,
                col.normal,
                ratio_spec(self.eta.i(), col.front),
            )),
            tir_spec(ray.dir, col.normal, ratio_spec(self.eta.i(), col.front)) ==> (r matches Some(
                (att, sc),
            ) ==> sc.dir == reflect_spec(ray.dir, col.normal)),
            r matches Some((att, sc)) ==> exists|p: int|
                #![auto]
                0 <= p < FX_ONE && sc.dir == dielectric_dir(
                    ray.dir,
                    col.normal,
                    ratio_spec(self.eta.i(), col.front),
                    p,
                ),
    {
        let eta_ratio = if col.front {
            Fx::one().div(self.eta)
        } else {
            self.eta
        };
        let cos_theta = ray.dir.unit().neg().dot(col.normal);
        let sin_theta = Fx::one().sub(cos_theta.mul(cos_theta)).sqrt();

        let internal_reflection = eta_ratio.mul(sin_theta).v > FX_ONE;
        let fresnel_draw = rand_unit01(rng);
        let other_reflection = reflectance(cos_theta, eta_ratio).v > fresnel_draw.v;

        let direction = if internal_reflection || other_reflection {
            reflect(ray.dir, col.normal)
        } else {
            refract(ray.dir, col.normal, eta_ratio)
        };

        proof {
            assert(direction == dielectric_dir(
                ray.dir,
                col.normal,
                ratio_spec(self.eta.i(), col.front),
                fresnel_draw.i(),
            ));
        }
        let attenuation = Colour::white();
        let scattered = Ray::new(col.point, direction);
        Some((attenuation, scattered))
    }
}

/// A matched refractive index passes light straight through: at normal
/// incidence (the normalized incident direction exactly opposing a unit
/// normal) refraction with ratio one returns the incident direction
/// unchanged.
pub proof fn lemma_matched_index_normal_incidence(d: Vec3, n: Vec3)
    requires
        n.wf(),
        squared_spec(n) == FX_ONE,
        squared_spec(d) > 0,
        unit_spec(d) == vneg(n),
    ensures
        refract_spec(d, n, FX_ONE as int) == unit_spec(d),
{
    let u = unit_spec(d);
    crate::fx::lemma_clip_neg(n.x.i());
    crate::fx::lemma_clip_neg(n.y.i());
    crate::fx::lemma_clip_neg(n.z.i());
    assert(u.x.i() == -n.x.i() && u.y.i() == -n.y.i() && u.z.i() == -n.z.i());
    // cos_theta = dot(-u, n) = dot(n, n) = 1
    assert(vneg(u) == n);
    let cos_theta = dot_spec(vneg(u), n);
    assert(cos_theta == FX_ONE);
    // n scaled by one is n, so u + n*cos vanishes
    crate::fx::lemma_fx_mul_one(n.x.i());
    crate::fx::lemma_fx_mul_one(n.y.i());
    crate::fx::lemma_fx_mul_one(n.z.i());
    let w = vadd(u, vscale(n, cos_theta));
    assert(w.x.i() == 0 && w.y.i() == 0 && w.z.i() == 0);
    // the perpendicular component is zero
    lemma_fx_mul_zero_right(0);
    let perp = vscale(w, FX_ONE as int);
    assert(perp.x.i() == fx_mul(0, FX_ONE as int));
    crate::fx::lemma_fx_mul_one(0);
    assert(perp.x.i() == 0 && perp.y.i() == 0 && perp.z.i() == 0);
    assert(squared_spec(perp) == 0) by {
        assert(fx_mul(0, 0) == 0) by {
            assert(0int * 0 == 0) by (nonlinear_arith);
            assert(0int / 65536 == 0) by (nonlinear_arith);
        }
    }
    // the parallel component is -sqrt(1) * n = -n = u
    crate::fx::lemma_fx_sqrt_one();
    assert(fx_sub(FX_ONE as int, squared_spec(perp)) == FX_ONE);
    let para = vscale(n, fx_neg(fx_sqrt(FX_ONE as int)));
    assert(para.x.i() == -n.x.i() && para.y.i() == -n.y.i() && para.z.i() == -n.z.i());
    assert(refract_spec(d, n, FX_ONE as int) == vadd(perp, para));
    assert(vadd(perp, para) == u);
}

/// The closed set of surface materials, polymorphic over scattering.
#[derive(Clone, Copy, PartialEq, Eq, Structural, Debug)]
pub enum Material {
    Lambertian(Lambertian),
    Metal(Metal),
    Dielectric(Dielectric),
    /// A surface that always declines to scatter: every light path
    /// ending on it terminates at black.
    Absorbent,
}

impl Material {
    /// The material's parameters are physically valid: albedos carry no
    /// gain, fuzz lies in `[0, 1]`, and refractive indices are positive.
    pub open spec fn ok(self) -> bool {
        match self {
            Material::Lambertian(l) => in_unit(l.albedo),
            Material::Metal(m) => in_unit(m.albedo) && 0 <= m.fuzz.i() <= FX_ONE,
            Material::Dielectric(d) => d.eta.i() > 0,
            Material::Absorbent => true,
        }
    }

    /// Dispatch to the variant's scattering rule. Whatever the random
    /// draws, a scattered ray starts at the hit point, a valid material
    /// never amplifies a channel, and the absorbent material never
    /// scatters.
    pub fn scatter(&self, ray: Ray, col: &Collision, rng: &mut rand::rngs::StdRng) -> (r: Option<
        (Colour, Ray),
    >)
        requires
            self.ok(),
            squared_spec(ray.dir) > 0,
            col.normal.wf(),
        ensures
            r matches Some((att, sc)) ==> sc.orig == col.point && sc.dir.wf() && in_unit(att),
            *self is Absorbent ==> r is None,
            (*self matches Material::Lambertian(_) || *self matches Material::Dielectric(_))
                ==> r is Some,
            *self matches Material::Lambertian(l) ==> (r matches Some((att, sc)) ==> att
                == l.albedo && !sc.dir.small_spec()),
            *self matches Material::Metal(m) ==> ((r is Some <==> dot_spec(
                reflect_spec(ray.dir, col.normal),
                col.normal,
            ) > 0) && (r matches Some((att, sc)) ==> att == m.albedo && (m.fuzz.i() == 0
                ==> sc.dir == reflect_spec(ray.dir, col.normal)))),
            *self matches Material::Dielectric(dl) ==> (r matches Some((att, sc)) ==> att
                == cwhite() && (sc.dir == reflect_spec(ray.dir, col.normal) || sc.dir
                == refract_spec(ray.dir, col.normal, ratio_spec(dl.eta.i(), col.front)))),
    {
        match self {
            Material::Lambertian(l) => l.scatter(ray, col, rng),
            Material::Metal(m) => m.scatter(ray, col, rng),
            Material::Dielectric(d) => d.scatter(ray, col, rng),
            Material::Absorbent => None,
        }
    }
}

} // verus!
