//! Scene intersection: hit records, the sphere primitive's quadratic
//! solver, and the scene-level linear aggregate.
use vstd::prelude::*;
use crate::fx::FX_ONE;
use crate::fx::Fx;
use crate::fx::fx_add;
use crate::fx::fx_div;
use crate::fx::fx_mul;
use crate::fx::fx_neg;
use crate::fx::fx_sqrt;
use crate::fx::fx_sub;
use crate::colour::Colour;
use crate::material::Material;
use crate::ray::Ray;
use crate::ray::ray_at;
use crate::vec3::Vec3;
use crate::vec3::dot_spec;
use crate::vec3::fxi;
use crate::vec3::lemma_dot_neg_right;
use crate::vec3::squared_spec;
use crate::vec3::vdiv;
use crate::vec3::vneg;
use crate::vec3::vsub;

verus! {

/// A hit record: where a ray met geometry, the surface normal oriented
/// against the ray, the ray parameter, the face classification, and the
/// surface's material.
#[derive(Clone, Copy, PartialEq, Eq, Structural, Debug)]
pub struct Collision {
    pub point: Vec3,
    pub normal: Vec3,
    pub t: Fx,
    pub front: bool,
    pub material: Material,
}

/// Build a hit record with the normal oriented against the ray: `front`
/// records whether the geometric outward normal already pointed against
/// the incoming direction.
pub open spec fn collision_from_ray(ray: Ray, t: int, outward: Vec3, material: Material) -> Collision {
    let front = dot_spec(ray.dir, outward) < 0;
    Collision {
        point: ray_at(ray, t),
        normal: if front {
            outward
        } else {
            vneg(outward)
        },
        t: fxi(t),
        front,
        material,
    }
}

/// Construct the oriented hit record for a ray at parameter `t`.
fn from_ray(ray: Ray, t: Fx, outward_normal: Vec3, material: Material) -> (c: Collision)
    ensures
        c == collision_from_ray(ray, t.i(), outward_normal, material),
        outward_normal.wf() ==> dot_spec(ray.dir, c.normal) <= 0,
{
    let front = ray.dir.dot(outward_normal).v < 0;
    let normal = if front {
        outward_normal
    } else {
        proof {
            if outward_normal.wf() {
                lemma_dot_neg_right(ray.dir, outward_normal);
            }
        }
        outward_normal.neg()
    };
    Collision { point: ray.at(t), normal, t, front, material }
}

impl Collision {
    /// The record's geometry is representable and its normal carries a
    /// direction.
    pub open spec fn wf(self) -> bool {
        self.point.wf() && self.normal.wf() && !self.normal.small_spec() && self.t.wf()
    }

    /// Ask the hit surface's material to scatter the incoming ray.
    pub fn scatter(&self, ray: Ray, rng: &mut rand::rngs::StdRng) -> (r: Option<(Colour, Ray)>)
        requires
            self.material.ok(),
            squared_spec(ray.dir) > 0,
            self.normal.wf(),
        ensures
            r matches Some((att, sc)) ==> sc.orig == self.point && sc.dir.wf()
                && crate::colour::in_unit(att),
            self.material is Absorbent ==> r is None,
            (self.material matches Material::Lambertian(_) || self.material
                matches Material::Dielectric(_)) ==> r is Some,
            self.material matches Material::Lambertian(l) ==> (r matches Some((att, sc)) ==> att
                == l.albedo && !sc.dir.small_spec()),
            self.material matches Material::Metal(m) ==> ((r is Some <==> dot_spec(
                crate::material::reflect_spec(ray.dir, self.normal),
                self.normal,
            ) > 0) && (r matches Some((att, sc)) ==> att == m.albedo && (m.fuzz.i() == 0
                ==> sc.dir == crate::material::reflect_spec(ray.dir, self.normal)))),
            self.material matches Material::Dielectric(dl) ==> (r matches Some((att, sc)) ==> att
                == crate::colour::cwhite() && (sc.dir == crate::material::reflect_spec(
                ray.dir,
                self.normal,
            ) || sc.dir == crate::material::refract_spec(
                ray.dir,
                self.normal,
                crate::material::ratio_spec(dl.eta.i(), self.front),
            ))),
    {
        self.material.scatter(ray, self, rng)
    }
}

/// A sphere, the one geometric primitive: a signed radius models a
/// hollow shell with an inverted normal around the same centre.
#[derive(Clone, Copy, PartialEq, Eq, Structural, Debug)]
pub struct Sphere {
    pub centre: Vec3,
    pub radius: Fx,
    pub material: Material,
}

/// The nearest-valid-root sphere intersection, mirrored exactly: the
/// half-angle quadratic, its discriminant, both roots in ascending
/// order, and the first root inside the range, if any.
pub open spec fn sphere_collide_spec(s: Sphere, ray: Ray, t0: int, t1: int) -> Option<Collision>
    recommends
        s.radius.i() != 0,
{
    let a = squared_spec(ray.dir);
    if a == 0 {
        None
    } else {
        let oc = vsub(ray.orig, s.centre);
        let h = dot_spec(oc, ray.dir);
        let c = fx_sub(squared_spec(oc), fx_mul(s.radius.i(), s.radius.i()));
        let disc = fx_sub(fx_mul(h, h), fx_mul(a, c));
        if disc < 0 {
            None
        } else {
            let sq = fx_sqrt(disc);
            let root1 = fx_div(fx_sub(fx_neg(h), sq), a);
            let root2 = fx_div(fx_add(fx_neg(h), sq), a);
            if t0 <= root1 && root1 <= t1 {
                Some(sphere_hit_at(s, ray, root1))
            } else if t0 <= root2 && root2 <= t1 {
                Some(sphere_hit_at(s, ray, root2))
            } else {
                None
            }
        }
    }
}

/// A sphere's geometric outward normal at the hit for parameter `t`:
/// the offset from the centre divided by the signed radius.
pub open spec fn sphere_outward(s: Sphere, ray: Ray, t: int) -> Vec3
    recommends
        s.radius.i() != 0,
{
    vdiv(vsub(ray_at(ray, t), s.centre), s.radius.i())
}

/// The oriented hit record of a sphere at a given ray parameter; the
/// outward normal honours the radius' sign.
pub open spec fn sphere_hit_at(s: Sphere, ray: Ray, t: int) -> Collision
    recommends
        s.radius.i() != 0,
{
    collision_from_ray(ray, t, sphere_outward(s, ray, t), s.material)
}

/// The same sphere with its radius negated: the hollow-shell twin.
pub open spec fn negate_radius(s: Sphere) -> Sphere {
    Sphere {
        centre: s.centre,
        radius: fxi(crate::fx::clip(-s.radius.i())),
        material: s.material,
    }
}

/// Sphere intersection under radius negation: a sphere of radius `r`
/// and one of radius `-r` at the same centre agree on whether a ray
/// hits, on the hit parameter, and on the hit point; their geometric
/// outward normals are exact opposites; and away from a grazing hit
/// (where the ray is tangential to the surface) the stored against-ray
/// normals coincide while the front-face flags are opposite.
pub proof fn lemma_radius_negation(s: Sphere, ray: Ray, t0: int, t1: int)
    requires
        s.radius.wf(),
        s.radius.i() != 0,
    ensures
        ({
            let s2 = negate_radius(s);
            let o1 = sphere_collide_spec(s, ray, t0, t1);
            let o2 = sphere_collide_spec(s2, ray, t0, t1);
            &&& (o1 is Some <==> o2 is Some)
            &&& (o1 matches Some(c1) ==> o2 matches Some(c2) ==> c1.t == c2.t && c1.point
                == c2.point && sphere_outward(s2, ray, c1.t.i()) == vneg(
                sphere_outward(s, ray, c1.t.i()),
            ) && (dot_spec(ray.dir, sphere_outward(s, ray, c1.t.i())) != 0 ==> c1.normal
                == c2.normal && c1.front == !c2.front))
        }),
{
    let s2 = negate_radius(s);
    let r = s.radius.i();
    assert(s2.radius.i() == -r);
    assert((-r) * (-r) == r * r) by (nonlinear_arith);
    assert(fx_mul(s2.radius.i(), s2.radius.i()) == fx_mul(r, r));

    let a = squared_spec(ray.dir);
    let o1 = sphere_collide_spec(s, ray, t0, t1);
    let o2 = sphere_collide_spec(s2, ray, t0, t1);
    if a != 0 {
        if o1 is Some {
            let c1 = o1.unwrap();
            let c2 = o2.unwrap();
            let t = c1.t.i();
            lemma_outward_negation(s, ray, t);
            let out1 = sphere_outward(s, ray, t);
            let out2 = sphere_outward(s2, ray, t);
            assert(out1.wf());
            lemma_dot_neg_right(ray.dir, out1);
            if dot_spec(ray.dir, out1) != 0 {
                if dot_spec(ray.dir, out1) < 0 {
                    assert(c1.normal == out1);
                    assert(dot_spec(ray.dir, out2) > 0);
                    lemma_vneg_involution(out1);
                    assert(c2.normal == out1);
                } else {
                    assert(c1.normal == vneg(out1));
                    assert(dot_spec(ray.dir, out2) < 0);
                    assert(c2.normal == out2);
                }
            }
        }
    }
}

/// Negating the radius negates the outward normal, component for
/// component.
proof fn lemma_outward_negation(s: Sphere, ray: Ray, t: int)
    requires
        s.radius.wf(),
        s.radius.i() != 0,
    ensures
        sphere_outward(negate_radius(s), ray, t) == vneg(sphere_outward(s, ray, t)),
        sphere_outward(s, ray, t).wf(),
{
    let r = s.radius.i();
    let d = vsub(ray_at(ray, t), s.centre);
    crate::fx::lemma_tdiv_neg_divisor(d.x.i() * crate::fx::FX_ONE, r);
    crate::fx::lemma_tdiv_neg_divisor(d.y.i() * crate::fx::FX_ONE, r);
    crate::fx::lemma_tdiv_neg_divisor(d.z.i() * crate::fx::FX_ONE, r);
    crate::fx::lemma_clip_neg(crate::fx::tdiv(d.x.i() * crate::fx::FX_ONE, r));
    crate::fx::lemma_clip_neg(crate::fx::tdiv(d.y.i() * crate::fx::FX_ONE, r));
    crate::fx::lemma_clip_neg(crate::fx::tdiv(d.z.i() * crate::fx::FX_ONE, r));
}

/// Negation is an involution on in-band vectors.
proof fn lemma_vneg_involution(v: Vec3)
    requires
        v.wf(),
    ensures
        vneg(vneg(v)) == v,
{
}

impl Sphere {
    pub fn new(centre: Vec3, radius: Fx, material: Material) -> (s: Sphere)
        ensures
            s == (Sphere { centre, radius, material }),
    {
        Sphere { centre, radius, material }
    }

    /// The sphere has a usable radius and representable geometry.
    pub open spec fn wf(self) -> bool {
        self.centre.wf() && self.radius.wf() && self.radius.i() != 0
    }

    /// Intersect a ray with the sphere over an inclusive parameter
    /// range. The result is pinned to `sphere_collide_spec`; any hit
    /// lies in range, keeps this sphere's material, and carries a
    /// normal oriented against the ray.
    pub fn collide(&self, ray: Ray, t_range: (Fx, Fx)) -> (r: Option<Collision>)
        requires
            self.radius.i() != 0,
        ensures
            r == sphere_collide_spec(*self, ray, t_range.0.i(), t_range.1.i()),
            r matches Some(c) ==> t_range.0.i() <= c.t.i() <= t_range.1.i() && c.material
                == self.material && dot_spec(ray.dir, c.normal) <= 0 && c.point.wf()
                && c.normal.wf(),
    {
        let a = ray.dir.squared();
        if a.v == 0 {
            return None;
        }
        let oc = ray.orig.sub(self.centre);
        let h = oc.dot(ray.dir);
        let c = oc.squared().sub(self.radius.mul(self.radius));

        let discriminant = h.mul(h).sub(a.mul(c));
        if discriminant.v < 0 {
            return None;
        }

        let sq = discriminant.sqrt();
        let root1 = h.neg().sub(sq).div(a);
        let root2 = h.neg().add(sq).div(a);

        let t = if t_range.0.v <= root1.v && root1.v <= t_range.1.v {
            root1
        } else if t_range.0.v <= root2.v && root2.v <= t_range.1.v {
            root2
        } else {
            return None;
        };

        let outward = ray.at(t).sub(self.centre).div(self.radius);
        Some(from_ray(ray, t, outward, self.material))
    }
}

/// An ordered collection of spheres, shared read-only across a render.
#[derive(Clone, Debug)]
pub struct Scene {
    pub spheres: Vec<Sphere>,
}

/// The scene-level linear aggregate: intersect every sphere in order and
/// keep the minimum-parameter hit, the earliest such sphere winning ties.
pub open spec fn scene_collide_spec(s: Seq<Sphere>, ray: Ray, t0: int, t1: int) -> Option<Collision>
    decreases s.len(),
{
    if s.len() == 0 {
        None
    } else {
        let prefix = scene_collide_spec(s.drop_last(), ray, t0, t1);
        let last = sphere_collide_spec(s.last(), ray, t0, t1);
        match (prefix, last) {
            (None, l) => l,
            (p, None) => p,
            (Some(pc), Some(lc)) => if lc.t.i() < pc.t.i() {
                Some(lc)
            } else {
                Some(pc)
            },
        }
    }
}

impl Scene {
    /// Every sphere is well-formed and carries a valid material.
    pub open spec fn ok(self) -> bool {
        forall|i: int|
            0 <= i < self.spheres@.len() ==> (#[trigger] self.spheres@[i]).wf()
                && self.spheres@[i].material.ok()
    }

    /// An empty scene.
    pub fn new() -> (s: Scene)
        ensures
            s.spheres@.len() == 0,
            s.ok(),
    {
        Scene { spheres: Vec::new() }
    }

    /// Add a sphere to the scene.
    pub fn push(&mut self, sph: Sphere)
        requires
            sph.wf(),
            sph.material.ok(),
        ensures
            final(self).spheres@ == old(self).spheres@.push(sph),
            old(self).ok() ==> final(self).ok(),
    {
        self.spheres.push(sph);
    }

    /// The number of spheres.
    pub fn len(&self) -> (n: usize)
        ensures
            n == self.spheres@.len(),
    {
        self.spheres.len()
    }

    /// Intersect a ray against every sphere and keep the nearest hit in
    /// range; `None` exactly when no sphere reports a hit.
    #[verifier::rlimit(60)]
    pub fn collide(&self, ray: Ray, t_range: (Fx, Fx)) -> (r: Option<Collision>)
        requires
            self.ok(),
        ensures
            r == scene_collide_spec(self.spheres@, ray, t_range.0.i(), t_range.1.i()),
            r matches Some(c) ==> exists|i: int|
                0 <= i < self.spheres@.len() && sphere_collide_spec(
                    #[trigger] self.spheres@[i],
                    ray,
                    t_range.0.i(),
                    t_range.1.i(),
                ) == Some(c),
            r matches Some(c) ==> t_range.0.i() <= c.t.i() <= t_range.1.i() && dot_spec(
                ray.dir,
                c.normal,
            ) <= 0,
            r matches Some(c) ==> forall|i: int|
                0 <= i < self.spheres@.len() ==> (sphere_collide_spec(
                    #[trigger] self.spheres@[i],
                    ray,
                    t_range.0.i(),
                    t_range.1.i(),
                ) matches Some(ci) ==> c.t.i() <= ci.t.i()),
            r is None ==> forall|i: int|
                0 <= i < self.spheres@.len() ==> sphere_collide_spec(
                    #[trigger] self.spheres@[i],
                    ray,
                    t_range.0.i(),
                    t_range.1.i(),
                ) is None,
    {
        let ghost t0 = t_range.0.i();
        let ghost t1 = t_range.1.i();
        let mut best: Option<Collision> = None;
        let mut k: usize = 0;
        while k < self.spheres.len()
            invariant
                k <= self.spheres@.len(),
                self.ok(),
                best == scene_collide_spec(self.spheres@.subrange(0, k as int), ray, t0, t1),
                t0 == t_range.0.i(),
                t1 == t_range.1.i(),
                best matches Some(c) ==> exists|i: int|
                    0 <= i < k && sphere_collide_spec(#[trigger] self.spheres@[i], ray, t0, t1)
                        == Some(c),
                best matches Some(c) ==> t0 <= c.t.i() <= t1 && dot_spec(ray.dir, c.normal) <= 0,
                best matches Some(c) ==> forall|i: int|
                    0 <= i < k ==> (sphere_collide_spec(#[trigger] self.spheres@[i], ray, t0, t1)
                        matches Some(ci) ==> c.t.i() <= ci.t.i()),
                best is None ==> forall|i: int|
                    0 <= i < k ==> sphere_collide_spec(#[trigger] self.spheres@[i], ray, t0, t1)
                        is None,
            decreases self.spheres@.len() - k,
        {
            let cand = self.spheres[k].collide(ray, t_range);
            proof {
                assert(self.spheres@.subrange(0, k + 1).drop_last() =~= self.spheres@.subrange(
                    0,
                    k as int,
                ));
                assert(self.spheres@.subrange(0, k + 1).last() == self.spheres@[k as int]);
            }
            match cand {
                Some(c) => {
                    match best {
                        None => {
                            best = Some(c);
                        },
                        Some(b) => {
                            if c.t.v < b.t.v {
                                best = Some(c);
                            }
                        },
                    }
                },
                None => {},
            }
            k = k + 1;
        }
        proof {
            assert(self.spheres@.subrange(0, self.spheres@.len() as int) =~= self.spheres@);
        }
        best
    }
}

} // verus!
