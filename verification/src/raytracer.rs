//! The render driver: recursive path evaluation, per-pixel sample
//! accumulation, and the raster-ordered pixel buffer.
use vstd::prelude::*;
use crate::camera::Camera;
use crate::collider::Collision;
use crate::collider::Scene;
use crate::collider::scene_collide_spec;
use crate::colour::Blend;
use crate::colour::Colour;
use crate::colour::blend_spec;
use crate::colour::cadd;
use crate::colour::cblack;
use crate::colour::clamp01;
use crate::colour::cscale;
use crate::colour::cwhite;
use crate::material::Material;
use crate::colour::in_unit;
use crate::fx::FX_MAX;
use crate::fx::FX_ONE;
use crate::fx::Fx;
use crate::fx::clip;
use crate::fx::fx_add;
use crate::fx::fx_mul;
use crate::fx::fx_sqrt;
use crate::fx::isqrt;
use crate::fx::lemma_isqrt_below;
use crate::fx::lemma_isqrt_exists;
use crate::fx::tdiv;
use crate::ray::Ray;
use crate::rng::rand_unit01;
use crate::rng::rng_from_seed;
use crate::vec3::Vec3;
use crate::vec3::fxi;
use crate::vec3::lemma_squared_nonneg;
use crate::vec3::squared_spec;
use crate::vec3::unit_spec;

verus! {

/// The lower bound of the hit-parameter range: a small positive epsilon
/// that culls self-intersections right after a bounce.
pub const T_MIN: i64 = 66;

/// The sky gradient's horizon colour.
pub open spec fn sky_blue() -> Colour {
    Colour { r: fxi(32768), g: fxi(45875), b: fxi(FX_ONE as int) }
}

/// The closed-form sky gradient: blend white into blue by the ray
/// direction's vertical component, remapped from `[-1, 1]` to `[0, 1]`.
pub open spec fn sky_spec(dir: Vec3) -> Colour
    recommends
        squared_spec(dir) > 0,
{
    let t = clamp01(tdiv(fx_add(unit_spec(dir).y.i(), FX_ONE as int), 2));
    blend_spec(cwhite(), sky_blue(), t)
}

/// Every sphere in the scene wears the absorbent material.
pub open spec fn all_absorbent(s: Scene) -> bool {
    forall|i: int|
        0 <= i < s.spheres@.len() ==> (#[trigger] s.spheres@[i]).material
            is Absorbent
}

/// Evaluate the closed-form sky gradient for a ray direction.
fn sky_colour(dir: Vec3) -> (c: Colour)
    requires
        squared_spec(dir) > 0,
    ensures
        c == sky_spec(dir),
        in_unit(c),
{
    let uy = dir.unit().y;
    let raw = uy.add(Fx::one()).div_n(2);
    let t = if raw.v < 0 {
        Fx::zero()
    } else if raw.v > FX_ONE {
        Fx::one()
    } else {
        raw
    };
    let c = Blend(Colour::white(), Colour::new(Fx { v: 32768 }, Fx { v: 45875 }, Fx::one())).at(t);
    proof {
        lemma_blend_channel(FX_ONE as int, 32768, t.i());
        lemma_blend_channel(FX_ONE as int, 45875, t.i());
        lemma_blend_channel(FX_ONE as int, FX_ONE as int, t.i());
    }
    c
}

/// A blend of two displayable channels at a parameter in `[0, 1]` stays
/// displayable.
proof fn lemma_blend_channel(a: int, b: int, t: int)
    requires
        0 <= a <= FX_ONE,
        0 <= b <= FX_ONE,
        0 <= t <= FX_ONE,
    ensures
        0 <= fx_add(fx_mul(a, clip(FX_ONE - t)), fx_mul(b, t)) <= FX_ONE,
{
    assert(0 <= (a * (65536 - t)) / 65536 <= 65536 - t) by (nonlinear_arith)
        requires
            0 <= a <= 65536,
            0 <= t <= 65536,
    ;
    assert(0 <= (b * t) / 65536 <= t) by (nonlinear_arith)
        requires
            0 <= b <= 65536,
            0 <= t <= 65536,
    ;
}

/// The product of two displayable channels stays displayable.
pub proof fn lemma_fx_mul_unit(a: int, b: int)
    requires
        0 <= a <= FX_ONE,
        0 <= b <= FX_ONE,
    ensures
        0 <= fx_mul(a, b) <= FX_ONE,
{
    assert(0 <= (a * b) / 65536 <= 65536) by (nonlinear_arith)
        requires
            0 <= a <= 65536,
            0 <= b <= 65536,
    ;
}

/// Everything the path evaluator promises of a colour it can return
/// for a given ray and bounce budget: displayable always; black once
/// the budget is spent, on a degenerate ray, or on a hit in a fully
/// absorptive scene; the exact closed-form sky on a miss.
pub open spec fn path_outcome(scene: Scene, r: Ray, depth: int, c: Colour) -> bool {
    &&& in_unit(c)
    &&& depth == 0 ==> c == cblack()
    &&& depth > 0 && squared_spec(r.dir) == 0 ==> c == cblack()
    &&& (depth > 0 && squared_spec(r.dir) > 0 && scene_collide_spec(
        scene.spheres@,
        r,
        T_MIN as int,
        FX_MAX as int,
    ) is None) ==> c == sky_spec(r.dir)
    &&& (depth > 0 && all_absorbent(scene) && scene_collide_spec(
        scene.spheres@,
        r,
        T_MIN as int,
        FX_MAX as int,
    ) is Some) ==> c == cblack()
}

/// The scatter outcome set of a material at a hit: what every draw of
/// the material's randomness guarantees of the attenuation and the
/// scattered ray.
pub open spec fn scatter_outcome(m: Material, r: Ray, col: Collision, att: Colour, sc: Ray) -> bool {
    match m {
        Material::Lambertian(l) => att == l.albedo && sc.orig == col.point && sc.dir.wf()
            && !sc.dir.small_spec(),
        Material::Metal(mt) => att == mt.albedo && sc.orig == col.point && sc.dir.wf()
            && crate::vec3::dot_spec(
            crate::material::reflect_spec(r.dir, col.normal),
            col.normal,
        ) > 0 && (mt.fuzz.i() == 0 ==> sc.dir == crate::material::reflect_spec(r.dir, col.normal)),
        Material::Dielectric(d) => att == cwhite() && sc.orig == col.point && sc.dir.wf() && (
        sc.dir == crate::material::reflect_spec(r.dir, col.normal) || sc.dir
            == crate::material::refract_spec(
            r.dir,
            col.normal,
            crate::material::ratio_spec(d.eta.i(), col.front),
        )),
        Material::Absorbent => false,
    }
}

/// The material may decline to scatter at this hit.
pub open spec fn may_decline(m: Material, r: Ray, col: Collision) -> bool {
    match m {
        Material::Lambertian(_) => false,
        Material::Metal(_) => crate::vec3::dot_spec(
            crate::material::reflect_spec(r.dir, col.normal),
            col.normal,
        ) <= 0,
        Material::Dielectric(_) => false,
        Material::Absorbent => true,
    }
}

/// The recursive outcome set of path evaluation: black on an exhausted
/// budget or a degenerate ray; the closed-form sky on a miss; at a hit,
/// either black where the material may decline, or the attenuated
/// product of a scatter outcome and a recursive outcome of the
/// scattered ray.
pub open spec fn path_tree(scene: Scene, r: Ray, depth: int, c: Colour) -> bool
    decreases depth,
{
    if depth <= 0 {
        c == cblack()
    } else if squared_spec(r.dir) == 0 {
        c == cblack()
    } else {
        match scene_collide_spec(scene.spheres@, r, T_MIN as int, FX_MAX as int) {
            Option::None => c == sky_spec(r.dir),
            Option::Some(col) => {
                ||| (may_decline(col.material, r, col) && c == cblack())
                ||| exists|att: Colour, sc: Ray, rec: Colour|
                    #![auto]
                    {
                        &&& in_unit(att)
                        &&& scatter_outcome(col.material, r, col, att, sc)
                        &&& path_tree(scene, sc, depth - 1, rec)
                        &&& c == cscale(rec, att)
                    }
            },
        }
    }
}

/// Recursive path evaluation: black once the bounce budget is spent or
/// the ray is degenerate; the closed-form sky on a miss; otherwise the
/// hit material's attenuation times the scattered ray's colour, or
/// black when the material declines. The result is always displayable
/// and lies in the recursive outcome set.
#[verifier::rlimit(100)]
pub fn ray_colour(r: Ray, scene: &Scene, depth: u32, rng: &mut rand::rngs::StdRng) -> (c: Colour)
    requires
        scene.ok(),
    ensures
        c.wf(),
        path_outcome(*scene, r, depth as int, c),
        path_tree(*scene, r, depth as int, c),
    decreases depth,
{
    if depth == 0 {
        return Colour::black();
    }
    if r.dir.small() {
        return Colour::black();
    }
    proof {
        lemma_squared_nonneg(r.dir);
    }

    match scene.collide(r, (Fx { v: T_MIN }, Fx { v: FX_MAX })) {
        Some(col) => {
            proof {
                let i = choose|i: int|
                    0 <= i < scene.spheres@.len() && crate::collider::sphere_collide_spec(
                        scene.spheres@[i],
                        r,
                        T_MIN as int,
                        FX_MAX as int,
                    ) == Some(col);
                assert(col.material == scene.spheres@[i].material);
            }
            match col.scatter(r, rng) {
                Some((attenuation, scattered)) => {
                    let rec = ray_colour(scattered, scene, depth - 1, rng);
                    proof {
                        lemma_fx_mul_unit(rec.r.i(), attenuation.r.i());
                        lemma_fx_mul_unit(rec.g.i(), attenuation.g.i());
                        lemma_fx_mul_unit(rec.b.i(), attenuation.b.i());
                        assert(scatter_outcome(col.material, r, col, attenuation, scattered));
                        assert(in_unit(attenuation) && path_tree(
                            *scene,
                            scattered,
                            depth - 1,
                            rec,
                        ));
                    }
                    rec.scale(attenuation)
                },
                None => {
                    proof {
                        assert(may_decline(col.material, r, col));
                    }
                    Colour::black()
                },
            }
        },
        None => sky_colour(r.dir),
    }
}

/// The jitter divisor for an image extent of `n` pixels: one less than
/// the extent, at least one.
pub open spec fn span(n: int) -> int {
    if n > 1 {
        n - 1
    } else {
        1
    }
}

/// The normalized image coordinate for pixel index `i`, jittered by the
/// draw `jx`, over an image extent of `n` pixels.
pub open spec fn jitter_coord(i: int, jx: int, n: int) -> int {
    crate::fx::fx_div(fx_add(clip(i * FX_ONE), jx), clip(span(n) * FX_ONE))
}

/// An admissible colour for one sample of pixel `(i, j)`: some jitter
/// pair and lens draw give a camera ray whose path evaluation can yield
/// `c` under `path_outcome`.
pub open spec fn admissible_sample(rt: Raytracer, i: int, j: int, c: Colour) -> bool {
    exists|jx: int, jy: int, d: Vec3|
        #![auto]
        {
            &&& 0 <= jx < FX_ONE
            &&& 0 <= jy < FX_ONE
            &&& d.wf() && d.z.i() == 0 && 0 <= squared_spec(d) <= FX_ONE
            &&& path_outcome(
                rt.scene,
                crate::camera::cam_ray_spec(
                    rt.camera,
                    jitter_coord(i, jx, rt.width as int),
                    jitter_coord(j, jy, rt.height as int),
                    d,
                ),
                rt.bounce_depth as int,
                c,
            )
            &&& path_tree(
                rt.scene,
                crate::camera::cam_ray_spec(
                    rt.camera,
                    jitter_coord(i, jx, rt.width as int),
                    jitter_coord(j, jy, rt.height as int),
                    d,
                ),
                rt.bounce_depth as int,
                c,
            )
        }
}

/// The left fold of the sample sum, exactly as the accumulator takes it.
pub open spec fn sum_samples(cs: Seq<Colour>) -> Colour
    decreases cs.len(),
{
    if cs.len() == 0 {
        cblack()
    } else {
        cadd(sum_samples(cs.drop_last()), cs.last())
    }
}

/// A resolved colour: every channel averaged over the samples and
/// gamma-corrected by the square root.
pub open spec fn resolve_colour(col: Colour, n: int) -> Colour
    recommends
        n > 0,
{
    Colour {
        r: fxi(resolve_channel(col.r.i(), n)),
        g: fxi(resolve_channel(col.g.i(), n)),
        b: fxi(resolve_channel(col.b.i(), n)),
    }
}

/// An admissible resolved pixel for raster coordinates `(i, j)`: the
/// gamma-corrected average of `samples_per_pixel` admissible samples.
pub open spec fn admissible_pixel(rt: Raytracer, i: int, j: int, c: Colour) -> bool {
    exists|cs: Seq<Colour>|
        #![auto]
        {
            &&& cs.len() == rt.samples_per_pixel
            &&& (forall|t: int| 0 <= t < cs.len() ==> admissible_sample(rt, i, j, cs[t]))
            &&& c == resolve_colour(sum_samples(cs), rt.samples_per_pixel as int)
        }
}

/// A per-pixel accumulator: the running radiance sum and how many
/// samples went into it.
#[derive(Clone, Copy, PartialEq, Eq, Structural, Debug)]
pub struct Pixel {
    pub colour: Colour,
    pub samples: u32,
}

/// The resolved value of one channel: average over the samples, then
/// square-root gamma correction.
pub open spec fn resolve_channel(c: int, n: int) -> int
    recommends
        n > 0,
{
    fx_sqrt(clip(tdiv(c, n)))
}

impl Pixel {
    /// An empty accumulator.
    pub fn empty() -> (p: Pixel)
        ensures
            p.colour == cblack(),
            p.samples == 0,
    {
        Pixel { colour: Colour::black(), samples: 0 }
    }

    /// Every channel of the sum lies between zero and the sample count.
    pub open spec fn bounded(self) -> bool {
        &&& 0 <= self.colour.r.i() <= self.samples * FX_ONE
        &&& 0 <= self.colour.g.i() <= self.samples * FX_ONE
        &&& 0 <= self.colour.b.i() <= self.samples * FX_ONE
    }

    /// Fold one sample into the accumulator.
    pub fn add_sample(&mut self, c: Colour)
        requires
            old(self).samples < u32::MAX,
        ensures
            final(self).colour == cadd(old(self).colour, c),
            final(self).samples == old(self).samples + 1,
            old(self).bounded() && in_unit(c) ==> final(self).bounded(),
    {
        proof {
            let n = old(self).samples as int;
            assert((n + 1) * FX_ONE == n * FX_ONE + FX_ONE) by (nonlinear_arith);
            assert(u32::MAX as int * FX_ONE <= FX_MAX) by (nonlinear_arith);
        }
        self.colour = self.colour.add(c);
        self.samples = self.samples + 1;
    }

    /// Average the accumulated radiance and gamma-correct it with the
    /// square root; a bounded accumulator resolves to a displayable
    /// colour.
    pub fn resolve(&self) -> (c: Colour)
        requires
            self.samples > 0,
        ensures
            c == resolve_colour(self.colour, self.samples as int),
            c.r.i() == resolve_channel(self.colour.r.i(), self.samples as int),
            c.g.i() == resolve_channel(self.colour.g.i(), self.samples as int),
            c.b.i() == resolve_channel(self.colour.b.i(), self.samples as int),
            c.wf(),
            self.bounded() ==> in_unit(c),
    {
        proof {
            if self.bounded() {
                lemma_resolve_unit(self.colour.r.i(), self.samples as int);
                lemma_resolve_unit(self.colour.g.i(), self.samples as int);
                lemma_resolve_unit(self.colour.b.i(), self.samples as int);
            }
        }
        Colour {
            r: self.colour.r.div_n(self.samples).sqrt(),
            g: self.colour.g.div_n(self.samples).sqrt(),
            b: self.colour.b.div_n(self.samples).sqrt(),
        }
    }
}

/// Resolving a bounded channel lands in the displayable band.
proof fn lemma_resolve_unit(c: int, n: int)
    requires
        n > 0,
        0 <= c <= n * FX_ONE,
    ensures
        0 <= resolve_channel(c, n) <= FX_ONE,
{
    assert(0 <= c / n <= 65536) by (nonlinear_arith)
        requires
            n > 0,
            0 <= c <= n * 65536,
    ;
    let m = clip(tdiv(c, n));
    assert(0 <= m <= 65536);
    if m > 0 {
        lemma_isqrt_exists(m * FX_ONE);
        assert(m * 65536 < 65537 * 65537) by (nonlinear_arith)
            requires
                0 <= m <= 65536,
        ;
        lemma_isqrt_below(isqrt(m * FX_ONE), m * FX_ONE, 65537);
    }
}

/// A pixel whose every sample came back black resolves to pure black,
/// whatever the sample count: this is how a fully absorptive scene
/// renders its foreground.
pub proof fn lemma_black_resolves_black(n: int)
    requires
        n > 0,
    ensures
        resolve_channel(0, n) == 0,
{
    assert(0int / n == 0) by (nonlinear_arith)
        requires
            n > 0,
    ;
}

/// The renderer: a scene, a camera, the image dimensions, the sampling
/// and bounce budgets, and the base seed of the per-pixel generators.
/// `shuffle` is a hint to parallel front-ends to visit pixels in a
/// shuffled order (it smooths progress reporting); since every pixel is
/// seeded by its coordinates alone, visiting order never changes the
/// buffer.
#[derive(Clone, Debug)]
pub struct Raytracer {
    pub scene: Scene,
    pub camera: Camera,
    pub width: u32,
    pub height: u32,
    pub samples_per_pixel: u32,
    pub bounce_depth: u32,
    pub shuffle: bool,
    pub seed: u64,
}

impl Raytracer {
    pub fn new(
        scene: Scene,
        camera: Camera,
        width: u32,
        height: u32,
        samples_per_pixel: u32,
        bounce_depth: u32,
    ) -> (r: Raytracer)
        ensures
            r.scene == scene,
            r.camera == camera,
            r.width == width,
            r.height == height,
            r.samples_per_pixel == samples_per_pixel,
            r.bounce_depth == bounce_depth,
            r.shuffle == false,
            r.seed == 0,
    {
        Raytracer {
            scene,
            camera,
            width,
            height,
            samples_per_pixel,
            bounce_depth,
            shuffle: false,
            seed: 0,
        }
    }

    /// Render one pixel: draw `samples_per_pixel` jittered camera rays
    /// from a generator seeded by the pixel's coordinates alone, sum
    /// the path colours, and resolve. The result is the resolve of a
    /// sequence of admissible sample colours for these coordinates, and
    /// a fixed base seed reproduces it exactly, whatever order pixels
    /// are rendered in.
    pub fn render_pixel(&self, i: u32, j: u32) -> (c: Colour)
        requires
            self.scene.ok(),
            self.samples_per_pixel >= 1,
        ensures
            in_unit(c),
            c.wf(),
            admissible_pixel(*self, i as int, j as int, c),
    {
        // mix the raster index through an odd multiplier so that
        // neighbouring pixels get well-separated generator seeds
        let tag = (j as u64).wrapping_mul(self.width as u64).wrapping_add(i as u64);
        let mut rng = rng_from_seed(self.seed ^ tag.wrapping_mul(0x9E3779B97F4A7C15));

        let wd = if self.width > 1 {
            self.width - 1
        } else {
            1
        };
        let hd = if self.height > 1 {
            self.height - 1
        } else {
            1
        };

        let mut acc = Pixel::empty();
        let mut s: u32 = 0;
        let ghost mut cs: Seq<Colour> = Seq::empty();
        while s < self.samples_per_pixel
            invariant
                self.scene.ok(),
                acc.samples == s,
                s <= self.samples_per_pixel,
                acc.bounded(),
                wd as int == span(self.width as int),
                hd as int == span(self.height as int),
                cs.len() == s,
                forall|t: int| 0 <= t < cs.len() ==> admissible_sample(*self, i as int, j as int, #[trigger] cs[t]),
                acc.colour == sum_samples(cs),
            decreases self.samples_per_pixel - s,
        {
            let ju = rand_unit01(&mut rng);
            let u = Fx::whole(i as i64).add(ju).div(Fx::whole(wd as i64));
            let jv = rand_unit01(&mut rng);
            let v = Fx::whole(j as i64).add(jv).div(Fx::whole(hd as i64));
            let ray = self.camera.ray(u, v, &mut rng);
            let col = ray_colour(ray, &self.scene, self.bounce_depth, &mut rng);
            proof {
                let d = choose|d: Vec3|
                    d.wf() && d.z.i() == 0 && 0 <= squared_spec(d) <= FX_ONE && ray
                        == crate::camera::cam_ray_spec(self.camera, u.i(), v.i(), d);
                assert(u.i() == jitter_coord(i as int, ju.i(), self.width as int));
                assert(v.i() == jitter_coord(j as int, jv.i(), self.height as int));
                assert(path_outcome(
                    self.scene,
                    crate::camera::cam_ray_spec(
                        self.camera,
                        jitter_coord(i as int, ju.i(), self.width as int),
                        jitter_coord(j as int, jv.i(), self.height as int),
                        d,
                    ),
                    self.bounce_depth as int,
                    col,
                ));
                assert(path_tree(
                    self.scene,
                    crate::camera::cam_ray_spec(
                        self.camera,
                        jitter_coord(i as int, ju.i(), self.width as int),
                        jitter_coord(j as int, jv.i(), self.height as int),
                        d,
                    ),
                    self.bounce_depth as int,
                    col,
                ));
                assert(admissible_sample(*self, i as int, j as int, col));
                let ghost prev = cs;
                cs = cs.push(col);
                assert(cs.drop_last() =~= prev);
                assert(cs.last() == col);
            }
            acc.add_sample(col);
            s = s + 1;
        }
        let c = acc.resolve();
        proof {
            assert(cs.len() == self.samples_per_pixel && (forall|t: int|
                0 <= t < cs.len() ==> admissible_sample(*self, i as int, j as int, #[trigger] cs[t]))
                && c == resolve_colour(sum_samples(cs), self.samples_per_pixel as int));
            assert(admissible_pixel(*self, i as int, j as int, c));
        }
        c
    }

    /// Render the full image: a row-major buffer of `width * height`
    /// displayable colours, top raster row first — slot `k` holds an
    /// admissible pixel for column `k % width` and camera row
    /// `height - 1 - k / width`.
    #[verifier::rlimit(100)]
    pub fn render(&self) -> (pixels: Vec<Colour>)
        requires
            self.scene.ok(),
            self.samples_per_pixel >= 1,
            self.width * self.height <= usize::MAX,
        ensures
            pixels@.len() == self.width * self.height,
            forall|k: int| 0 <= k < pixels@.len() ==> in_unit(#[trigger] pixels@[k]),
            forall|k: int|
                0 <= k < pixels@.len() ==> admissible_pixel(
                    *self,
                    k % self.width as int,
                    self.height as int - 1 - k / self.width as int,
                    #[trigger] pixels@[k],
                ),
    {
        let mut out: Vec<Colour> = Vec::new();
        let mut row: u32 = self.height;
        while row > 0
            invariant
                self.scene.ok(),
                self.samples_per_pixel >= 1,
                self.width * self.height <= usize::MAX,
                row <= self.height,
                out@.len() == (self.height - row) * self.width,
                forall|k: int| 0 <= k < out@.len() ==> in_unit(#[trigger] out@[k]),
                forall|k: int|
                    0 <= k < out@.len() ==> admissible_pixel(
                        *self,
                        k % self.width as int,
                        self.height as int - 1 - k / self.width as int,
                        #[trigger] out@[k],
                    ),
            decreases row,
        {
            row = row - 1;
            let mut ii: u32 = 0;
            while ii < self.width
                invariant
                    self.scene.ok(),
                    self.samples_per_pixel >= 1,
                    self.width * self.height <= usize::MAX,
                    row < self.height,
                    ii <= self.width,
                    out@.len() == (self.height - row - 1) * self.width + ii,
                    forall|k: int| 0 <= k < out@.len() ==> in_unit(#[trigger] out@[k]),
                    forall|k: int|
                        0 <= k < out@.len() ==> admissible_pixel(
                            *self,
                            k % self.width as int,
                            self.height as int - 1 - k / self.width as int,
                            #[trigger] out@[k],
                        ),
                decreases self.width - ii,
            {
                proof {
                    lemma_raster_progress(
                        self.height as int,
                        self.width as int,
                        row as int,
                        ii as int,
                    );
                    lemma_raster_index(
                        self.height as int,
                        self.width as int,
                        row as int,
                        ii as int,
                    );
                }
                let p = self.render_pixel(ii, row);
                out.push(p);
                ii = ii + 1;
            }
            proof {
                assert((self.height - row - 1) * self.width + self.width == (self.height - row)
                    * self.width) by (nonlinear_arith);
            }
        }
        proof {
            assert(self.height as int * self.width as int == self.width as int
                * self.height as int) by (nonlinear_arith);
        }
        out
    }
}

/// A raster slot decomposes back into its column and row.
proof fn lemma_raster_index(h: int, w: int, row: int, ii: int)
    requires
        0 <= row < h,
        0 <= ii < w,
    ensures
        ((h - row - 1) * w + ii) % w == ii,
        ((h - row - 1) * w + ii) / w == h - row - 1,
{
    let k = (h - row - 1) * w + ii;
    assert(k % w == ii && k / w == h - row - 1) by (nonlinear_arith)
        requires
            k == (h - row - 1) * w + ii,
            0 <= row < h,
            0 <= ii < w,
    ;
}

/// The raster scan never outgrows the buffer: the pixels written before
/// position `(row, ii)` number fewer than `width * height`.
proof fn lemma_raster_progress(h: int, w: int, row: int, ii: int)
    requires
        0 <= row < h,
        0 <= ii < w,
    ensures
        (h - row - 1) * w + ii < h * w,
        0 <= (h - row - 1) * w + ii,
{
    assert((h - row - 1) * w + ii < h * w && 0 <= (h - row - 1) * w + ii) by (nonlinear_arith)
        requires
            0 <= row < h,
            0 <= ii < w,
    ;
}

} // verus!
