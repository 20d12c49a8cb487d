//! Three-component vectors over fixed-point scalars.
//!
//! Every operation's contract pins the returned components exactly, via
//! the spec mirrors `vadd`, `vsub`, `vneg`, `vscale`, `dot_spec`,
//! `cross_spec` and friends.
use vstd::prelude::*;
use crate::fx::Fx;
use crate::fx::FX_ONE;
use crate::fx::clip;
use crate::fx::fx_add;
use crate::fx::fx_div;
use crate::fx::fx_mul;
use crate::fx::fx_sqrt;
use crate::fx::iabs;
use crate::fx::isqrt;
use crate::fx::lemma_isqrt_exists;
use crate::fx::tdiv;

verus! {

/// A point, direction, or colour triple in fixed-point coordinates.
#[derive(Clone, Copy, PartialEq, Eq, Structural, Debug)]
pub struct Vec3 {
    pub x: Fx,
    pub y: Fx,
    pub z: Fx,
}

/// A scalar from an in-band mathematical integer.
pub open spec fn fxi(i: int) -> Fx {
    Fx { v: i as i64 }
}

/// Componentwise sum.
pub open spec fn vadd(a: Vec3, b: Vec3) -> Vec3 {
    Vec3 {
        x: fxi(fx_add(a.x.i(), b.x.i())),
        y: fxi(fx_add(a.y.i(), b.y.i())),
        z: fxi(fx_add(a.z.i(), b.z.i())),
    }
}

/// Componentwise difference.
pub open spec fn vsub(a: Vec3, b: Vec3) -> Vec3 {
    Vec3 {
        x: fxi(clip(a.x.i() - b.x.i())),
        y: fxi(clip(a.y.i() - b.y.i())),
        z: fxi(clip(a.z.i() - b.z.i())),
    }
}

/// Componentwise negation.
pub open spec fn vneg(a: Vec3) -> Vec3 {
    Vec3 { x: fxi(clip(-a.x.i())), y: fxi(clip(-a.y.i())), z: fxi(clip(-a.z.i())) }
}

/// Scaling by a scalar.
pub open spec fn vscale(a: Vec3, s: int) -> Vec3 {
    Vec3 {
        x: fxi(fx_mul(a.x.i(), s)),
        y: fxi(fx_mul(a.y.i(), s)),
        z: fxi(fx_mul(a.z.i(), s)),
    }
}

/// Division by a scalar.
pub open spec fn vdiv(a: Vec3, s: int) -> Vec3
    recommends
        s != 0,
{
    Vec3 {
        x: fxi(fx_div(a.x.i(), s)),
        y: fxi(fx_div(a.y.i(), s)),
        z: fxi(fx_div(a.z.i(), s)),
    }
}

/// Dot product, clamped once per partial sum.
pub open spec fn dot_spec(a: Vec3, b: Vec3) -> int {
    fx_add(
        fx_add(fx_mul(a.x.i(), b.x.i()), fx_mul(a.y.i(), b.y.i())),
        fx_mul(a.z.i(), b.z.i()),
    )
}

/// Squared length.
pub open spec fn squared_spec(a: Vec3) -> int {
    dot_spec(a, a)
}

/// Length: fixed-point square root of the squared length.
pub open spec fn length_spec(a: Vec3) -> int {
    fx_sqrt(squared_spec(a))
}

/// Normalization: division by the length.
pub open spec fn unit_spec(a: Vec3) -> Vec3
    recommends
        squared_spec(a) > 0,
{
    vdiv(a, length_spec(a))
}

/// Cross product.
pub open spec fn cross_spec(a: Vec3, b: Vec3) -> Vec3 {
    Vec3 {
        x: fxi(clip(fx_mul(a.y.i(), b.z.i()) - fx_mul(a.z.i(), b.y.i()))),
        y: fxi(clip(fx_mul(a.z.i(), b.x.i()) - fx_mul(a.x.i(), b.z.i()))),
        z: fxi(clip(fx_mul(a.x.i(), b.y.i()) - fx_mul(a.y.i(), b.x.i()))),
    }
}

impl Vec3 {
    /// All three components are in the representable band.
    pub open spec fn wf(self) -> bool {
        self.x.wf() && self.y.wf() && self.z.wf()
    }

    pub fn new(x: Fx, y: Fx, z: Fx) -> (r: Vec3)
        ensures
            r == (Vec3 { x, y, z }),
    {
        Vec3 { x, y, z }
    }

    /// The origin vector.
    pub fn zero() -> (r: Vec3)
        ensures
            r == (Vec3 { x: fxi(0), y: fxi(0), z: fxi(0) }),
            r.wf(),
    {
        Vec3 { x: Fx::zero(), y: Fx::zero(), z: Fx::zero() }
    }

    /// Build a vector from whole-number coordinates.
    pub fn whole(x: i64, y: i64, z: i64) -> (r: Vec3)
        ensures
            r == (Vec3 {
                x: fxi(clip(x * FX_ONE)),
                y: fxi(clip(y * FX_ONE)),
                z: fxi(clip(z * FX_ONE)),
            }),
            r.wf(),
    {
        Vec3 { x: Fx::whole(x), y: Fx::whole(y), z: Fx::whole(z) }
    }

    pub fn add(self, rhs: Vec3) -> (r: Vec3)
        ensures
            r == vadd(self, rhs),
            r.wf(),
    {
        Vec3 { x: self.x.add(rhs.x), y: self.y.add(rhs.y), z: self.z.add(rhs.z) }
    }

    pub fn sub(self, rhs: Vec3) -> (r: Vec3)
        ensures
            r == vsub(self, rhs),
            r.wf(),
    {
        Vec3 { x: self.x.sub(rhs.x), y: self.y.sub(rhs.y), z: self.z.sub(rhs.z) }
    }

    pub fn neg(self) -> (r: Vec3)
        ensures
            r == vneg(self),
            r.wf(),
    {
        Vec3 { x: self.x.neg(), y: self.y.neg(), z: self.z.neg() }
    }

    /// Scale by a scalar.
    pub fn mul(self, rhs: Fx) -> (r: Vec3)
        ensures
            r == vscale(self, rhs.i()),
            r.wf(),
    {
        Vec3 { x: self.x.mul(rhs), y: self.y.mul(rhs), z: self.z.mul(rhs) }
    }

    /// Divide by a scalar.
    pub fn div(self, rhs: Fx) -> (r: Vec3)
        requires
            rhs.i() != 0,
        ensures
            r == vdiv(self, rhs.i()),
            r.wf(),
    {
        Vec3 { x: self.x.div(rhs), y: self.y.div(rhs), z: self.z.div(rhs) }
    }

    pub fn dot(self, rhs: Vec3) -> (r: Fx)
        ensures
            r.i() == dot_spec(self, rhs),
            r.wf(),
    {
        self.x.mul(rhs.x).add(self.y.mul(rhs.y)).add(self.z.mul(rhs.z))
    }

    pub fn cross(self, rhs: Vec3) -> (r: Vec3)
        ensures
            r == cross_spec(self, rhs),
            r.wf(),
    {
        Vec3 {
            x: self.y.mul(rhs.z).sub(self.z.mul(rhs.y)),
            y: self.z.mul(rhs.x).sub(self.x.mul(rhs.z)),
            z: self.x.mul(rhs.y).sub(self.y.mul(rhs.x)),
        }
    }

    /// Squared length; never negative.
    pub fn squared(self) -> (r: Fx)
        ensures
            r.i() == squared_spec(self),
            r.wf(),
            r.v >= 0,
    {
        proof {
            lemma_squared_nonneg(self);
        }
        self.dot(self)
    }

    pub fn length(self) -> (r: Fx)
        ensures
            r.i() == length_spec(self),
            r.wf(),
            r.v >= 0,
    {
        self.squared().sqrt()
    }

    /// The vector is too close to zero to carry a direction.
    pub open spec fn small_spec(self) -> bool {
        squared_spec(self) == 0
    }

    pub fn small(self) -> (r: bool)
        ensures
            r == self.small_spec(),
    {
        self.squared().v == 0
    }

    /// Normalize; the result is pinned to `unit_spec`, the componentwise
    /// division by the fixed-point length.
    pub fn unit(self) -> (r: Vec3)
        requires
            squared_spec(self) > 0,
        ensures
            r == unit_spec(self),
            r.wf(),
    {
        let l = self.length();
        proof {
            lemma_length_pos(self);
        }
        self.div(l)
    }

    /// Flip the vector if it points away from the axis, so that its dot
    /// product with the axis is never negative.
    pub fn ensure_in_hemisphere(self, axis: Vec3) -> (r: Vec3)
        requires
            self.wf(),
        ensures
            r == (if dot_spec(self, axis) > 0 {
                self
            } else {
                vneg(self)
            }),
            dot_spec(r, axis) >= 0,
            r.wf(),
    {
        let d = self.dot(axis);
        if d.v > 0 {
            self
        } else {
            proof {
                lemma_dot_neg_left(self, axis);
            }
            self.neg()
        }
    }
}

impl Vec3 {
    /// Sample a non-degenerate vector inside the unit ball: rejection
    /// draws from the cube, with a fixed unit axis as the (vanishingly
    /// unlikely) fallback once the draw budget is spent.
    pub fn random_in_unit_sphere(rng: &mut rand::rngs::StdRng) -> (r: Vec3)
        ensures
            r.wf(),
            0 < squared_spec(r) <= FX_ONE,
    {
        let mut tries: u32 = 0;
        while tries < 32
            invariant
                true,
            decreases 32 - tries,
        {
            let v = Vec3 {
                x: crate::rng::rand_symmetric(rng),
                y: crate::rng::rand_symmetric(rng),
                z: crate::rng::rand_symmetric(rng),
            };
            let sq = v.squared();
            if 0 < sq.v && sq.v <= FX_ONE {
                return v;
            }
            tries = tries + 1;
        }
        let axis = Vec3 { x: Fx::one(), y: Fx::zero(), z: Fx::zero() };
        proof {
            lemma_unit_axis_squared();
        }
        axis
    }

    /// Sample a direction on (close to) the unit sphere's surface: a
    /// draw from the spherical shell between radius one half and one,
    /// normalized. The shell keeps the direction uniform while leaving
    /// the normalization enough magnitude to stay precise.
    pub fn random_unit(rng: &mut rand::rngs::StdRng) -> (r: Vec3)
        ensures
            r.wf(),
            is_unit_draw(r),
    {
        let mut tries: u32 = 0;
        while tries < 32
            invariant
                true,
            decreases 32 - tries,
        {
            let v = Vec3 {
                x: crate::rng::rand_symmetric(rng),
                y: crate::rng::rand_symmetric(rng),
                z: crate::rng::rand_symmetric(rng),
            };
            let sq = v.squared();
            if 16384 <= sq.v && sq.v <= FX_ONE {
                let u = v.unit();
                proof {
                    assert(v.wf() && 16384 <= squared_spec(v) <= FX_ONE && u == unit_spec(v));
                }
                return u;
            }
            tries = tries + 1;
        }
        let axis = Vec3 { x: Fx::one(), y: Fx::zero(), z: Fx::zero() };
        proof {
            lemma_unit_axis_squared();
            lemma_axis_unit_is_axis();
        }
        axis.unit()
    }

    /// Sample a point in the unit disk of the xy-plane (for lens jitter).
    pub fn random_in_unit_disk(rng: &mut rand::rngs::StdRng) -> (r: Vec3)
        ensures
            r.wf(),
            r.z.i() == 0,
            0 <= squared_spec(r) <= FX_ONE,
    {
        let mut tries: u32 = 0;
        while tries < 32
            invariant
                true,
            decreases 32 - tries,
        {
            let v = Vec3 {
                x: crate::rng::rand_symmetric(rng),
                y: crate::rng::rand_symmetric(rng),
                z: Fx::zero(),
            };
            let sq = v.squared();
            if sq.v <= FX_ONE {
                proof {
                    lemma_squared_nonneg(v);
                }
                return v;
            }
            tries = tries + 1;
        }
        let o = Vec3::zero();
        proof {
            lemma_squared_nonneg(o);
            lemma_fx_mul_zero();
        }
        o
    }
}

/// The vector is the normalization of some draw from the spherical
/// shell between radius one half and one: the outcome set of
/// `Vec3::random_unit`.
pub open spec fn is_unit_draw(u: Vec3) -> bool {
    exists|v: Vec3|
        #![auto]
        v.wf() && 16384 <= squared_spec(v) <= FX_ONE && u == unit_spec(v)
}

/// Normalizing the unit x-axis returns it unchanged.
proof fn lemma_axis_unit_is_axis()
    ensures
        unit_spec(Vec3 { x: Fx { v: FX_ONE }, y: Fx { v: 0 }, z: Fx { v: 0 } }) == (Vec3 {
            x: Fx { v: FX_ONE },
            y: Fx { v: 0 },
            z: Fx { v: 0 },
        }),
{
    let a = Vec3 { x: Fx { v: FX_ONE }, y: Fx { v: 0 }, z: Fx { v: 0 } };
    lemma_unit_axis_squared();
    crate::fx::lemma_fx_sqrt_one();
    assert(length_spec(a) == FX_ONE);
    assert(iabs(FX_ONE as int * FX_ONE) == 0x1_0000_0000 && 0x1_0000_0000int / 65536 == 65536)
        by (nonlinear_arith);
    assert(fx_div(FX_ONE as int, FX_ONE as int) == FX_ONE);
    assert(iabs(0 * FX_ONE) == 0 && 0int / 65536 == 0) by (nonlinear_arith);
    assert(fx_div(0, FX_ONE as int) == 0);
}

/// The unit x-axis has squared length exactly one.
pub proof fn lemma_unit_axis_squared()
    ensures
        squared_spec(Vec3 { x: Fx { v: FX_ONE }, y: Fx { v: 0 }, z: Fx { v: 0 } }) == FX_ONE,
{
    let a = Vec3 { x: Fx { v: FX_ONE }, y: Fx { v: 0 }, z: Fx { v: 0 } };
    assert(FX_ONE as int * FX_ONE as int == 0x1_0000_0000) by (nonlinear_arith);
    assert(0x1_0000_0000int / 65536 == 65536) by (nonlinear_arith);
    assert(fx_mul(FX_ONE as int, FX_ONE as int) == FX_ONE);
    lemma_fx_mul_zero();
}

/// The clamped product of zeros is zero.
proof fn lemma_fx_mul_zero()
    ensures
        fx_mul(0, 0) == 0,
{
    assert(0int / 65536 == 0) by (nonlinear_arith);
}

/// Division facts for one normalized component: `q` is the truncated
/// quotient of `m * 65536` by `L`, bounded above and below in product
/// form.
proof fn lemma_unit_component(m: int, ll: int)
    requires
        0 <= m,
        65536 <= ll,
        m <= ll + 257,
    ensures
        ({
            let q = tdiv(m * 65536, ll);
            &&& 0 <= q <= 65536 + 257
            &&& q * q * (ll * ll) <= m * m * (65536 * 65536)
            &&& q * q * (ll * ll) >= m * m * (65536 * 65536) - 131072 * (m * ll)
        }),
{
    let p = m * 65536;
    let q = tdiv(p, ll);
    assert(p >= 0);
    assert(q == p / ll);
    assert(q * ll <= p < q * ll + ll && q >= 0) by (nonlinear_arith)
        requires
            p >= 0,
            ll > 0,
            q == p / ll,
    ;
    assert(q <= 65536 + 257) by (nonlinear_arith)
        requires
            q * ll <= p,
            p == m * 65536,
            m <= ll + 257,
            65536 <= ll,
            q >= 0,
    ;
    assert(q * q * (ll * ll) <= p * p) by (nonlinear_arith)
        requires
            0 <= q,
            0 <= ll,
            q * ll <= p,
    ;
    assert(p * p == m * m * (65536 * 65536)) by (nonlinear_arith)
        requires
            p == m * 65536,
    ;
    assert(q * q * (ll * ll) >= p * p - 2 * p * ll) by (nonlinear_arith)
        requires
            0 <= q,
            0 <= p,
            0 <= ll,
            q * ll <= p,
            p < q * ll + ll,
    ;
    assert(2 * p * ll == 131072 * (m * ll)) by (nonlinear_arith)
        requires
            p == m * 65536,
    ;
}

/// Truncated division of a non-negative square by the unit scale stays
/// within one scale step of the exact quotient.
proof fn lemma_square_div_nonneg(q: int, e: int)
    requires
        0 <= q <= 65536 + 257,
        e == tdiv(q * q, 65536),
    ensures
        0 <= e <= 65536 + 515,
        65536 * e <= q * q,
        65536 * e >= q * q - 65536 + 1,
{
    let p = q * q;
    assert(p >= 0) by (nonlinear_arith)
        requires
            p == q * q,
    ;
    assert(e == p / 65536);
    assert(65536 * e <= p < 65536 * e + 65536 && e >= 0) by (nonlinear_arith)
        requires
            p >= 0,
            e == p / 65536,
    ;
    assert(p <= (65536 + 257) * (65536 + 257)) by (nonlinear_arith)
        requires
            p == q * q,
            0 <= q <= 65536 + 257,
    ;
    assert(e <= 65536 + 515) by (nonlinear_arith)
        requires
            65536 * e <= p,
            p <= (65536 + 257) * (65536 + 257),
    ;
}

/// A square's clamped scaled quotient brackets the plain square, as
/// long as the quotient does not saturate.
proof fn lemma_square_div_band(a: int)
    requires
        fx_mul(a, a) < crate::fx::FX_MAX,
    ensures
        65536 * fx_mul(a, a) <= iabs(a) * iabs(a) <= 65536 * fx_mul(a, a) + 65535,
{
    let m = iabs(a);
    assert(m == a || m == -a);
    assert(a * a == m * m) by (nonlinear_arith)
        requires
            m == a || m == -a,
    ;
    assert(m * m >= 0) by (nonlinear_arith);
    let t = tdiv(a * a, 65536);
    assert(t == (m * m) / 65536);
    assert(65536 * t <= m * m < 65536 * t + 65536 && t >= 0) by (nonlinear_arith)
        requires
            m * m >= 0,
            t == (m * m) / 65536,
    ;
    assert(fx_mul(a, a) == clip(t));
    assert(clip(t) == t);
}

/// A component magnitude is at most 257 steps above the length scale.
proof fn lemma_component_mag(m: int, t: int, q_: int, ll: int)
    requires
        0 <= m,
        m * m <= 65536 * t + 65535,
        t <= q_,
        q_ * 65536 < (ll + 1) * (ll + 1),
        65536 <= ll,
    ensures
        m <= ll + 257,
        m * ll <= ll * ll + 257 * ll,
    {
    assert(65536 * t <= 65536 * q_);
    assert(m * m < (ll + 1) * (ll + 1) + 65536);
    assert(m <= ll + 257) by (nonlinear_arith)
        requires
            0 <= m,
            65536 <= ll,
            m * m < (ll + 1) * (ll + 1) + 65536,
    ;
    assert(m * ll <= ll * ll + 257 * ll) by (nonlinear_arith)
        requires
            m <= ll + 257,
            ll >= 0,
    ;
}

/// The truncated quotient of a signed scaled component has the
/// magnitude of the unsigned quotient.
proof fn lemma_div_signed(a: int, ll: int)
    requires
        ll > 0,
    ensures
        iabs(tdiv(a * 65536, ll)) == tdiv(iabs(a) * 65536, ll),
{
    let m = iabs(a);
    if a >= 0 {
        assert(m == a);
        assert(a * 65536 >= 0);
        assert(tdiv(m * 65536, ll) >= 0) by (nonlinear_arith)
            requires
                m * 65536 >= 0,
                ll > 0,
                tdiv(m * 65536, ll) == (m * 65536) / ll,
        ;
    } else {
        assert(m == -a);
        assert(a * 65536 < 0);
        assert(m * 65536 == iabs(a * 65536));
        assert(tdiv(m * 65536, ll) >= 0) by (nonlinear_arith)
            requires
                m * 65536 >= 0,
                ll > 0,
                tdiv(m * 65536, ll) == (m * 65536) / ll,
        ;
    }
}

/// Normalization yields a vector of length one, to within the
/// representation's precision: for any in-band vector of length at
/// least one, the normalized vector's squared length and length both
/// lie within 16 raw steps (about 2.5e-4) of one.
pub proof fn lemma_unit_length(v: Vec3)
    requires
        v.wf(),
        FX_ONE <= squared_spec(v) < crate::fx::FX_MAX,
    ensures
        FX_ONE - 16 <= squared_spec(unit_spec(v)) <= FX_ONE + 16,
        FX_ONE - 16 <= length_spec(unit_spec(v)) <= FX_ONE + 16,
{
    let q_ = squared_spec(v);
    let t1 = fx_mul(v.x.i(), v.x.i());
    let t2 = fx_mul(v.y.i(), v.y.i());
    let t3 = fx_mul(v.z.i(), v.z.i());
    lemma_fx_mul_self_nonneg(v.x.i());
    lemma_fx_mul_self_nonneg(v.y.i());
    lemma_fx_mul_self_nonneg(v.z.i());
    assert(q_ == t1 + t2 + t3);

    let m1 = iabs(v.x.i());
    let m2 = iabs(v.y.i());
    let m3 = iabs(v.z.i());
    lemma_square_div_band(v.x.i());
    lemma_square_div_band(v.y.i());
    lemma_square_div_band(v.z.i());

    let xx = q_ * 65536;
    lemma_isqrt_exists(xx);
    let ll = isqrt(xx);
    assert(ll * ll <= xx < (ll + 1) * (ll + 1));
    assert(65536 * 65536 <= xx);
    crate::fx::lemma_isqrt_le(65536, ll, xx);
    assert(ll >= 65536);
    assert(xx <= ll * ll + 2 * ll) by (nonlinear_arith)
        requires
            xx < (ll + 1) * (ll + 1),
    ;

    lemma_component_mag(m1, t1, q_, ll);
    lemma_component_mag(m2, t2, q_, ll);
    lemma_component_mag(m3, t3, q_, ll);

    lemma_unit_component(m1, ll);
    lemma_unit_component(m2, ll);
    lemma_unit_component(m3, ll);
    let q1 = tdiv(m1 * 65536, ll);
    let q2 = tdiv(m2 * 65536, ll);
    let q3 = tdiv(m3 * 65536, ll);

    let u = unit_spec(v);
    assert(length_spec(v) == ll);
    lemma_div_signed(v.x.i(), ll);
    lemma_div_signed(v.y.i(), ll);
    lemma_div_signed(v.z.i(), ll);
    assert(u.x.i() == clip(tdiv(v.x.i() * 65536, ll)));
    assert(clip(tdiv(v.x.i() * 65536, ll)) == tdiv(v.x.i() * 65536, ll));
    assert(clip(tdiv(v.y.i() * 65536, ll)) == tdiv(v.y.i() * 65536, ll));
    assert(clip(tdiv(v.z.i() * 65536, ll)) == tdiv(v.z.i() * 65536, ll));
    assert(u.x.i() * u.x.i() == q1 * q1) by (nonlinear_arith)
        requires
            u.x.i() == q1 || u.x.i() == -q1,
    ;
    assert(u.y.i() * u.y.i() == q2 * q2) by (nonlinear_arith)
        requires
            u.y.i() == q2 || u.y.i() == -q2,
    ;
    assert(u.z.i() * u.z.i() == q3 * q3) by (nonlinear_arith)
        requires
            u.z.i() == q3 || u.z.i() == -q3,
    ;

    let a2 = ll * ll;
    let sq = q1 * q1 + q2 * q2 + q3 * q3;
    let mm = m1 * m1 + m2 * m2 + m3 * m3;
    assert(sq * a2 == q1 * q1 * a2 + q2 * q2 * a2 + q3 * q3 * a2) by (nonlinear_arith)
        requires
            sq == q1 * q1 + q2 * q2 + q3 * q3,
    ;
    assert(mm * (65536 * 65536) == m1 * m1 * (65536 * 65536) + m2 * m2 * (65536 * 65536) + m3 * m3
        * (65536 * 65536)) by (nonlinear_arith)
        requires
            mm == m1 * m1 + m2 * m2 + m3 * m3,
    ;
    assert(sq * a2 <= mm * (65536 * 65536));
    assert(mm <= xx + 196608);
    assert(mm * (65536 * 65536) <= (xx + 196608) * (65536 * 65536)) by (nonlinear_arith)
        requires
            mm <= xx + 196608,
    ;
    assert((xx + 196608) * (65536 * 65536) <= (a2 + 2 * ll + 196608) * 4294967296)
        by (nonlinear_arith)
        requires
            xx <= a2 + 2 * ll,
    ;
    assert((a2 + 2 * ll + 196608) * 4294967296 <= 4295294976 * a2) by (nonlinear_arith)
        requires
            a2 == ll * ll,
            ll >= 65536,
    ;
    assert(a2 > 0) by (nonlinear_arith)
        requires
            a2 == ll * ll,
            ll >= 65536,
    ;
    assert(sq <= 4295294976) by (nonlinear_arith)
        requires
            sq * a2 <= 4295294976 * a2,
            a2 > 0,
    ;

    assert(sq * a2 >= mm * (65536 * 65536) - 131072 * (m1 * ll) - 131072 * (m2 * ll) - 131072 * (m3
        * ll));
    assert(mm >= xx);
    assert(mm * (65536 * 65536) >= xx * (65536 * 65536)) by (nonlinear_arith)
        requires
            mm >= xx,
    ;
    assert(xx * (65536 * 65536) >= a2 * 4294967296) by (nonlinear_arith)
        requires
            xx >= a2,
    ;
    assert(m1 * ll + m2 * ll + m3 * ll <= 3 * a2 + 771 * ll) by {
        assert(m1 * ll <= ll * ll + 257 * ll);
        assert(m2 * ll <= ll * ll + 257 * ll);
        assert(m3 * ll <= ll * ll + 257 * ll);
    }
    assert(sq * a2 >= a2 * 4294967296 - 131072 * (3 * a2 + 771 * ll));
    assert(a2 * 4294967296 - 131072 * (3 * a2 + 771 * ll) >= 4294508544 * a2) by (nonlinear_arith)
        requires
            a2 == ll * ll,
            ll >= 65536,
    ;
    assert(sq >= 4294508544) by (nonlinear_arith)
        requires
            sq * a2 >= 4294508544 * a2,
            a2 > 0,
    ;

    let e1 = tdiv(u.x.i() * u.x.i(), 65536);
    let e2 = tdiv(u.y.i() * u.y.i(), 65536);
    let e3 = tdiv(u.z.i() * u.z.i(), 65536);
    lemma_square_div_nonneg(q1, e1);
    lemma_square_div_nonneg(q2, e2);
    lemma_square_div_nonneg(q3, e3);
    assert(fx_mul(u.x.i(), u.x.i()) == e1);
    assert(fx_mul(u.y.i(), u.y.i()) == e2);
    assert(fx_mul(u.z.i(), u.z.i()) == e3);
    let ee = e1 + e2 + e3;
    assert(squared_spec(u) == ee);
    assert(65536 * ee <= sq);
    assert(65536 * ee >= sq - 196608);
    assert(ee <= 65541);
    assert(ee >= 65526);

    assert(length_spec(u) == fx_sqrt(ee));
    lemma_isqrt_exists(ee * 65536);
    let lu = isqrt(ee * 65536);
    assert(65530 * 65530 <= ee * 65536) by (nonlinear_arith)
        requires
            ee >= 65526,
    ;
    crate::fx::lemma_isqrt_le(65530, lu, ee * 65536);
    assert(ee * 65536 < 65539 * 65539) by (nonlinear_arith)
        requires
            ee <= 65541,
    ;
    crate::fx::lemma_isqrt_below(lu, ee * 65536, 65539);
}

/// A squared length is never negative.
pub proof fn lemma_squared_nonneg(a: Vec3)
    ensures
        squared_spec(a) >= 0,
{
    lemma_fx_mul_self_nonneg(a.x.i());
    lemma_fx_mul_self_nonneg(a.y.i());
    lemma_fx_mul_self_nonneg(a.z.i());
}

/// A clamped square is never negative.
proof fn lemma_fx_mul_self_nonneg(a: int)
    ensures
        fx_mul(a, a) >= 0,
{
    assert(a * a >= 0) by (nonlinear_arith);
    assert(tdiv(a * a, FX_ONE as int) >= 0);
}

/// A vector with positive squared length has positive length.
pub proof fn lemma_length_pos(a: Vec3)
    requires
        squared_spec(a) > 0,
    ensures
        length_spec(a) > 0,
{
    let x = squared_spec(a) * FX_ONE;
    assert(x >= FX_ONE);
    lemma_isqrt_exists(x);
    if isqrt(x) == 0 {
        assert(x < 1);
    }
}

/// Negating the left argument negates a dot product.
pub proof fn lemma_dot_neg_left(a: Vec3, b: Vec3)
    requires
        a.wf(),
    ensures
        dot_spec(vneg(a), b) == -dot_spec(a, b),
{
    lemma_fx_mul_neg(a.x.i(), b.x.i());
    lemma_fx_mul_neg(a.y.i(), b.y.i());
    lemma_fx_mul_neg(a.z.i(), b.z.i());
}

/// Negating the right argument negates a dot product.
pub proof fn lemma_dot_neg_right(a: Vec3, b: Vec3)
    requires
        b.wf(),
    ensures
        dot_spec(a, vneg(b)) == -dot_spec(a, b),
{
    lemma_fx_mul_neg_right(a.x.i(), b.x.i());
    lemma_fx_mul_neg_right(a.y.i(), b.y.i());
    lemma_fx_mul_neg_right(a.z.i(), b.z.i());
}

/// Clamped multiplication is odd in its second argument, for in-band
/// arguments.
pub proof fn lemma_fx_mul_neg_right(a: int, b: int)
    requires
        -crate::fx::FX_MAX <= b <= crate::fx::FX_MAX,
    ensures
        fx_mul(a, clip(-b)) == -fx_mul(a, b),
{
    assert(a * (-b) == -(a * b)) by (nonlinear_arith);
}

/// Clamped multiplication is odd in its first argument, for in-band
/// arguments.
pub proof fn lemma_fx_mul_neg(a: int, b: int)
    requires
        -crate::fx::FX_MAX <= a <= crate::fx::FX_MAX,
    ensures
        fx_mul(clip(-a), b) == -fx_mul(a, b),
{
    assert((-a) * b == -(a * b)) by (nonlinear_arith);
}

} // verus!
