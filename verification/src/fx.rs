//! Fixed-point scalar arithmetic.
//!
//! A scalar is stored as a signed count of 1/65536 steps. Every operation
//! computes its exact result in 128-bit arithmetic and then clamps it into
//! the representable band `[-FX_MAX, FX_MAX]`, so no operation panics and
//! every contract pins the returned raw value exactly.
use vstd::prelude::*;

verus! {

/// Raw steps per whole unit: a scalar holds `x * FX_ONE` raw steps.
pub const FX_ONE: i64 = 65536;

/// Largest raw magnitude a scalar can hold; results are clamped into
/// `[-FX_MAX, FX_MAX]`.
pub const FX_MAX: i64 = 0x1_0000_0000_0000;

/// A signed fixed-point scalar with sixteen fractional bits.
#[derive(Clone, Copy, PartialEq, Eq, Structural, Debug)]
pub struct Fx {
    pub v: i64,
}

/// Magnitude of a mathematical integer.
pub open spec fn iabs(a: int) -> int {
    if a >= 0 {
        a
    } else {
        -a
    }
}

/// Truncating (round-toward-zero) division: the semantics of Rust's `/`
/// on machine integers.
pub open spec fn tdiv(a: int, b: int) -> int
    recommends
        b != 0,
{
    if (a >= 0) == (b >= 0) {
        iabs(a) / iabs(b)
    } else {
        -(iabs(a) / iabs(b))
    }
}

/// Clamp a mathematical integer into the representable band.
pub open spec fn clip(x: int) -> int {
    if x > FX_MAX {
        FX_MAX as int
    } else if x < -FX_MAX {
        -FX_MAX as int
    } else {
        x
    }
}

/// Clamp an exact 128-bit result into the representable band.
fn clip_i128(x: i128) -> (r: i64)
    ensures
        r == clip(x as int),
{
    if x > FX_MAX as i128 {
        FX_MAX
    } else if x < -(FX_MAX as i128) {
        -FX_MAX
    } else {
        x as i64
    }
}

impl Fx {
    /// The raw step count as a mathematical integer.
    pub open spec fn i(self) -> int {
        self.v as int
    }

    /// The scalar is inside the representable band.
    pub open spec fn wf(self) -> bool {
        -FX_MAX <= self.v <= FX_MAX
    }

    /// Build a scalar from a raw step count, clamping it into the band.
    pub fn raw(v: i64) -> (r: Fx)
        ensures
            r.i() == clip(v as int),
            r.wf(),
    {
        Fx { v: clip_i128(v as i128) }
    }

    /// Build the scalar for a whole number.
    pub fn whole(n: i64) -> (r: Fx)
        ensures
            r.i() == clip(n * FX_ONE),
            r.wf(),
    {
        Fx { v: clip_i128(n as i128 * FX_ONE as i128) }
    }

    /// The zero scalar.
    pub fn zero() -> (r: Fx)
        ensures
            r.i() == 0,
            r.wf(),
    {
        Fx { v: 0 }
    }

    /// The scalar for one.
    pub fn one() -> (r: Fx)
        ensures
            r.i() == FX_ONE,
            r.wf(),
    {
        Fx { v: FX_ONE }
    }

    /// Clamped addition.
    pub fn add(self, o: Fx) -> (r: Fx)
        ensures
            r.i() == clip(self.i() + o.i()),
            r.wf(),
    {
        Fx { v: clip_i128(self.v as i128 + o.v as i128) }
    }

    /// Clamped subtraction.
    pub fn sub(self, o: Fx) -> (r: Fx)
        ensures
            r.i() == clip(self.i() - o.i()),
            r.wf(),
    {
        Fx { v: clip_i128(self.v as i128 - o.v as i128) }
    }

    /// Clamped negation.
    pub fn neg(self) -> (r: Fx)
        ensures
            r.i() == clip(-self.i()),
            r.wf(),
    {
        Fx { v: clip_i128(-(self.v as i128)) }
    }

    /// Clamped multiplication: the exact product of the two scalars,
    /// rounded toward zero to the nearest representable step.
    pub fn mul(self, o: Fx) -> (r: Fx)
        ensures
            r.i() == fx_mul(self.i(), o.i()),
            r.wf(),
    {
        proof {
            lemma_i64_mul_fits(self.i(), o.i());
        }
        let p: i128 = self.v as i128 * o.v as i128;
        Fx { v: clip_i128(tdiv_i128(p, FX_ONE as i128)) }
    }

    /// Clamped division: the exact quotient of the two scalars, rounded
    /// toward zero to the nearest representable step.
    pub fn div(self, o: Fx) -> (r: Fx)
        requires
            o.i() != 0,
        ensures
            r.i() == fx_div(self.i(), o.i()),
            r.wf(),
    {
        proof {
            lemma_i64_mul_fits(self.i(), FX_ONE as int);
        }
        let p: i128 = self.v as i128 * FX_ONE as i128;
        Fx { v: clip_i128(tdiv_i128(p, o.v as i128)) }
    }

    /// Divide by a sample count; exact in raw steps, rounded toward zero.
    pub fn div_n(self, n: u32) -> (r: Fx)
        requires
            n > 0,
        ensures
            r.i() == clip(tdiv(self.i(), n as int)),
            r.wf(),
    {
        Fx { v: clip_i128(tdiv_i128(self.v as i128, n as i128)) }
    }

    /// Square root of a scalar, rounded down to a representable step;
    /// a negative input (which only rounding drift can produce where the
    /// exact value would be non-negative) yields zero.
    pub fn sqrt(self) -> (r: Fx)
        ensures
            r.i() == fx_sqrt(self.i()),
            r.wf(),
            r.v >= 0,
    {
        if self.v <= 0 {
            Fx { v: 0 }
        } else {
            let x: u128 = self.v as u128 * FX_ONE as u128;
            let root = isqrt_u128(x);
            proof {
                lemma_isqrt_exists(x as int);
                lemma_isqrt_unique(root as int, isqrt(x as int), x as int);
                assert(x < 0x1_0000_0000_0000_0000_0000) by (nonlinear_arith)
                    requires
                        x == self.i() * FX_ONE,
                        0 < self.i() < 0x8000_0000_0000_0000,
                ;
                lemma_isqrt_below(root as int, x as int, 0x100_0000_0000);
            }
            Fx { v: root as i64 }
        }
    }
}

/// Clamped scalar addition, at the spec level.
pub open spec fn fx_add(a: int, b: int) -> int {
    clip(a + b)
}

/// Clamped scalar subtraction, at the spec level.
pub open spec fn fx_sub(a: int, b: int) -> int {
    clip(a - b)
}

/// Clamped scalar negation, at the spec level.
pub open spec fn fx_neg(a: int) -> int {
    clip(-a)
}

/// Exact fixed-point product, rounded toward zero and clamped.
pub open spec fn fx_mul(a: int, b: int) -> int {
    clip(tdiv(a * b, FX_ONE as int))
}

/// Exact fixed-point quotient, rounded toward zero and clamped.
pub open spec fn fx_div(a: int, b: int) -> int
    recommends
        b != 0,
{
    clip(tdiv(a * FX_ONE, b))
}

/// Fixed-point square root: floor of the square root of a non-negative
/// scalar; zero on a non-positive one.
pub open spec fn fx_sqrt(x: int) -> int {
    if x <= 0 {
        0
    } else {
        isqrt(x * FX_ONE)
    }
}

/// `r` is the integer square root of `x`.
pub open spec fn is_isqrt(r: int, x: int) -> bool {
    &&& 0 <= r
    &&& r * r <= x
    &&& x < (r + 1) * (r + 1)
}

/// The integer square root of a non-negative integer.
pub open spec fn isqrt(x: int) -> int {
    choose|r: int| is_isqrt(r, x)
}

/// The integer square root exists for every non-negative integer.
pub proof fn lemma_isqrt_exists(x: int)
    requires
        x >= 0,
    ensures
        is_isqrt(isqrt(x), x),
    decreases x,
{
    if x == 0 {
        assert(is_isqrt(0, 0));
    } else {
        lemma_isqrt_exists(x - 1);
        let r0 = isqrt(x - 1);
        if (r0 + 1) * (r0 + 1) <= x {
            assert(is_isqrt(r0 + 1, x)) by (nonlinear_arith)
                requires
                    is_isqrt(r0, x - 1),
                    (r0 + 1) * (r0 + 1) <= x,
            ;
        } else {
            assert(is_isqrt(r0, x));
        }
    }
}

/// The integer square root is unique.
pub proof fn lemma_isqrt_unique(r1: int, r2: int, x: int)
    requires
        is_isqrt(r1, x),
        is_isqrt(r2, x),
    ensures
        r1 == r2,
{
    assert(r1 == r2) by (nonlinear_arith)
        requires
            is_isqrt(r1, x),
            is_isqrt(r2, x),
    ;
}

/// Integer square roots respect the order of squares: if `a * a <= x`
/// then `a` is at most the root of `x`.
pub proof fn lemma_isqrt_le(a: int, r: int, x: int)
    requires
        0 <= a,
        a * a <= x,
        is_isqrt(r, x),
    ensures
        a <= r,
{
    assert(a <= r) by (nonlinear_arith)
        requires
            0 <= a,
            a * a <= x,
            is_isqrt(r, x),
    ;
}

/// An integer square root is below any bound whose square exceeds the
/// argument.
pub proof fn lemma_isqrt_below(r: int, x: int, b: int)
    requires
        is_isqrt(r, x),
        0 <= b,
        x < b * b,
    ensures
        r < b,
{
    assert(r < b) by (nonlinear_arith)
        requires
            is_isqrt(r, x),
            0 <= b,
            x < b * b,
    ;
}

/// Binary-search integer square root over 128-bit words.
fn isqrt_u128(x: u128) -> (r: u128)
    requires
        x < 0x1_0000_0000_0000_0000_0000_0000,
    ensures
        is_isqrt(r as int, x as int),
{
    let mut lo: u128 = 0;
    let mut hi: u128 = 0x1_0000_0000_0000;
    proof {
        assert((0x1_0000_0000_0000 as int) * (0x1_0000_0000_0000 as int)
            == 0x1_0000_0000_0000_0000_0000_0000) by (nonlinear_arith);
    }
    while lo + 1 < hi
        invariant
            lo < hi,
            hi <= 0x1_0000_0000_0000,
            lo * lo <= x,
            x < hi * hi,
        decreases hi - lo,
    {
        let mid = lo + (hi - lo) / 2;
        proof {
            assert(mid * mid < 0x1_0000_0000_0000_0000_0000_0000u128) by (nonlinear_arith)
                requires
                    mid < 0x1_0000_0000_0000u128,
            ;
        }
        if mid * mid <= x {
            lo = mid;
        } else {
            hi = mid;
        }
    }
    lo
}

/// A product of two 64-bit-bounded integers fits comfortably in 128 bits.
proof fn lemma_i64_mul_fits(a: int, b: int)
    requires
        -0x8000_0000_0000_0000 <= a < 0x8000_0000_0000_0000,
        -0x8000_0000_0000_0000 <= b < 0x8000_0000_0000_0000,
    ensures
        -0x4000_0000_0000_0000_0000_0000_0000_0000 <= a * b
            <= 0x4000_0000_0000_0000_0000_0000_0000_0000,
{
    assert(-0x4000_0000_0000_0000_0000_0000_0000_0000 <= a * b
        <= 0x4000_0000_0000_0000_0000_0000_0000_0000) by (nonlinear_arith)
        requires
            -0x8000_0000_0000_0000 <= a < 0x8000_0000_0000_0000,
            -0x8000_0000_0000_0000 <= b < 0x8000_0000_0000_0000,
    ;
}

/// Truncating 128-bit division, the semantics of Rust's `/`.
fn tdiv_i128(p: i128, d: i128) -> (q: i128)
    requires
        d != 0,
        p > i128::MIN,
        d > i128::MIN,
    ensures
        q == tdiv(p as int, d as int),
{
    let pu: u128 = if p >= 0 {
        p as u128
    } else {
        (-p) as u128
    };
    let du: u128 = if d >= 0 {
        d as u128
    } else {
        (-d) as u128
    };
    let m = pu / du;
    proof {
        lemma_udiv_bound(pu as int, du as int);
    }
    if (p >= 0) == (d >= 0) {
        m as i128
    } else {
        -(m as i128)
    }
}

/// Negating the divisor negates a truncating quotient.
pub proof fn lemma_tdiv_neg_divisor(p: int, q: int)
    requires
        q != 0,
    ensures
        tdiv(p, -q) == -tdiv(p, q),
{
}

/// Clamping is odd: the band is symmetric about zero.
pub proof fn lemma_clip_neg(x: int)
    ensures
        clip(-x) == -clip(x),
{
}

/// Multiplying by the unit scalar is the identity on in-band values.
pub proof fn lemma_fx_mul_one(a: int)
    requires
        -FX_MAX <= a <= FX_MAX,
    ensures
        fx_mul(a, FX_ONE as int) == a,
        fx_mul(a, -(FX_ONE as int)) == -a,
{
    assert(iabs(a * 65536) == iabs(a) * 65536) by (nonlinear_arith);
    assert(iabs(a) * 65536 / 65536 == iabs(a)) by (nonlinear_arith);
    assert(iabs(a * -65536) == iabs(a) * 65536) by (nonlinear_arith);
}

/// The square root of the unit scalar is the unit scalar.
pub proof fn lemma_fx_sqrt_one()
    ensures
        fx_sqrt(FX_ONE as int) == FX_ONE,
{
    assert(65536int * 65536 == 0x1_0000_0000) by (nonlinear_arith);
    assert(65537int * 65537 > 0x1_0000_0000) by (nonlinear_arith);
    assert(is_isqrt(65536, 0x1_0000_0000));
    lemma_isqrt_exists(0x1_0000_0000);
    lemma_isqrt_unique(65536, isqrt(0x1_0000_0000), 0x1_0000_0000);
}

/// An unsigned quotient never exceeds its dividend.
proof fn lemma_udiv_bound(a: int, d: int)
    requires
        a >= 0,
        d > 0,
    ensures
        0 <= a / d <= a,
{
    assert(0 <= a / d <= a) by (nonlinear_arith)
        requires
            a >= 0,
            d > 0,
    ;
}

} // verus!
