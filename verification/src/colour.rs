//! Additive RGB radiance triples and their resolution to display values.
use vstd::prelude::*;
use crate::fx::Fx;
use crate::fx::FX_ONE;
use crate::fx::clip;
use crate::fx::fx_mul;
use crate::fx::fx_add;
use crate::vec3::fxi;

verus! {

/// An RGB triple; radiance is accumulated unbounded, display values lie
/// in `[0, FX_ONE]` per channel.
#[derive(Clone, Copy, PartialEq, Eq, Structural, Debug)]
pub struct Colour {
    pub r: Fx,
    pub g: Fx,
    pub b: Fx,
}

/// Componentwise sum of two colours.
pub open spec fn cadd(a: Colour, b: Colour) -> Colour {
    Colour {
        r: fxi(fx_add(a.r.i(), b.r.i())),
        g: fxi(fx_add(a.g.i(), b.g.i())),
        b: fxi(fx_add(a.b.i(), b.b.i())),
    }
}

/// Componentwise product of two colours (attenuation).
pub open spec fn cscale(a: Colour, b: Colour) -> Colour {
    Colour {
        r: fxi(fx_mul(a.r.i(), b.r.i())),
        g: fxi(fx_mul(a.g.i(), b.g.i())),
        b: fxi(fx_mul(a.b.i(), b.b.i())),
    }
}

/// Scaling a colour by a scalar.
pub open spec fn cmul(a: Colour, s: int) -> Colour {
    Colour {
        r: fxi(fx_mul(a.r.i(), s)),
        g: fxi(fx_mul(a.g.i(), s)),
        b: fxi(fx_mul(a.b.i(), s)),
    }
}

/// The unit (white) colour, at the spec level.
pub open spec fn cwhite() -> Colour {
    Colour { r: fxi(FX_ONE as int), g: fxi(FX_ONE as int), b: fxi(FX_ONE as int) }
}

/// The zero (black) colour, at the spec level.
pub open spec fn cblack() -> Colour {
    Colour { r: fxi(0), g: fxi(0), b: fxi(0) }
}

/// Every channel lies in the displayable band `[0, 1]`.
pub open spec fn in_unit(c: Colour) -> bool {
    &&& 0 <= c.r.i() <= FX_ONE
    &&& 0 <= c.g.i() <= FX_ONE
    &&& 0 <= c.b.i() <= FX_ONE
}

/// Clamp a channel into the displayable band.
pub open spec fn clamp01(x: int) -> int {
    if x < 0 {
        0
    } else if x > FX_ONE {
        FX_ONE as int
    } else {
        x
    }
}

/// An 8-bit channel: `round(255 * clamp01(x))`.
pub open spec fn quant_spec(x: int) -> int {
    (clamp01(x) * 255 + 32768) / 65536
}

impl Colour {
    /// All three channels are in the representable band.
    pub open spec fn wf(self) -> bool {
        self.r.wf() && self.g.wf() && self.b.wf()
    }

    pub fn new(r: Fx, g: Fx, b: Fx) -> (c: Colour)
        ensures
            c == (Colour { r, g, b }),
    {
        Colour { r, g, b }
    }

    /// The zero (black) colour.
    pub fn black() -> (c: Colour)
        ensures
            c == cblack(),
            in_unit(c),
            c.wf(),
    {
        Colour { r: Fx::zero(), g: Fx::zero(), b: Fx::zero() }
    }

    /// The unit (white) colour.
    pub fn white() -> (c: Colour)
        ensures
            c == cwhite(),
            in_unit(c),
            c.wf(),
    {
        Colour { r: Fx::one(), g: Fx::one(), b: Fx::one() }
    }

    /// Componentwise sum.
    pub fn add(self, rhs: Colour) -> (c: Colour)
        ensures
            c == cadd(self, rhs),
            c.wf(),
    {
        Colour { r: self.r.add(rhs.r), g: self.g.add(rhs.g), b: self.b.add(rhs.b) }
    }

    /// Attenuate: componentwise product.
    pub fn scale(self, rhs: Colour) -> (c: Colour)
        ensures
            c == cscale(self, rhs),
            c.wf(),
    {
        Colour { r: self.r.mul(rhs.r), g: self.g.mul(rhs.g), b: self.b.mul(rhs.b) }
    }

    /// Scale by a scalar.
    pub fn mul(self, rhs: Fx) -> (c: Colour)
        ensures
            c == cmul(self, rhs.i()),
            c.wf(),
    {
        Colour { r: self.r.mul(rhs), g: self.g.mul(rhs), b: self.b.mul(rhs) }
    }

    /// Quantize to 8-bit channels: `round(255 * clamp01(v))` for each.
    pub fn to_24bit_rgb(&self) -> (rgb: (u8, u8, u8))
        ensures
            rgb.0 == quant_spec(self.r.i()),
            rgb.1 == quant_spec(self.g.i()),
            rgb.2 == quant_spec(self.b.i()),
    {
        (quant_channel(self.r), quant_channel(self.g), quant_channel(self.b))
    }
}

/// The sample combine is commutative, and associative wherever the
/// running sums stay inside the representable band (as a bounded
/// accumulator's do), so accumulation order never changes a pixel.
pub proof fn lemma_cadd_commutes_and_associates(a: Colour, b: Colour, c: Colour)
    ensures
        cadd(a, b) == cadd(b, a),
        (in_unit_sum(a) && in_unit_sum(b) && in_unit_sum(c)) ==> cadd(cadd(a, b), c) == cadd(
            a,
            cadd(b, c),
        ),
{
}

/// Every channel is small enough that three such colours sum without
/// saturating.
pub open spec fn in_unit_sum(c: Colour) -> bool {
    &&& 0 <= c.r.i() <= crate::fx::FX_MAX / 4
    &&& 0 <= c.g.i() <= crate::fx::FX_MAX / 4
    &&& 0 <= c.b.i() <= crate::fx::FX_MAX / 4
}

/// Quantize one channel.
fn quant_channel(v: Fx) -> (q: u8)
    ensures
        q == quant_spec(v.i()),
{
    let c: u64 = if v.v < 0 {
        0
    } else if v.v > FX_ONE {
        FX_ONE as u64
    } else {
        v.v as u64
    };
    let q64: u64 = (c * 255 + 32768) / 65536;
    proof {
        lemma_quant_in_byte(c as int);
    }
    q64 as u8
}

/// The quantized value of an in-band channel fits in a byte.
proof fn lemma_quant_in_byte(c: int)
    requires
        0 <= c <= FX_ONE,
    ensures
        0 <= (c * 255 + 32768) / 65536 <= 255,
{
    assert(0 <= (c * 255 + 32768) / 65536 <= 255) by (nonlinear_arith)
        requires
            0 <= c <= 65536,
    ;
}

/// A two-colour linear blend, keyed by a parameter in `[0, 1]`.
#[derive(Clone, Copy, PartialEq, Eq, Structural, Debug)]
pub struct Blend(pub Colour, pub Colour);

/// The blend's value at `t`: `a * (1 - t) + b * t`.
pub open spec fn blend_spec(a: Colour, b: Colour, t: int) -> Colour {
    cadd(cmul(a, clip(FX_ONE - t)), cmul(b, t))
}

impl Blend {
    /// Evaluate the blend at parameter `t`.
    pub fn at(&self, t: Fx) -> (c: Colour)
        ensures
            c == blend_spec(self.0, self.1, t.i()),
            c.wf(),
    {
        let one_minus = Fx::one().sub(t);
        self.0.mul(one_minus).add(self.1.mul(t))
    }
}

} // verus!
