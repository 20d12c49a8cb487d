//! Rays: origin plus direction, evaluated at a scalar parameter.
use vstd::prelude::*;
use crate::fx::Fx;
use crate::vec3::Vec3;
use crate::vec3::vadd;
use crate::vec3::vscale;

verus! {

/// A directed half-line used to sample the scene.
#[derive(Clone, Copy, PartialEq, Eq, Structural, Debug)]
pub struct Ray {
    pub orig: Vec3,
    pub dir: Vec3,
}

/// The point `orig + dir * t`.
pub open spec fn ray_at(r: Ray, t: int) -> Vec3 {
    vadd(r.orig, vscale(r.dir, t))
}

impl Ray {
    /// Both endpoints of the parametrization are representable.
    pub open spec fn wf(self) -> bool {
        self.orig.wf() && self.dir.wf()
    }

    pub fn new(orig: Vec3, dir: Vec3) -> (r: Ray)
        ensures
            r == (Ray { orig, dir }),
    {
        Ray { orig, dir }
    }

    /// Evaluate the ray at parameter `t`.
    pub fn at(&self, t: Fx) -> (r: Vec3)
        ensures
            r == ray_at(*self, t.i()),
            r.wf(),
    {
        self.orig.add(self.dir.mul(t))
    }
}

} // verus!
