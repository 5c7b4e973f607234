//! Rays: an origin plus a direction, with the parametrized point-at-distance.

use vstd::prelude::*;
use crate::fixed::div_floor_i64;
use crate::vec3::{Point3, Vec3, vec_in, lemma_div_bounds_by_multiple};

verus! {

#[derive(Clone, Copy, Debug, PartialEq, Eq, Structural)]
pub struct Ray {
    pub origin: Point3,
    pub direction: Vec3,
}

/// One component of `origin + t * direction`, where `t` counts fixed-point
/// units along the (unnormalized) direction.
pub open spec fn ray_at_comp(o: int, t: int, d: int) -> int {
    o + (t * d) / 65536
}

impl Ray {
    pub fn new(origin: Point3, direction: Vec3) -> (r: Ray)
        ensures
            r.origin == origin,
            r.direction == direction,
    {
        Ray { origin, direction }
    }

    /// The point a parameter `t` along the ray.
    pub fn at(&self, t: i64) -> (p: Point3)
        requires
            -0x8000_0000 <= t <= 0x8000_0000,
            vec_in(self.direction, 0x4000_0000),
            vec_in(self.origin, 0x1000_0000_0000_0000),
        ensures
            p.x == ray_at_comp(self.origin.x as int, t as int, self.direction.x as int),
            p.y == ray_at_comp(self.origin.y as int, t as int, self.direction.y as int),
            p.z == ray_at_comp(self.origin.z as int, t as int, self.direction.z as int),
    {
        proof {
            assert(
                -0x2000_0000_0000_0000 <= t * self.direction.x <= 0x2000_0000_0000_0000
                && -0x2000_0000_0000_0000 <= t * self.direction.y <= 0x2000_0000_0000_0000
                && -0x2000_0000_0000_0000 <= t * self.direction.z <= 0x2000_0000_0000_0000)
                by (nonlinear_arith)
                requires
                    -0x8000_0000 <= t <= 0x8000_0000,
                    vec_in(self.direction, 0x4000_0000);
            lemma_div_bounds_by_multiple(t as int * self.direction.x as int, 65536, 0x2000_0000_0000);
            lemma_div_bounds_by_multiple(t as int * self.direction.y as int, 65536, 0x2000_0000_0000);
            lemma_div_bounds_by_multiple(t as int * self.direction.z as int, 65536, 0x2000_0000_0000);
        }
        Vec3 {
            x: self.origin.x + div_floor_i64(t * self.direction.x, 65536),
            y: self.origin.y + div_floor_i64(t * self.direction.y, 65536),
            z: self.origin.z + div_floor_i64(t * self.direction.z, 65536),
        }
    }
}

} // verus!
