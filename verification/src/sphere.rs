//! Analytic ray/sphere intersection by the reduced quadratic discriminant.

use vstd::prelude::*;
use vstd::arithmetic::div_mod::lemma_div_is_ordered;
use crate::fixed::div_floor_i64;
use crate::fixed::div_floor_i128;
use crate::fixed::isqrt_u128;
use crate::fixed::sqrt_floor;
use crate::fixed::lemma_sqrt_floor_exists;
use crate::hittable::{HitRecord, Hittable};
use crate::ray::{Ray, ray_at_comp};
use crate::scatterable::Material;
use crate::vec3::{Point3, Vec3, lemma_div_bounds_by_multiple, lemma_dot_self, v_dot, v_is_zero, vec_in};

verus! {

#[derive(Clone, Copy, Debug, PartialEq, Eq, Structural)]
pub struct Sphere {
    pub center: Point3,
    pub radius: i64,
    pub material: Material,
}

/// The sphere's coordinates and radius are small enough for exact
/// intersection arithmetic.
pub open spec fn sphere_wf(s: Sphere) -> bool {
    &&& vec_in(s.center, 0x1000_0000)
    &&& 1 <= s.radius <= 0x1000_0000
}

/// A well-formed intersection query: bounded coordinates, a nonzero
/// direction, and a nonnegative bounded parameter interval.
pub open spec fn hit_query_wf(r: Ray, t_min: i64, t_max: i64) -> bool {
    &&& vec_in(r.origin, 0x1000_0000)
    &&& vec_in(r.direction, 0x1000_0000)
    &&& !v_is_zero(r.direction)
    &&& 0 <= t_min <= t_max <= 0x4000_0000
}

/// The quadratic coefficient `a`: the squared length of the ray direction.
pub open spec fn sphere_a(s: Sphere, r: Ray) -> int {
    v_dot(r.direction, r.direction)
}

/// The reduced linear coefficient `half_b = (origin - center) . direction`.
pub open spec fn sphere_half_b(s: Sphere, r: Ray) -> int {
    (r.origin.x - s.center.x) * r.direction.x
        + (r.origin.y - s.center.y) * r.direction.y
        + (r.origin.z - s.center.z) * r.direction.z
}

/// The constant coefficient `c = |origin - center|^2 - radius^2`.
pub open spec fn sphere_c(s: Sphere, r: Ray) -> int {
    (r.origin.x - s.center.x) * (r.origin.x - s.center.x)
        + (r.origin.y - s.center.y) * (r.origin.y - s.center.y)
        + (r.origin.z - s.center.z) * (r.origin.z - s.center.z)
        - s.radius * s.radius
}

/// The reduced discriminant `half_b^2 - a c`.
pub open spec fn sphere_disc(s: Sphere, r: Ray) -> int {
    sphere_half_b(s, r) * sphere_half_b(s, r) - sphere_a(s, r) * sphere_c(s, r)
}

/// The near root `(-half_b - sqrt(disc)) / a`, in fixed-point parameter
/// units.
pub open spec fn sphere_root_near(s: Sphere, r: Ray) -> int {
    (-sphere_half_b(s, r) - sqrt_floor(sphere_disc(s, r))) * 65536 / sphere_a(s, r)
}

/// The far root `(-half_b + sqrt(disc)) / a`, in fixed-point parameter units.
pub open spec fn sphere_root_far(s: Sphere, r: Ray) -> int {
    (-sphere_half_b(s, r) + sqrt_floor(sphere_disc(s, r))) * 65536 / sphere_a(s, r)
}

/// The parameter the sphere reports for a query, if any: no intersection
/// when the discriminant is negative; otherwise the near root when it lies in
/// `[t_min, t_max]`, else the far root when it does, else nothing.
pub open spec fn sphere_hit_t(s: Sphere, r: Ray, t_min: int, t_max: int) -> Option<int> {
    if sphere_disc(s, r) < 0 {
        None
    } else if t_min <= sphere_root_near(s, r) <= t_max {
        Some(sphere_root_near(s, r))
    } else if t_min <= sphere_root_far(s, r) <= t_max {
        Some(sphere_root_far(s, r))
    } else {
        None
    }
}

/// One component of the outward normal `(point - center) / radius`.
pub open spec fn sphere_normal_comp(o: int, t: int, d: int, c: int, radius: int) -> int {
    (ray_at_comp(o, t, d) - c) * 65536 / radius
}

/// The outward normal at the point the parameter `t` reaches.
pub open spec fn sphere_outward_normal(s: Sphere, r: Ray, t: int) -> Vec3 {
    Vec3 {
        x: sphere_normal_comp(
            r.origin.x as int, t, r.direction.x as int, s.center.x as int, s.radius as int) as i64,
        y: sphere_normal_comp(
            r.origin.y as int, t, r.direction.y as int, s.center.y as int, s.radius as int) as i64,
        z: sphere_normal_comp(
            r.origin.z as int, t, r.direction.z as int, s.center.z as int, s.radius as int) as i64,
    }
}

/// The outward normal flipped, if need be, to oppose the incoming direction.
pub open spec fn facing_normal(outward: Vec3, dir: Vec3) -> Vec3 {
    if v_dot(dir, outward) < 0 {
        outward
    } else {
        Vec3 { x: (-outward.x) as i64, y: (-outward.y) as i64, z: (-outward.z) as i64 }
    }
}

/// The record a sphere reports for a hit at parameter `t`.
pub open spec fn sphere_hit_record_matches(s: Sphere, r: Ray, t: int, rec: HitRecord) -> bool {
    &&& rec.t == t
    &&& rec.material == s.material
    &&& rec.point.x == ray_at_comp(r.origin.x as int, t, r.direction.x as int)
    &&& rec.point.y == ray_at_comp(r.origin.y as int, t, r.direction.y as int)
    &&& rec.point.z == ray_at_comp(r.origin.z as int, t, r.direction.z as int)
    &&& rec.front_face == (v_dot(r.direction, sphere_outward_normal(s, r, t)) < 0)
    &&& rec.normal == facing_normal(sphere_outward_normal(s, r, t), r.direction)
}

impl Sphere {
    pub fn new(center: Point3, radius: i64, material: Material) -> (s: Sphere)
        ensures
            s == (Sphere { center, radius, material }),
    {
        Sphere { center, radius, material }
    }
}

impl Hittable for Sphere {
    open spec fn hit_req(&self, r: Ray, t_min: i64, t_max: i64) -> bool {
        &&& sphere_wf(*self)
        &&& hit_query_wf(r, t_min, t_max)
    }

    /// The answer is `Some` exactly when `sphere_hit_t` reports a parameter,
    /// and then the record carries that parameter, the reached point, the
    /// side-corrected normal, and this sphere's material.
    open spec fn hit_ok(&self, r: Ray, t_min: i64, t_max: i64, res: Option<HitRecord>) -> bool {
        match res {
            Some(rec) => {
                &&& sphere_hit_t(*self, r, t_min as int, t_max as int) == Some(rec.t as int)
                &&& t_min <= rec.t <= t_max
                &&& sphere_hit_record_matches(*self, r, rec.t as int, rec)
            },
            None => sphere_hit_t(*self, r, t_min as int, t_max as int) is None,
        }
    }

    fn hit(&self, r: Ray, t_min: i64, t_max: i64) -> (res: Option<HitRecord>) {
        let oc = r.origin.sub(self.center);
        let a = r.direction.dot_wide(r.direction);
        let half_b = oc.dot_wide(r.direction);
        let cc = oc.dot_wide(oc);
        proof {
            lemma_dot_self(r.direction);
            assert(a == sphere_a(*self, r));
            assert(half_b == sphere_half_b(*self, r));
            lemma_dot_bound_128(r.direction, r.direction, 0x1000_0000);
            lemma_dot_bound_128(oc, r.direction, 0x2000_0000);
            lemma_dot_bound_128(oc, oc, 0x2000_0000);
            assert(1 <= self.radius * self.radius <= 0x100_0000_0000_0000) by (nonlinear_arith)
                requires 1 <= self.radius <= 0x1000_0000;
        }
        let c = cc - (self.radius as i128) * (self.radius as i128);
        proof {
            assert(c == sphere_c(*self, r));
            assert(
                0 <= half_b * half_b <= 0x100_0000_0000_0000_0000_0000_0000_0000
                && -0x100_0000_0000_0000_0000_0000_0000_0000 <= a * c
                    <= 0x100_0000_0000_0000_0000_0000_0000_0000)
                by (nonlinear_arith)
                requires
                    -0xC00_0000_0000_0000 <= half_b <= 0xC00_0000_0000_0000,
                    0 <= a <= 0xC00_0000_0000_0000,
                    -0xD00_0000_0000_0000 <= c <= 0xD00_0000_0000_0000;
        }
        let discriminant = half_b * half_b - a * c;
        if discriminant < 0 {
            return None;
        }
        let sqrtd = isqrt_u128(discriminant as u128);
        proof {
            assert(sqrtd <= 0x4000_0000_0000_0000) by (nonlinear_arith)
                requires
                    sqrtd * sqrtd <= 0x1000_0000_0000_0000_0000_0000_0000_0000,
                    0 <= sqrtd;
        }
        let sq = sqrtd as i128;
        let root1 = div_floor_i128((-half_b - sq) * 65536, a);
        proof {
            assert(root1 == sphere_root_near(*self, r));
        }
        let lo = t_min as i128;
        let hi = t_max as i128;
        if lo <= root1 && root1 <= hi {
            return Some(self.make_record(r, root1 as i64));
        }
        let root2 = div_floor_i128((-half_b + sq) * 65536, a);
        proof {
            assert(root2 == sphere_root_far(*self, r));
        }
        if lo <= root2 && root2 <= hi {
            return Some(self.make_record(r, root2 as i64));
        }
        None
    }
}

impl Sphere {
    /// Builds the hit record for a root already known to lie in the queried
    /// interval.
    fn make_record(&self, r: Ray, root: i64) -> (rec: HitRecord)
        requires
            sphere_wf(*self),
            vec_in(r.origin, 0x1000_0000),
            vec_in(r.direction, 0x1000_0000),
            0 <= root <= 0x4000_0000,
        ensures
            sphere_hit_record_matches(*self, r, root as int, rec),
    {
        let point = r.at(root);
        proof {
            assert(
                -0x2000_0000_0000_0000 <= root * r.direction.x <= 0x2000_0000_0000_0000
                && -0x2000_0000_0000_0000 <= root * r.direction.y <= 0x2000_0000_0000_0000
                && -0x2000_0000_0000_0000 <= root * r.direction.z <= 0x2000_0000_0000_0000)
                by (nonlinear_arith)
                requires
                    0 <= root <= 0x4000_0000,
                    vec_in(r.direction, 0x1000_0000);
            lemma_div_bounds_by_multiple(
                root as int * r.direction.x as int, 65536, 0x2000_0000_0000);
            lemma_div_bounds_by_multiple(
                root as int * r.direction.y as int, 65536, 0x2000_0000_0000);
            lemma_div_bounds_by_multiple(
                root as int * r.direction.z as int, 65536, 0x2000_0000_0000);
        }
        let diff = point.sub(self.center);
        proof {
            assert(diff_scale_bound() <= diff_scale_bound() * self.radius) by (nonlinear_arith)
                requires 1 <= self.radius;
            lemma_div_bounds_by_multiple(diff.x as int * 65536, self.radius as int, diff_scale_bound());
            lemma_div_bounds_by_multiple(diff.y as int * 65536, self.radius as int, diff_scale_bound());
            lemma_div_bounds_by_multiple(diff.z as int * 65536, self.radius as int, diff_scale_bound());
        }
        let outward_normal = Vec3::new(
            div_floor_i64(diff.x * 65536, self.radius),
            div_floor_i64(diff.y * 65536, self.radius),
            div_floor_i64(diff.z * 65536, self.radius),
        );
        proof {
            let ow = sphere_outward_normal(*self, r, root as int);
            assert(ow.x == outward_normal.x && ow.y == outward_normal.y
                && ow.z == outward_normal.z);
            assert(ow == outward_normal);
        }
        HitRecord::new(point, root, r, outward_normal, self.material)
    }
}

/// A generous bound on a scaled point/center difference over the radius.
pub open spec fn diff_scale_bound() -> int {
    0x2010_0000_0000_0000
}

/// Componentwise bound on a wide dot product.
proof fn lemma_dot_bound_128(a: Vec3, b: Vec3, m: int)
    requires
        vec_in(a, m),
        vec_in(b, m),
        0 <= m <= 0x2000_0000,
    ensures
        -0xC00_0000_0000_0000 <= v_dot(a, b) <= 0xC00_0000_0000_0000,
{
    assert(
        -0x400_0000_0000_0000 <= a.x * b.x <= 0x400_0000_0000_0000
        && -0x400_0000_0000_0000 <= a.y * b.y <= 0x400_0000_0000_0000
        && -0x400_0000_0000_0000 <= a.z * b.z <= 0x400_0000_0000_0000)
        by (nonlinear_arith)
        requires
            -m <= a.x <= m, -m <= a.y <= m, -m <= a.z <= m,
            -m <= b.x <= m, -m <= b.y <= m, -m <= b.z <= m,
            0 <= m <= 0x2000_0000;
}

/// The two roots are ordered: the near one never exceeds the far one.
pub proof fn lemma_sphere_roots_ordered(s: Sphere, r: Ray)
    requires
        sphere_disc(s, r) >= 0,
        sphere_a(s, r) >= 1,
    ensures
        sphere_root_near(s, r) <= sphere_root_far(s, r),
{
    lemma_sqrt_floor_exists(sphere_disc(s, r));
    let hb = sphere_half_b(s, r);
    let sq = sqrt_floor(sphere_disc(s, r));
    assert((-hb - sq) * 65536 <= (-hb + sq) * 65536) by (nonlinear_arith)
        requires sq >= 0;
    lemma_div_is_ordered((-hb - sq) * 65536, (-hb + sq) * 65536, sphere_a(s, r));
}

/// A negative discriminant means no intersection at all.
pub proof fn lemma_sphere_miss(s: Sphere, r: Ray, t_min: int, t_max: int)
    requires
        sphere_disc(s, r) < 0,
    ensures
        sphere_hit_t(s, r, t_min, t_max) is None,
{
}

/// At discriminant zero the two roots coincide: the single tangent root is
/// reported exactly when it lies within the queried interval.
pub proof fn lemma_sphere_tangent(s: Sphere, r: Ray, t_min: int, t_max: int)
    requires
        sphere_disc(s, r) == 0,
        sphere_a(s, r) >= 1,
    ensures
        sphere_root_near(s, r) == sphere_root_far(s, r),
        sphere_hit_t(s, r, t_min, t_max) == (if t_min <= sphere_root_near(s, r) <= t_max {
            Some(sphere_root_near(s, r))
        } else {
            None::<int>
        }),
{
    crate::fixed::lemma_sqrt_floor_is(0, 0);
}

/// When both roots lie inside `[t_min, t_max]`, the smaller (near) root is
/// the one reported.
pub proof fn lemma_sphere_prefers_near_root(s: Sphere, r: Ray, t_min: int, t_max: int)
    requires
        sphere_disc(s, r) >= 0,
        sphere_a(s, r) >= 1,
        t_min <= sphere_root_near(s, r) <= t_max,
        t_min <= sphere_root_far(s, r) <= t_max,
    ensures
        sphere_hit_t(s, r, t_min, t_max) == Some(sphere_root_near(s, r)),
        sphere_root_near(s, r) <= sphere_root_far(s, r),
{
    lemma_sphere_roots_ordered(s, r);
}

/// Narrowing the upper bound of the queried interval keeps an answer exactly
/// when it still fits, and never changes which parameter is reported.
pub proof fn lemma_sphere_hit_narrow(s: Sphere, r: Ray, t_min: int, t1: int, t2: int)
    requires
        t1 <= t2,
        sphere_a(s, r) >= 1,
    ensures
        sphere_hit_t(s, r, t_min, t1) == (match sphere_hit_t(s, r, t_min, t2) {
            Some(t) => if t <= t1 { Some(t) } else { None::<int> },
            None => None::<int>,
        }),
{
    if sphere_disc(s, r) >= 0 {
        lemma_sphere_roots_ordered(s, r);
    }
}

} // verus!
