//! The surface capability: intersection queries and their result records.

use vstd::prelude::*;
use crate::ray::Ray;
use crate::scatterable::Material;
use crate::vec3::{Point3, Vec3, v_dot, vec_in};

verus! {

/// The result of a successful ray/surface intersection: the hit point, the
/// normal flipped to oppose the incoming ray, the surface's material, the ray
/// parameter, and whether the ray arrived from outside.
#[derive(Clone, Copy, Debug, PartialEq, Eq, Structural)]
pub struct HitRecord {
    pub point: Point3,
    pub normal: Vec3,
    pub material: Material,
    pub t: i64,
    pub front_face: bool,
}

impl HitRecord {
    /// Builds the record for a hit at `point` with parameter `t`, flipping
    /// `outward_normal` against the incoming ray and noting the side.
    pub fn new(point: Point3, t: i64, ray: Ray, outward_normal: Vec3, material: Material)
        -> (rec: HitRecord)
        requires
            vec_in(ray.direction, 0x4000_0000_0000_0000),
            vec_in(outward_normal, 0x4000_0000_0000_0000),
        ensures
            rec.point == point,
            rec.t == t,
            rec.material == material,
            rec.front_face == (v_dot(ray.direction, outward_normal) < 0),
            rec.normal == (if rec.front_face {
                outward_normal
            } else {
                (Vec3 {
                    x: (-outward_normal.x) as i64,
                    y: (-outward_normal.y) as i64,
                    z: (-outward_normal.z) as i64,
                })
            }),
    {
        let front_face = ray.direction.dot_wide(outward_normal) < 0;
        let normal = if front_face {
            outward_normal
        } else {
            outward_normal.neg()
        };
        HitRecord { point, normal, t, front_face, material }
    }
}

/// A surface that can report its nearest intersection with a ray inside a
/// parameter interval. Each implementer fixes, through `hit_req` and
/// `hit_ok`, what it asks of a query and what its answer means.
pub trait Hittable {
    /// What the implementer asks of the query's arguments.
    spec fn hit_req(&self, r: Ray, t_min: i64, t_max: i64) -> bool;

    /// What the implementer promises of the query's answer.
    spec fn hit_ok(&self, r: Ray, t_min: i64, t_max: i64, res: Option<HitRecord>) -> bool;

    /// The nearest intersection with parameter in `[t_min, t_max]`, if any.
    fn hit(&self, r: Ray, t_min: i64, t_max: i64) -> (res: Option<HitRecord>)
        requires
            self.hit_req(r, t_min, t_max),
        ensures
            self.hit_ok(r, t_min, t_max, res),
    ;
}

} // verus!
