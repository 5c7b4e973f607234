//! The camera: maps normalized image-plane coordinates to world-space rays
//! from a fixed eye point through a virtual viewport.

use vstd::prelude::*;
use crate::fixed::fmul_spec;
use crate::ray::Ray;
use crate::vec3::{Point3, Vec3, v_is_zero, vec_in};

verus! {

/// A 16:9 viewport two world units tall, one unit in front of the origin.
#[derive(Clone, Copy, Debug, PartialEq, Eq, Structural)]
pub struct Camera {
    pub origin: Point3,
    pub lower_left_corner: Point3,
    pub horizontal: Vec3,
    pub vertical: Vec3,
}

/// The fixed viewport geometry the renderer uses.
pub open spec fn camera_wf(c: Camera) -> bool {
    &&& c.origin == (Vec3 { x: 0, y: 0, z: 0 })
    &&& c.horizontal == (Vec3 { x: 233016, y: 0, z: 0 })
    &&& c.vertical == (Vec3 { x: 0, y: 131072, z: 0 })
    &&& c.lower_left_corner == (Vec3 { x: -116508i64, y: -65536i64, z: -65536i64 })
}

/// One component of the image-plane direction
/// `lower_left + u * horizontal + v * vertical - origin`.
pub open spec fn camera_dir_comp(ll: int, u: int, h: int, v: int, vt: int, o: int) -> int {
    ll + fmul_spec(u, h) + fmul_spec(v, vt) - o
}

/// The ray `get_ray` produces for viewport coordinates `(u, v)`.
pub open spec fn camera_ray(c: Camera, u: int, v: int) -> Ray {
    Ray {
        origin: c.origin,
        direction: Vec3 {
            x: camera_dir_comp(
                c.lower_left_corner.x as int, u, c.horizontal.x as int,
                v, c.vertical.x as int, c.origin.x as int) as i64,
            y: camera_dir_comp(
                c.lower_left_corner.y as int, u, c.horizontal.y as int,
                v, c.vertical.y as int, c.origin.y as int) as i64,
            z: camera_dir_comp(
                c.lower_left_corner.z as int, u, c.horizontal.z as int,
                v, c.vertical.z as int, c.origin.z as int) as i64,
        },
    }
}

impl Camera {
    pub fn new() -> (c: Camera)
        ensures
            camera_wf(c),
    {
        Camera {
            origin: Vec3 { x: 0, y: 0, z: 0 },
            horizontal: Vec3 { x: 233016, y: 0, z: 0 },
            vertical: Vec3 { x: 0, y: 131072, z: 0 },
            lower_left_corner: Vec3 { x: -116508, y: -65536, z: -65536 },
        }
    }

    /// The world ray through viewport coordinates `(u, v)`, each a
    /// fixed-point fraction of the viewport (slightly above one is allowed,
    /// for jitter at the image border).
    pub fn get_ray(&self, u: i64, v: i64) -> (r: Ray)
        requires
            camera_wf(*self),
            0 <= u <= 131072,
            0 <= v <= 131072,
        ensures
            r.origin == self.origin,
            r.direction.x == camera_dir_comp(
                self.lower_left_corner.x as int, u as int, self.horizontal.x as int,
                v as int, self.vertical.x as int, self.origin.x as int),
            r.direction.y == camera_dir_comp(
                self.lower_left_corner.y as int, u as int, self.horizontal.y as int,
                v as int, self.vertical.y as int, self.origin.y as int),
            r.direction.z == camera_dir_comp(
                self.lower_left_corner.z as int, u as int, self.horizontal.z as int,
                v as int, self.vertical.z as int, self.origin.z as int),
            r == camera_ray(*self, u as int, v as int),
            vec_in(r.direction, 0x1000_0000),
            !v_is_zero(r.direction),
            vec_in(r.origin, 0x1000_0000),
    {
        let direction = self
            .lower_left_corner
            .add(self.horizontal.scale_fixed(u))
            .add(self.vertical.scale_fixed(v))
            .sub(self.origin);
        proof {
            let cr = camera_ray(*self, u as int, v as int);
            assert(cr.direction.x == direction.x && cr.direction.y == direction.y
                && cr.direction.z == direction.z);
            assert(cr.direction == direction);
        }
        Ray::new(self.origin, direction)
    }
}

} // verus!
