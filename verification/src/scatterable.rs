//! The material capability: how a surface turns an incoming ray into an
//! outgoing one, with an attenuation color — diffuse and specular variants.

use vstd::prelude::*;
use crate::hittable::HitRecord;
use crate::ray::Ray;
use crate::rng::Rng;
use crate::vec3::{
    Color, Vec3, random_unit_vector, reflect_of, unit_of, v_add, v_dot, v_is_zero, vec_in,
};

verus! {

/// A material that can scatter an incoming ray at a hit point. Each
/// implementer fixes, through `scatter_req` and `scatter_ok`, what it asks of
/// the hit and what its answer means.
pub trait Scatterable {
    /// What the implementer asks of the incoming ray and hit record.
    spec fn scatter_req(&self, ray_in: Ray, rec: HitRecord) -> bool;

    /// What the implementer promises of the scatter outcome.
    spec fn scatter_ok(&self, ray_in: Ray, rec: HitRecord, res: Option<(Ray, Color)>) -> bool;

    /// The scattered ray and attenuation, or nothing when the ray is
    /// absorbed.
    fn scatter(&self, ray_in: Ray, rec: &HitRecord, rng: &mut Rng) -> (res: Option<(Ray, Color)>)
        requires
            self.scatter_req(ray_in, *rec),
        ensures
            self.scatter_ok(ray_in, *rec, res),
    ;
}

/// A diffuse surface: scatters into a random direction biased around the
/// normal, always attenuating by its albedo.
#[derive(Clone, Copy, Debug, PartialEq, Eq, Structural)]
pub struct Lambertian {
    pub albedo: Color,
}

/// A specular surface: reflects the incoming direction about the normal, and
/// absorbs rays whose reflection would not leave the surface.
#[derive(Clone, Copy, Debug, PartialEq, Eq, Structural)]
pub struct Metal {
    pub albedo: Color,
}

impl Scatterable for Lambertian {
    open spec fn scatter_req(&self, ray_in: Ray, rec: HitRecord) -> bool {
        &&& vec_in(rec.normal, 0x20000)
        &&& !v_is_zero(rec.normal)
    }

    /// A diffuse surface always scatters: the outgoing ray starts at the hit
    /// point, its direction is the normal plus some drawn unit-scale vector —
    /// or the normal itself when that sum degenerates to zero — so it is
    /// never the zero vector, and the attenuation is the albedo.
    open spec fn scatter_ok(&self, ray_in: Ray, rec: HitRecord, res: Option<(Ray, Color)>) -> bool {
        match res {
            Some((scattered, attenuation)) => {
                &&& attenuation == self.albedo
                &&& scattered.origin == rec.point
                &&& !v_is_zero(scattered.direction)
                &&& vec_in(scattered.direction, 0x30000)
                &&& exists|u: Vec3| {
                    &&& vec_in(u, 65536)
                    &&& scattered.direction == (if !v_is_zero(#[trigger] v_add(rec.normal, u)) {
                        v_add(rec.normal, u)
                    } else {
                        rec.normal
                    })
                }
            },
            None => false,
        }
    }

    fn scatter(&self, ray_in: Ray, rec: &HitRecord, rng: &mut Rng) -> (res: Option<(Ray, Color)>)
    {
        let u = random_unit_vector(rng);
        let mut scatter_direction = rec.normal.add(u);
        proof {
            let su = v_add(rec.normal, u);
            assert(su.x == scatter_direction.x && su.y == scatter_direction.y
                && su.z == scatter_direction.z);
            assert(su == scatter_direction);
        }
        if scatter_direction.near_zero() {
            scatter_direction = rec.normal;
        }
        let scattered = Ray::new(rec.point, scatter_direction);
        Some((scattered, self.albedo))
    }
}

impl Scatterable for Metal {
    open spec fn scatter_req(&self, ray_in: Ray, rec: HitRecord) -> bool {
        &&& vec_in(rec.normal, 0x20000)
        &&& vec_in(ray_in.direction, 0x4000_0000)
        &&& !v_is_zero(ray_in.direction)
    }

    /// A specular surface reflects the unit incoming direction about the
    /// normal; the outcome is a scatter exactly when that reflection points
    /// away from the surface, and absorption (`None`) otherwise.
    open spec fn scatter_ok(&self, ray_in: Ray, rec: HitRecord, res: Option<(Ray, Color)>) -> bool {
        let reflected = reflect_of(unit_of(ray_in.direction), rec.normal);
        if v_dot(reflected, rec.normal) > 0 {
            match res {
                Some((scattered, attenuation)) => {
                    &&& attenuation == self.albedo
                    &&& scattered.origin == rec.point
                    &&& scattered.direction == reflected
                    &&& !v_is_zero(scattered.direction)
                    &&& vec_in(scattered.direction, 0x640_0000)
                },
                None => false,
            }
        } else {
            res is None
        }
    }

    fn scatter(&self, ray_in: Ray, rec: &HitRecord, rng: &mut Rng) -> (res: Option<(Ray, Color)>)
    {
        let u = ray_in.direction.unit_vector();
        proof {
            let uv = unit_of(ray_in.direction);
            assert(uv.x == u.x && uv.y == u.y && uv.z == u.z);
            assert(u == uv);
        }
        let reflected = u.reflect(rec.normal);
        proof {
            let rf = reflect_of(unit_of(ray_in.direction), rec.normal);
            assert(rf.x == reflected.x && rf.y == reflected.y && rf.z == reflected.z);
            assert(reflected == rf);
        }
        let scattered = Ray::new(rec.point, reflected);
        let alignment = scattered.direction.dot(rec.normal);
        if alignment > 0 {
            proof {
                if v_is_zero(reflected) {
                    assert(reflected.x * rec.normal.x + reflected.y * rec.normal.y
                        + reflected.z * rec.normal.z == 0) by (nonlinear_arith)
                        requires reflected.x == 0, reflected.y == 0, reflected.z == 0;
                }
            }
            Some((scattered, self.albedo))
        } else {
            None
        }
    }
}

/// The closed set of materials a surface can carry, dispatched by variant.
#[derive(Clone, Copy, Debug, PartialEq, Eq, Structural)]
pub enum Material {
    Lambertian(Lambertian),
    Metal(Metal),
}

/// The material's albedo is a color: each channel lies in `[0, 1]`.
pub open spec fn albedo_wf(m: Material) -> bool {
    match m {
        Material::Lambertian(l) => {
            0 <= l.albedo.x <= 65536 && 0 <= l.albedo.y <= 65536 && 0 <= l.albedo.z <= 65536
        },
        Material::Metal(mt) => {
            0 <= mt.albedo.x <= 65536 && 0 <= mt.albedo.y <= 65536 && 0 <= mt.albedo.z <= 65536
        },
    }
}

impl Scatterable for Material {
    open spec fn scatter_req(&self, ray_in: Ray, rec: HitRecord) -> bool {
        match self {
            Material::Lambertian(l) => l.scatter_req(ray_in, rec),
            Material::Metal(m) => m.scatter_req(ray_in, rec),
        }
    }

    open spec fn scatter_ok(&self, ray_in: Ray, rec: HitRecord, res: Option<(Ray, Color)>) -> bool {
        match self {
            Material::Lambertian(l) => l.scatter_ok(ray_in, rec, res),
            Material::Metal(m) => m.scatter_ok(ray_in, rec, res),
        }
    }

    fn scatter(&self, ray_in: Ray, rec: &HitRecord, rng: &mut Rng) -> (res: Option<(Ray, Color)>)
    {
        match self {
            Material::Lambertian(l) => l.scatter(ray_in, rec, rng),
            Material::Metal(m) => m.scatter(ray_in, rec, rng),
        }
    }
}

} // verus!
