//! The scene: an ordered collection of spheres whose aggregate intersection
//! is the nearest hit among all members.

use vstd::prelude::*;
use crate::hittable::{HitRecord, Hittable};
use crate::ray::Ray;
use crate::scatterable::{Lambertian, Material, Metal, albedo_wf};
use crate::sphere::{
    Sphere, hit_query_wf, lemma_sphere_hit_narrow, sphere_hit_record_matches, sphere_hit_t,
    sphere_wf,
};
use crate::vec3::{Color, Point3, lemma_dot_self};

verus! {

pub struct World {
    pub objects: Vec<Sphere>,
}

/// Every surface of the scene has bounded geometry and a color-valued albedo.
pub open spec fn world_wf(w: World) -> bool {
    forall|i: int| 0 <= i < w.objects@.len()
        ==> sphere_wf(#[trigger] w.objects@[i]) && albedo_wf(w.objects@[i].material)
}

/// No member of the scene intersects the ray in `[t_min, t_max]`.
pub open spec fn none_hit(objs: Seq<Sphere>, r: Ray, t_min: int, t_max: int) -> bool {
    forall|j: int| 0 <= j < objs.len()
        ==> #[trigger] sphere_hit_t(objs[j], r, t_min, t_max) is None
}

/// Every member hit before index `i` lies strictly farther than `t`: the
/// earliest surface wins an exact tie.
pub open spec fn beats_all_before(
    objs: Seq<Sphere>, r: Ray, t_min: int, t_max: int, i: int, t: int) -> bool {
    forall|j: int| 0 <= j < i ==> (match #[trigger] sphere_hit_t(objs[j], r, t_min, t_max) {
        Some(tj) => t < tj,
        None => true,
    })
}

/// No member hit lies nearer than `t`: the reported hit is the global
/// minimum by parameter.
pub open spec fn at_most_all(objs: Seq<Sphere>, r: Ray, t_min: int, t_max: int, t: int) -> bool {
    forall|j: int| 0 <= j < objs.len()
        ==> (match #[trigger] sphere_hit_t(objs[j], r, t_min, t_max) {
            Some(tj) => t <= tj,
            None => true,
        })
}

/// Member `i` produced the reported record, and every earlier member's hit,
/// if any, lies strictly farther.
pub open spec fn winning_index(
    objs: Seq<Sphere>, r: Ray, t_min: int, t_max: int, rec: HitRecord, i: int) -> bool {
    &&& 0 <= i < objs.len()
    &&& sphere_hit_t(objs[i], r, t_min, t_max) == Some(rec.t as int)
    &&& sphere_hit_record_matches(objs[i], r, rec.t as int, rec)
    &&& beats_all_before(objs, r, t_min, t_max, i, rec.t as int)
}

/// The winning record of a query is unique: any two records that a member
/// produced, that beat every earlier member, and that no member undercuts,
/// are the same record from the same member.
pub proof fn lemma_winner_unique(
    objs: Seq<Sphere>, r: Ray, t_min: int, t_max: int,
    rec1: HitRecord, i1: int, rec2: HitRecord, i2: int)
    requires
        winning_index(objs, r, t_min, t_max, rec1, i1),
        at_most_all(objs, r, t_min, t_max, rec1.t as int),
        winning_index(objs, r, t_min, t_max, rec2, i2),
        at_most_all(objs, r, t_min, t_max, rec2.t as int),
    ensures
        i1 == i2,
        rec1 == rec2,
{
    assert(sphere_hit_t(objs[i1], r, t_min, t_max) == Some(rec1.t as int));
    assert(sphere_hit_t(objs[i2], r, t_min, t_max) == Some(rec2.t as int));
    assert(rec1.t <= rec2.t && rec2.t <= rec1.t);
    assert(rec1.t == rec2.t);
    if i1 < i2 {
        assert(rec2.t < rec1.t);
    }
    if i2 < i1 {
        assert(rec1.t < rec2.t);
    }
    assert(rec1.point == rec2.point);
    assert(rec1.normal == rec2.normal);
    assert(rec1 == rec2);
}

impl World {
    pub fn new() -> (w: World)
        ensures
            w.objects@.len() == 0,
    {
        World { objects: Vec::new() }
    }

    pub fn clear(&mut self)
        ensures
            final(self).objects@.len() == 0,
    {
        self.objects.clear();
    }

    pub fn add(&mut self, object: Sphere)
        ensures
            final(self).objects@ == old(self).objects@.push(object),
    {
        self.objects.push(object);
    }
}

impl Default for World {
    /// The demonstration scene: a large diffuse ground sphere, a diffuse sphere
    /// at the center, and two metal spheres beside it.
    fn default() -> (w: World)
        ensures
            world_wf(w),
            w.objects@.len() == 4,
            w.objects@[0] == (Sphere {
                center: Point3 { x: 0, y: -6586368i64, z: -65536i64 },
                radius: 6553600,
                material: Material::Lambertian(Lambertian {
                    albedo: Color { x: 52429, y: 52429, z: 0 },
                }),
            }),
            w.objects@[1] == (Sphere {
                center: Point3 { x: 0, y: 0, z: -65536i64 },
                radius: 32768,
                material: Material::Lambertian(Lambertian {
                    albedo: Color { x: 45875, y: 19661, z: 19661 },
                }),
            }),
            w.objects@[2] == (Sphere {
                center: Point3 { x: -65536i64, y: 0, z: -65536i64 },
                radius: 32768,
                material: Material::Metal(Metal {
                    albedo: Color { x: 52429, y: 52429, z: 52429 },
                }),
            }),
            w.objects@[3] == (Sphere {
                center: Point3 { x: 65536, y: 0, z: -65536i64 },
                radius: 32768,
                material: Material::Metal(Metal {
                    albedo: Color { x: 52429, y: 39322, z: 13107 },
                }),
            }),
    {
        let mut world = World::new();
        let material_ground = Material::Lambertian(Lambertian {
            albedo: Color { x: 52429, y: 52429, z: 0 },
        });
        let material_center = Material::Lambertian(Lambertian {
            albedo: Color { x: 45875, y: 19661, z: 19661 },
        });
        let material_left = Material::Metal(Metal {
            albedo: Color { x: 52429, y: 52429, z: 52429 },
        });
        let material_right = Material::Metal(Metal {
            albedo: Color { x: 52429, y: 39322, z: 13107 },
        });
        world.add(Sphere::new(Point3 { x: 0, y: -6586368, z: -65536 }, 6553600, material_ground));
        world.add(Sphere::new(Point3 { x: 0, y: 0, z: -65536 }, 32768, material_center));
        world.add(Sphere::new(Point3 { x: -65536, y: 0, z: -65536 }, 32768, material_left));
        world.add(Sphere::new(Point3 { x: 65536, y: 0, z: -65536 }, 32768, material_right));
        world
    }
}

impl Hittable for World {
    open spec fn hit_req(&self, r: Ray, t_min: i64, t_max: i64) -> bool {
        &&& world_wf(*self)
        &&& hit_query_wf(r, t_min, t_max)
    }

    /// The answer is the nearest hit among all members, queried with the full
    /// interval: `None` only when no member is hit; otherwise the record of
    /// the member whose parameter is minimal, with the earliest member
    /// winning exact ties.
    open spec fn hit_ok(&self, r: Ray, t_min: i64, t_max: i64, res: Option<HitRecord>) -> bool {
        let objs = self.objects@;
        match res {
            Some(rec) => {
                &&& t_min <= rec.t <= t_max
                &&& at_most_all(objs, r, t_min as int, t_max as int, rec.t as int)
                &&& exists|i: int|
                    #[trigger] winning_index(objs, r, t_min as int, t_max as int, rec, i)
            },
            None => none_hit(objs, r, t_min as int, t_max as int),
        }
    }

    fn hit(&self, r: Ray, t_min: i64, t_max: i64) -> (res: Option<HitRecord>) {
        let ghost objs = self.objects@;
        let mut closest_so_far = t_max;
        let mut hit_record: Option<HitRecord> = None;
        let ghost mut best_i: int = 0;
        let mut idx: usize = 0;
        let n = self.objects.len();
        proof {
            lemma_dot_self(r.direction);
        }
        while idx < n
            invariant
                n == objs.len(),
                0 <= idx <= n,
                objs == self.objects@,
                world_wf(*self),
                hit_query_wf(r, t_min, t_max),
                crate::vec3::v_dot(r.direction, r.direction) >= 1,
                t_min <= closest_so_far <= t_max,
                match hit_record {
                    None => {
                        &&& closest_so_far == t_max
                        &&& forall|j: int| 0 <= j < idx
                            ==> #[trigger] sphere_hit_t(objs[j], r, t_min as int, t_max as int)
                                is None
                    },
                    Some(rec) => {
                        &&& t_min <= rec.t <= t_max
                        &&& rec.t == closest_so_far
                        &&& 0 <= best_i < idx
                        &&& sphere_hit_t(objs[best_i], r, t_min as int, t_max as int)
                            == Some(rec.t as int)
                        &&& sphere_hit_record_matches(objs[best_i], r, rec.t as int, rec)
                        &&& beats_all_before(objs, r, t_min as int, t_max as int, best_i,
                            rec.t as int)
                        &&& forall|j: int| 0 <= j < idx
                            ==> (match #[trigger] sphere_hit_t(objs[j], r, t_min as int,
                                t_max as int) {
                                Some(tj) => rec.t <= tj,
                                None => true,
                            })
                    },
                },
            decreases n - idx,
        {
            let object = self.objects[idx];
            let narrowed = object.hit(r, t_min, closest_so_far);
            proof {
                lemma_sphere_hit_narrow(
                    objs[idx as int], r, t_min as int, closest_so_far as int, t_max as int);
            }
            match narrowed {
                Some(temp_record) => {
                    let take = match hit_record {
                        None => true,
                        Some(_) => temp_record.t < closest_so_far,
                    };
                    if take {
                        proof {
                            best_i = idx as int;
                        }
                        closest_so_far = temp_record.t;
                        hit_record = Some(temp_record);
                    }
                },
                None => {},
            }
            idx = idx + 1;
        }
        proof {
            if let Some(rec) = hit_record {
                assert(winning_index(objs, r, t_min as int, t_max as int, rec, best_i));
            }
        }
        hit_record
    }
}

} // verus!
