//! Hit records and the face-orientation rule shared by all primitives.

use vstd::prelude::*;
use crate::material::{Lambertian, Material};
use crate::ray::Ray;
use crate::sphere::{hit_record_for, hit_t_s, lemma_hit_narrow, Sphere};
use crate::vec3::{dot_s, lemma_dot_neg, neg_v, proper, sv, Vec3};
use crate::fixed::SCALE;

verus! {

/// Where a ray met a primitive: the point, the unit normal oriented against
/// the ray, the material met there, the ray parameter, and whether the
/// outward normal already opposed the ray.
#[derive(Clone, Copy, PartialEq, Eq, Structural, Debug)]
pub struct HitRecord {
    pub point: Vec3,
    pub normal: Vec3,
    pub material: Material,
    pub t: i64,
    pub front_face: bool,
}

/// The record before any hit was found: zeroed geometry and a diffuse white
/// material, the explicit stand-in for "no material given".
pub open spec fn blank_record() -> HitRecord {
    HitRecord {
        point: sv(0, 0, 0),
        normal: sv(0, 0, 0),
        material: Material::Lambertian(Lambertian { albedo: sv(SCALE as int, SCALE as int, SCALE as int) }),
        t: 0,
        front_face: false,
    }
}

impl HitRecord {
    /// A record holding no hit yet.
    pub fn new() -> (r: HitRecord)
        ensures
            r == blank_record(),
    {
        HitRecord {
            point: Vec3::zero(),
            normal: Vec3::zero(),
            material: Material::Lambertian(Lambertian::new(Vec3::one())),
            t: 0,
            front_face: false,
        }
    }

    /// Record the normal for a hit: given the outward unit normal, keep it if
    /// it already opposes the ray, else flip it, so that the stored normal
    /// always satisfies `dot(ray.direction, normal) <= 0`; `front_face`
    /// records whether the outward normal already opposed the ray.
    pub fn set_face_normal(&mut self, ray: &Ray, outward_normal: &Vec3)
        requires
            proper(*outward_normal),
        ensures
            final(self).front_face == (dot_s(ray.direction, *outward_normal) <= 0),
            final(self).normal == if dot_s(ray.direction, *outward_normal) <= 0 {
                *outward_normal
            } else {
                neg_v(*outward_normal)
            },
            dot_s(ray.direction, final(self).normal) <= 0,
            final(self).point == old(self).point,
            final(self).t == old(self).t,
            final(self).material == old(self).material,
    {
        self.front_face = ray.direction.dot(outward_normal) <= 0;
        self.normal = if self.front_face {
            *outward_normal
        } else {
            proof {
                lemma_dot_neg(ray.direction, *outward_normal);
            }
            outward_normal.neg()
        };
    }
}

/// A primitive a ray can hit, as a tagged variant.
#[derive(Clone, Copy, PartialEq, Eq, Structural, Debug)]
pub enum Hittable {
    Sphere(Sphere),
}

/// The ray parameter at which a ray hits a primitive within the interval.
pub open spec fn hittable_hit_t(h: Hittable, r: Ray, t_min: int, t_max: int) -> Option<int> {
    match h {
        Hittable::Sphere(s) => hit_t_s(s, r, t_min, t_max),
    }
}

/// What a hit record must hold after a primitive's hit at parameter `t`.
pub open spec fn hittable_record_for(h: Hittable, r: Ray, t: int, rec: HitRecord) -> bool {
    match h {
        Hittable::Sphere(s) => hit_record_for(s, r, t, rec),
    }
}


/// Narrowing the upper bound of the query interval keeps exactly the hits
/// nearer than the new bound, for any primitive.
pub proof fn lemma_hittable_narrow(h: Hittable, r: Ray, t_min: int, t_hi: int, t_hi0: int)
    requires
        t_hi <= t_hi0,
    ensures
        hittable_hit_t(h, r, t_min, t_hi) == match hittable_hit_t(h, r, t_min, t_hi0) {
            Some(t) => if t < t_hi {
                Some(t)
            } else {
                None::<int>
            },
            None => None::<int>,
        },
{
    match h {
        Hittable::Sphere(s) => lemma_hit_narrow(s, r, t_min, t_hi, t_hi0),
    }
}

impl Hittable {
    /// Test the ray over `[t_min, t_max)` and report the nearest qualifying
    /// intersection; on a miss the record is left unchanged.
    pub fn hit(&self, ray: Ray, t_min: i64, t_max: i64, hit_record: &mut HitRecord) -> (r: bool)
        ensures
            r <==> hittable_hit_t(*self, ray, t_min as int, t_max as int) is Some,
            r ==> hittable_hit_t(*self, ray, t_min as int, t_max as int) == Some(
                final(hit_record).t as int,
            ) && hittable_record_for(*self, ray, final(hit_record).t as int, *final(hit_record)),
            !r ==> *final(hit_record) == *old(hit_record),
    {
        match self {
            Hittable::Sphere(s) => s.hit(ray, t_min, t_max, hit_record),
        }
    }
}

} // verus!
