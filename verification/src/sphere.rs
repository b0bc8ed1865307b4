//! Spheres and their ray-intersection test.

use vstd::prelude::*;
use crate::fixed::{
    add_s, div_s, fadd, fdiv, fmul, fsqrt, fsub, lemma_div_s_mono, mul_s, sqrt_s, sub_s,
};
use crate::hittable::HitRecord;
use crate::material::Material;
use crate::ray::{at_v, Ray};
use crate::vec3::{dot_s, len2_s, lemma_len2_nonneg, neg_v, scale_div_v, sub_v, Vec3};

verus! {

/// A sphere with a non-negative radius and the material of its surface.
#[derive(Clone, Copy, PartialEq, Eq, Structural, Debug)]
pub struct Sphere {
    pub center: Vec3,
    pub radius: i64,
    pub material: Material,
}

/// The vector from the ray's origin to the sphere's center.
pub open spec fn oc_v(s: Sphere, r: Ray) -> Vec3 {
    sub_v(s.center, r.origin)
}

/// The quadratic's leading coefficient: the squared length of the direction.
pub open spec fn quad_a_s(r: Ray) -> int {
    len2_s(r.direction)
}

/// Half the quadratic's negated middle coefficient.
pub open spec fn quad_h_s(s: Sphere, r: Ray) -> int {
    dot_s(r.direction, oc_v(s, r))
}

/// The quadratic's constant coefficient.
pub open spec fn quad_c_s(s: Sphere, r: Ray) -> int {
    sub_s(len2_s(oc_v(s, r)), mul_s(s.radius as int, s.radius as int))
}

/// The discriminant `h^2 - a*c`; negative exactly when the ray misses.
pub open spec fn disc_s(s: Sphere, r: Ray) -> int {
    sub_s(
        mul_s(quad_h_s(s, r), quad_h_s(s, r)),
        mul_s(quad_a_s(r), quad_c_s(s, r)),
    )
}

pub open spec fn sqrtd_s(s: Sphere, r: Ray) -> int {
    sqrt_s(disc_s(s, r))
}

/// The smaller quadratic root `(h - sqrt(disc)) / a`.
pub open spec fn root1_s(s: Sphere, r: Ray) -> int {
    div_s(sub_s(quad_h_s(s, r), sqrtd_s(s, r)), quad_a_s(r))
}

/// The larger quadratic root `(h + sqrt(disc)) / a`.
pub open spec fn root2_s(s: Sphere, r: Ray) -> int {
    div_s(add_s(quad_h_s(s, r), sqrtd_s(s, r)), quad_a_s(r))
}

/// Membership in the half-open query interval `[t_min, t_max)`.
pub open spec fn in_interval(t: int, t_min: int, t_max: int) -> bool {
    t_min <= t && t < t_max
}

/// The ray parameter at which a ray hits a sphere within the query interval:
/// the smaller root when it qualifies, else the larger root when it
/// qualifies, else no hit; no hit at all when the discriminant is negative.
pub open spec fn hit_t_s(s: Sphere, r: Ray, t_min: int, t_max: int) -> Option<int> {
    if disc_s(s, r) < 0 {
        None
    } else if in_interval(root1_s(s, r), t_min, t_max) {
        Some(root1_s(s, r))
    } else if in_interval(root2_s(s, r), t_min, t_max) {
        Some(root2_s(s, r))
    } else {
        None
    }
}

/// The outward unit normal at the hit point: `(point - center) / radius`.
pub open spec fn outward_normal_s(s: Sphere, r: Ray, t: int) -> Vec3 {
    scale_div_v(sub_v(at_v(r, t), s.center), s.radius as int)
}

/// What a hit record must hold after a hit at parameter `t`: the hit point,
/// the face-oriented normal, the sphere's material, and the parameter itself.
pub open spec fn hit_record_for(s: Sphere, r: Ray, t: int, rec: HitRecord) -> bool {
    let outn = outward_normal_s(s, r, t);
    &&& rec.t as int == t
    &&& rec.point == at_v(r, t)
    &&& rec.front_face == (dot_s(r.direction, outn) <= 0)
    &&& rec.normal == if dot_s(r.direction, outn) <= 0 {
        outn
    } else {
        neg_v(outn)
    }
    &&& dot_s(r.direction, rec.normal) <= 0
    &&& rec.material == s.material
}

/// The smaller root never exceeds the larger.
pub proof fn lemma_root_order(s: Sphere, r: Ray)
    ensures
        root1_s(s, r) <= root2_s(s, r),
{
    lemma_len2_nonneg(r.direction);
    lemma_div_s_mono(
        sub_s(quad_h_s(s, r), sqrtd_s(s, r)),
        add_s(quad_h_s(s, r), sqrtd_s(s, r)),
        quad_a_s(r),
    );
}

/// The nearest qualifying root wins: when both roots lie in the query
/// interval, the hit is at the smaller one.
pub proof fn lemma_nearest_root_wins(s: Sphere, r: Ray, t_min: int, t_max: int)
    requires
        disc_s(s, r) >= 0,
        in_interval(root1_s(s, r), t_min, t_max),
        in_interval(root2_s(s, r), t_min, t_max),
    ensures
        root1_s(s, r) <= root2_s(s, r),
        hit_t_s(s, r, t_min, t_max) == Some(root1_s(s, r)),
{
    lemma_root_order(s, r);
}

/// Narrowing the upper bound of the query interval keeps exactly the hits
/// nearer than the new bound.
pub proof fn lemma_hit_narrow(s: Sphere, r: Ray, t_min: int, t_hi: int, t_hi0: int)
    requires
        t_hi <= t_hi0,
    ensures
        hit_t_s(s, r, t_min, t_hi) == match hit_t_s(s, r, t_min, t_hi0) {
            Some(t) => if t < t_hi {
                Some(t)
            } else {
                None::<int>
            },
            None => None::<int>,
        },
{
    lemma_root_order(s, r);
}

impl Sphere {
    /// A sphere at `center`; a negative radius is clamped to zero.
    pub fn new(center: Vec3, radius: i64, material: Material) -> (r: Sphere)
        ensures
            r.center == center,
            r.radius as int == if radius < 0 {
                0
            } else {
                radius as int
            },
            r.material == material,
    {
        let radius: i64 = if radius < 0 {
            0
        } else {
            radius
        };
        Sphere { center, radius, material }
    }

    /// Test the ray over `[t_min, t_max)`: on a hit, fill the record for the
    /// nearest qualifying root and return true; otherwise leave the record
    /// unchanged and return false.  A negative discriminant never hits.
    pub fn hit(&self, ray: Ray, t_min: i64, t_max: i64, hit_record: &mut HitRecord) -> (r: bool)
        ensures
            r <==> hit_t_s(*self, ray, t_min as int, t_max as int) is Some,
            disc_s(*self, ray) < 0 ==> !r,
            r ==> hit_t_s(*self, ray, t_min as int, t_max as int) == Some(
                final(hit_record).t as int,
            ) && hit_record_for(*self, ray, final(hit_record).t as int, *final(hit_record)),
            !r ==> *final(hit_record) == *old(hit_record),
    {
        let oc: Vec3 = self.center.sub(ray.origin);
        let a: i64 = ray.direction.length_squared();
        let h: i64 = ray.direction.dot(&oc);
        let c: i64 = fsub(oc.length_squared(), fmul(self.radius, self.radius));

        let discriminant: i64 = fsub(fmul(h, h), fmul(a, c));
        if discriminant < 0 {
            return false;
        }

        let sqrtd: i64 = fsqrt(discriminant);

        let mut root: i64 = fdiv(fsub(h, sqrtd), a);
        if !(t_min <= root && root < t_max) {
            root = fdiv(fadd(h, sqrtd), a);
            if !(t_min <= root && root < t_max) {
                return false;
            }
        }

        hit_record.t = root;
        hit_record.point = ray.at(root);
        let outward_normal: Vec3 = hit_record.point.sub(self.center).scale_div(self.radius);
        hit_record.material = self.material;
        hit_record.set_face_normal(&ray, &outward_normal);

        true
    }
}

} // verus!
