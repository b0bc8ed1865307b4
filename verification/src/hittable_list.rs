//! The scene aggregate: an ordered collection of primitives that reduces to
//! the single nearest hit.

use vstd::prelude::*;
use crate::hittable::{
    hittable_hit_t, hittable_record_for, lemma_hittable_narrow, HitRecord, Hittable,
};
use crate::ray::Ray;

verus! {

/// A collection of primitives, hit-tested as a whole.
pub struct HittableList {
    pub objects: Vec<Hittable>,
}

/// Index `i` is the member whose hit the aggregate reports: it hits at the
/// record's parameter, the record describes that hit, and every earlier
/// member's hit (over the same full interval) is strictly farther — so ties
/// at the minimal parameter go to the earliest member.
pub open spec fn scene_hit_witness(
    objects: Seq<Hittable>,
    r: Ray,
    t_min: int,
    t_max: int,
    rec: HitRecord,
    i: int,
) -> bool {
    &&& 0 <= i < objects.len()
    &&& hittable_hit_t(objects[i], r, t_min, t_max) == Some(rec.t as int)
    &&& hittable_record_for(objects[i], r, rec.t as int, rec)
    &&& forall|j: int|
        #![trigger objects[j]]
        0 <= j < i ==> match hittable_hit_t(objects[j], r, t_min, t_max) {
            Some(tj) => (rec.t as int) < tj,
            None => true,
        }
}

/// No member of the collection is hit by the ray within the interval.
pub open spec fn misses_all(objects: Seq<Hittable>, r: Ray, t_min: int, t_max: int) -> bool {
    forall|i: int|
        #![trigger objects[i]]
        0 <= i < objects.len() ==> !(hittable_hit_t(objects[i], r, t_min, t_max) is Some)
}

impl HittableList {
    /// An empty scene.
    pub fn new() -> (r: HittableList)
        ensures
            r.objects@.len() == 0,
    {
        HittableList { objects: Vec::new() }
    }

    /// Test the ray against every member, narrowing the search interval to
    /// the closest hit found so far, and report the nearest hit overall: the
    /// result is the minimum-by-t over each member's individual hit within
    /// `[t_min, t_max)`.  On a miss the record is left unchanged.
    pub fn hit(&self, ray: Ray, t_min: i64, t_max: i64, hit_record: &mut HitRecord) -> (r: bool)
        ensures
            r <==> !misses_all(self.objects@, ray, t_min as int, t_max as int),
            r ==> exists|i: int|
                scene_hit_witness(
                    self.objects@,
                    ray,
                    t_min as int,
                    t_max as int,
                    *final(hit_record),
                    i,
                ),
            r ==> forall|j: int|
                #![trigger self.objects@[j]]
                0 <= j < self.objects@.len() ==> (hittable_hit_t(
                    self.objects@[j],
                    ray,
                    t_min as int,
                    t_max as int,
                ) matches Some(tj) ==> final(hit_record).t as int <= tj),
            !r ==> *final(hit_record) == *old(hit_record),
    {
        let mut temp_record: HitRecord = HitRecord::new();
        let mut hit_anything: bool = false;
        let mut closest_so_far: i64 = t_max;
        let mut idx: usize = 0;

        while idx < self.objects.len()
            invariant
                idx <= self.objects@.len(),
                !hit_anything ==> closest_so_far == t_max && *hit_record == *old(hit_record)
                    && forall|i: int|
                    #![trigger self.objects@[i]]
                    0 <= i < idx ==> !(hittable_hit_t(
                        self.objects@[i],
                        ray,
                        t_min as int,
                        t_max as int,
                    ) is Some),
                hit_anything ==> closest_so_far == hit_record.t && exists|i: int|
                    i < idx && scene_hit_witness(
                        self.objects@,
                        ray,
                        t_min as int,
                        t_max as int,
                        *hit_record,
                        i,
                    ),
                hit_anything ==> forall|i: int|
                    #![trigger self.objects@[i]]
                    0 <= i < idx ==> (hittable_hit_t(
                        self.objects@[i],
                        ray,
                        t_min as int,
                        t_max as int,
                    ) matches Some(ti) ==> hit_record.t as int <= ti),
            decreases self.objects@.len() - idx,
        {
            let object: &Hittable = &self.objects[idx];
            proof {
                lemma_hittable_narrow(
                    *object,
                    ray,
                    t_min as int,
                    closest_so_far as int,
                    t_max as int,
                );
            }
            if object.hit(ray, t_min, closest_so_far, &mut temp_record) {
                hit_anything = true;
                closest_so_far = temp_record.t;
                *hit_record = temp_record;
                proof {
                    assert(scene_hit_witness(
                        self.objects@,
                        ray,
                        t_min as int,
                        t_max as int,
                        *hit_record,
                        idx as int,
                    ));
                }
            }
            idx = idx + 1;
        }

        hit_anything
    }
}

} // verus!
