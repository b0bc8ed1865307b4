//! The camera: derives the view geometry from scene parameters, generates
//! sampled rays per pixel, and runs the recursive color integration.

use vstd::prelude::*;
use crate::fixed::{add_s, div_s, fadd, fdiv, fmul, fsub, mul_s, sub_s, tdiv, FMAX, SCALE};
use crate::hittable::{HitRecord, Hittable};
use crate::hittable_list::{misses_all, scene_hit_witness, HittableList};
use crate::material::{lemma_unit_ratio_never_total_internal, scatter_outcome};
use crate::random::RandomSource;
use crate::ray::Ray;
use crate::vec3::{
    add_v, color_s, cross_v, gamma_v, hadamard_v, len2_s, lemma_hadamard_zero, neg_v, proper,
    scale_div_v, scale_v, sub_v, sv, unit_box, unit_v, Rgb, Vec3,
};

verus! {

/// The lower ray-parameter bound used against the scene: about a
/// thousandth of a unit, excluding spurious self-intersections at the ray's
/// own origin (shadow acne).
pub const T_MIN_EPS: i64 = 66;

/// A camera: scene-facing configuration plus the geometry derived from it
/// once at construction.  Field-of-view angles enter as the tangent of half
/// the angle, the one form the fixed-point core can take; the conversion
/// from degrees happens at the boundary that owns floating point.
#[derive(Clone, Copy, PartialEq, Eq, Structural, Debug)]
pub struct Camera {
    pub aspect_ratio: i64,
    pub image_width: usize,
    pub samples_per_pixel: usize,
    pub max_depth: usize,
    pub tan_half_vfov: i64,
    pub lookfrom: Vec3,
    pub lookat: Vec3,
    pub vup: Vec3,
    pub tan_half_defocus: i64,
    pub focus_dist: i64,
    pub image_height: usize,
    pub pixel_samples_scale: i64,
    pub center: Vec3,
    pub pixel00_loc: Vec3,
    pub pixel_delta_u: Vec3,
    pub pixel_delta_v: Vec3,
    pub defocus_disk_u: Vec3,
    pub defocus_disk_v: Vec3,
}

/// The image height derived from the width and aspect ratio, floored and at
/// least one.
pub open spec fn derived_height_s(image_width: int, aspect_ratio: int) -> int {
    let t = tdiv(image_width * (SCALE as int), aspect_ratio);
    if t < 1 {
        1
    } else {
        t
    }
}

/// The whole camera derived from its configuration: the orthonormal basis
/// `w, u, v`, the viewport extents from field of view and focus distance,
/// the per-pixel deltas, the location of pixel (0,0), and the defocus-disk
/// basis.
pub open spec fn camera_s(
    aspect_ratio: int,
    image_width: int,
    samples_per_pixel: int,
    max_depth: usize,
    tan_half_vfov: int,
    lookfrom: Vec3,
    lookat: Vec3,
    vup: Vec3,
    tan_half_defocus: int,
    focus_dist: int,
) -> Camera {
    let image_height = derived_height_s(image_width, aspect_ratio);
    let iw_f = image_width * (SCALE as int);
    let ih_f = image_height * (SCALE as int);
    let viewport_height = mul_s(mul_s(2 * (SCALE as int), tan_half_vfov), focus_dist);
    let viewport_width = mul_s(viewport_height, div_s(iw_f, ih_f));
    let w = unit_v(sub_v(lookfrom, lookat));
    let u = unit_v(cross_v(vup, w));
    let v = cross_v(w, u);
    let viewport_u = scale_v(u, viewport_width);
    let viewport_v = scale_v(neg_v(v), viewport_height);
    let pixel_delta_u = scale_div_v(viewport_u, iw_f);
    let pixel_delta_v = scale_div_v(viewport_v, ih_f);
    let upper_left = sub_v(
        sub_v(sub_v(lookfrom, scale_v(w, focus_dist)), scale_v(viewport_u, 32768)),
        scale_v(viewport_v, 32768),
    );
    let pixel00_loc = add_v(upper_left, scale_v(add_v(pixel_delta_u, pixel_delta_v), 32768));
    let defocus_radius = mul_s(focus_dist, tan_half_defocus);
    Camera {
        aspect_ratio: aspect_ratio as i64,
        image_width: image_width as usize,
        samples_per_pixel: samples_per_pixel as usize,
        max_depth,
        tan_half_vfov: tan_half_vfov as i64,
        lookfrom,
        lookat,
        vup,
        tan_half_defocus: tan_half_defocus as i64,
        focus_dist: focus_dist as i64,
        image_height: image_height as usize,
        pixel_samples_scale: div_s(SCALE as int, samples_per_pixel * (SCALE as int)) as i64,
        center: lookfrom,
        pixel00_loc,
        pixel_delta_u,
        pixel_delta_v,
        defocus_disk_u: scale_v(u, defocus_radius),
        defocus_disk_v: scale_v(v, defocus_radius),
    }
}

/// The world-space sample point for pixel `(i, j)`, jittered by `(ox, oy)`.
pub open spec fn pixel_sample_s(cam: Camera, i: int, j: int, ox: int, oy: int) -> Vec3 {
    add_v(
        add_v(cam.pixel00_loc, scale_v(cam.pixel_delta_u, add_s(i * (SCALE as int), ox))),
        scale_v(cam.pixel_delta_v, add_s(j * (SCALE as int), oy)),
    )
}

/// The ray origin on the defocus disk for a unit-disk sample `p`.
pub open spec fn defocus_point_s(cam: Camera, p: Vec3) -> Vec3 {
    add_v(
        cam.center,
        add_v(scale_v(cam.defocus_disk_u, p.x as int), scale_v(cam.defocus_disk_v, p.y as int)),
    )
}

/// The sky gradient a missing ray returns: white blended toward sky blue by
/// the direction's normalized y component remapped from `[-1, 1]` to `[0, 1]`.
pub open spec fn sky_color_s(r: Ray) -> Vec3 {
    let unit_direction = unit_v(r.direction);
    let a = mul_s(add_s(unit_direction.y as int, SCALE as int), 32768);
    add_v(
        scale_v(sv(SCALE as int, SCALE as int, SCALE as int), sub_s(SCALE as int, a)),
        scale_v(sv(32768, 45875, 65536), a),
    )
}

/// The normalized direction's vertical component lies in `[-1, 1]`: true of
/// well-scaled directions, and the hypothesis under which the sky gradient
/// is a genuine convex blend.  (A direction below one real unit of length
/// can normalize outside the unit cube, since its length rounds down.)
pub open spec fn sky_y_bounded(r: Ray) -> bool {
    &&& -(SCALE as int) <= unit_v(r.direction).y as int
    &&& unit_v(r.direction).y as int <= SCALE as int
}

/// For a fraction `c` of one, scaling `a` gives no more than `a` back.
proof fn lemma_channel_at_most(c: int, a: int)
    requires
        0 <= c <= SCALE as int,
        0 <= a <= SCALE as int,
    ensures
        0 <= mul_s(c, a) <= a,
{
    assert(c * a >= 0) by (nonlinear_arith)
        requires
            c >= 0,
            a >= 0,
    ;
    vstd::arithmetic::mul::lemma_mul_inequality(c, SCALE as int, a);
    vstd::arithmetic::div_mod::lemma_div_is_ordered(c * a, (SCALE as int) * a, SCALE as int);
    vstd::arithmetic::div_mod::lemma_div_multiples_vanish(a, SCALE as int);
    vstd::arithmetic::div_mod::lemma_div_pos_is_pos(c * a, SCALE as int);
}

/// Under a bounded normalized vertical component, the sky gradient stays in
/// the unit color box: it is a convex blend of white and the sky blue.
pub proof fn lemma_sky_unit_box(r: Ray)
    requires
        sky_y_bounded(r),
    ensures
        unit_box(sky_color_s(r)),
{
    let uy = unit_v(r.direction).y as int;
    let t = add_s(uy, SCALE as int);
    assert(0 <= t <= 2 * (SCALE as int));
    let a = mul_s(t, 32768);
    assert(t * 32768 >= 0) by (nonlinear_arith)
        requires
            t >= 0,
    ;
    vstd::arithmetic::div_mod::lemma_div_pos_is_pos(t * 32768, 65536int);
    vstd::arithmetic::mul::lemma_mul_inequality(t, 131072, 32768);
    assert(131072int * 32768 == 65536int * 65536) by (nonlinear_arith);
    vstd::arithmetic::div_mod::lemma_div_is_ordered(t * 32768, 65536int * 65536, 65536);
    vstd::arithmetic::div_mod::lemma_div_multiples_vanish(65536int, 65536);
    assert(0 <= a <= SCALE as int);
    let b = sub_s(SCALE as int, a);
    lemma_unit_ratio_never_total_internal(b);
    assert(mul_s(SCALE as int, b) == b);
    lemma_channel_at_most(32768, a);
    lemma_channel_at_most(45875, a);
    lemma_channel_at_most(65536, a);
}

/// A ray the camera can generate for pixel `(i, j)`: aimed at the pixel's
/// cell jittered by up to half a pixel each way, from the camera center, or
/// from a point on the defocus disk when depth of field is on.
pub open spec fn admissible_ray(cam: Camera, i: int, j: int, r: Ray) -> bool {
    exists|ox: int, oy: int|
        #![trigger pixel_sample_s(cam, i, j, ox, oy)]
        -32768 <= ox <= 32768 && -32768 <= oy <= 32768 && ((cam.tan_half_defocus <= 0
            && r.origin == cam.center) || (cam.tan_half_defocus > 0 && exists|p: Vec3|
            proper(p) && len2_s(p) < SCALE as int && r.origin == defocus_point_s(cam, p)))
            && r.direction == sub_v(pixel_sample_s(cam, i, j, ox, oy), r.origin)
}

/// Everything that holds of a color the integrator can return for a ray:
/// black at an exhausted budget; the sky on a miss; black after the single
/// bounce a budget of one allows; and on any deeper hit, either black (the
/// path was absorbed) or the hit member's attenuation shading some further
/// color.
pub open spec fn ray_color_outcome(objects: Seq<Hittable>, r: Ray, depth: usize, c: Vec3) -> bool
    decreases depth,
{
    if depth == 0 {
        c == sv(0, 0, 0)
    } else {
        &&& proper(c)
        &&& misses_all(objects, r, T_MIN_EPS as int, FMAX as int) ==> c == sky_color_s(r)
        &&& misses_all(objects, r, T_MIN_EPS as int, FMAX as int) && sky_y_bounded(r) ==> unit_box(
            c,
        )
        &&& depth == 1 && !misses_all(objects, r, T_MIN_EPS as int, FMAX as int) ==> c == sv(
            0,
            0,
            0,
        )
        &&& !misses_all(objects, r, T_MIN_EPS as int, FMAX as int) ==> exists|rec: HitRecord, i: int|
            #![trigger scene_hit_witness(objects, r, T_MIN_EPS as int, FMAX as int, rec, i)]
            scene_hit_witness(objects, r, T_MIN_EPS as int, FMAX as int, rec, i) && ((exists|
                att: Vec3,
                sc: Ray,
                rest: Vec3,
            |
                #![trigger scatter_outcome(rec.material, r, rec, true, att, sc), hadamard_v(att, rest)]
                scatter_outcome(rec.material, r, rec, true, att, sc) && ray_color_outcome(
                    objects,
                    sc,
                    (depth - 1) as usize,
                    rest,
                ) && c == hadamard_v(att, rest)) || (exists|att: Vec3, sc: Ray|
                #![trigger scatter_outcome(rec.material, r, rec, false, att, sc)]
                scatter_outcome(rec.material, r, rec, false, att, sc) && c == sv(0, 0, 0)))
    }
}

/// The saturating sum of a sequence of sample colors, in accumulation order.
pub open spec fn sum_v(s: Seq<Vec3>) -> Vec3
    decreases s.len(),
{
    if s.len() == 0 {
        sv(0, 0, 0)
    } else {
        add_v(sum_v(s.drop_last()), s.last())
    }
}

/// A color one sample can contribute to a pixel: the integrator's outcome
/// for some admissible camera ray of pixel `(i, j)`.
pub open spec fn sample_admissible(
    cam: Camera,
    objects: Seq<Hittable>,
    i: int,
    j: int,
    c: Vec3,
) -> bool {
    exists|r: Ray|
        #![trigger ray_color_outcome(objects, r, cam.max_depth, c)]
        admissible_ray(cam, i, j, r) && ray_color_outcome(objects, r, cam.max_depth, c)
}

/// Everything that holds of a finished pixel: it is the gamma-corrected,
/// clamped average of `samples_per_pixel` admissible sample colors; a zero
/// depth budget forces black; and so does a budget of one when every
/// admissible ray of the pixel hits the scene.
pub open spec fn pixel_outcome(cam: Camera, objects: Seq<Hittable>, i: int, j: int, out: Rgb) -> bool {
    &&& exists|samples: Seq<Vec3>|
        #![trigger sum_v(samples)]
        samples.len() == cam.samples_per_pixel as int && (forall|k: int|
            0 <= k < samples.len() ==> sample_admissible(cam, objects, i, j, #[trigger] samples[k]))
            && out == color_s(
            gamma_v(scale_v(sum_v(samples), cam.pixel_samples_scale as int)),
            65535,
        )
    &&& cam.max_depth == 0 ==> out == (Rgb { r: 0, g: 0, b: 0 })
    &&& cam.max_depth == 1 && (forall|r: Ray|
        admissible_ray(cam, i, j, r) ==> !misses_all(
            objects,
            r,
            T_MIN_EPS as int,
            FMAX as int,
        )) ==> out == (Rgb { r: 0, g: 0, b: 0 })
}

impl Camera {
    /// Build a camera and derive its view geometry.  The bounds keep the
    /// derived image height and the per-pixel arithmetic within the machine
    /// range.
    pub fn new(
        aspect_ratio: i64,
        image_width: usize,
        samples_per_pixel: usize,
        max_depth: usize,
        tan_half_vfov: i64,
        lookfrom: Vec3,
        lookat: Vec3,
        vup: Vec3,
        tan_half_defocus: i64,
        focus_dist: i64,
    ) -> (r: Camera)
        requires
            aspect_ratio > 0,
            1 <= image_width <= 1000000,
            tdiv(image_width as int * (SCALE as int), aspect_ratio as int) <= 1000000,
            1 <= samples_per_pixel <= 65536,
        ensures
            r == camera_s(
                aspect_ratio as int,
                image_width as int,
                samples_per_pixel as int,
                max_depth,
                tan_half_vfov as int,
                lookfrom,
                lookat,
                vup,
                tan_half_defocus as int,
                focus_dist as int,
            ),
    {
        let ihw: u128 = (image_width as u128) * 65536 / (aspect_ratio as u128);
        let image_height: usize = if ihw < 1 {
            1
        } else {
            ihw as usize
        };

        let iw_f: i64 = (image_width as i64) * 65536;
        let ih_f: i64 = (image_height as i64) * 65536;

        let pixel_samples_scale: i64 = fdiv(65536, (samples_per_pixel as i64) * 65536);

        let viewport_height: i64 = fmul(fmul(131072, tan_half_vfov), focus_dist);
        let viewport_width: i64 = fmul(viewport_height, fdiv(iw_f, ih_f));
        let center: Vec3 = lookfrom;

        let w: Vec3 = lookfrom.sub(lookat).normal();
        let u: Vec3 = vup.cross(&w).normal();
        let v: Vec3 = w.cross(&u);

        let viewport_u: Vec3 = u.scale(viewport_width);
        let viewport_v: Vec3 = v.neg().scale(viewport_height);

        let pixel_delta_u: Vec3 = viewport_u.scale_div(iw_f);
        let pixel_delta_v: Vec3 = viewport_v.scale_div(ih_f);

        let viewport_upper_left: Vec3 = center
            .sub(w.scale(focus_dist))
            .sub(viewport_u.scale(32768))
            .sub(viewport_v.scale(32768));
        let pixel00_loc: Vec3 = viewport_upper_left.add(
            pixel_delta_u.add(pixel_delta_v).scale(32768),
        );

        let defocus_radius: i64 = fmul(focus_dist, tan_half_defocus);
        let defocus_disk_u: Vec3 = u.scale(defocus_radius);
        let defocus_disk_v: Vec3 = v.scale(defocus_radius);

        Camera {
            aspect_ratio,
            image_width,
            samples_per_pixel,
            max_depth,
            tan_half_vfov,
            lookfrom,
            lookat,
            vup,
            tan_half_defocus,
            focus_dist,
            image_height,
            pixel_samples_scale,
            center,
            pixel00_loc,
            pixel_delta_u,
            pixel_delta_v,
            defocus_disk_u,
            defocus_disk_v,
        }
    }

    /// A ray origin sampled on the defocus disk.
    fn defocus_disk_sample(&self, rng: &mut RandomSource) -> (r: Vec3)
        ensures
            exists|p: Vec3|
                proper(p) && len2_s(p) < SCALE as int && r == defocus_point_s(*self, p),
    {
        let p: Vec3 = Vec3::random_in_disc(rng);
        let r: Vec3 = self.center.add(
            self.defocus_disk_u.scale(p.x).add(self.defocus_disk_v.scale(p.y)),
        );
        proof {
            assert(proper(p) && len2_s(p) < SCALE as int && r == defocus_point_s(*self, p));
        }
        r
    }

    /// A camera ray for pixel `(i, j)`: directed at a point jittered
    /// uniformly within the pixel's cell, originating at the camera center,
    /// or on the defocus disk when depth of field is on.
    pub fn get_ray(&self, i: usize, j: usize, rng: &mut RandomSource) -> (r: Ray)
        requires
            i as int <= 140737488355327,
            j as int <= 140737488355327,
        ensures
            admissible_ray(*self, i as int, j as int, r),
            self.tan_half_defocus <= 0 ==> r.origin == self.center,
    {
        let ox: i64 = rng.jitter();
        let oy: i64 = rng.jitter();
        let pixel_sample: Vec3 = self.pixel00_loc.add(
            self.pixel_delta_u.scale(fadd((i as i64) * 65536, ox)),
        ).add(self.pixel_delta_v.scale(fadd((j as i64) * 65536, oy)));

        let ray_origin: Vec3 = if self.tan_half_defocus <= 0 {
            self.center
        } else {
            self.defocus_disk_sample(rng)
        };
        let ray_direction: Vec3 = pixel_sample.sub(ray_origin);

        let r: Ray = Ray::new(ray_origin, ray_direction);
        proof {
            assert(pixel_sample == pixel_sample_s(*self, i as int, j as int, ox as int, oy as int));
            assert(admissible_ray(*self, i as int, j as int, r));
        }
        r
    }

    /// The color carried back along a ray: black once the depth budget is
    /// exhausted; on a hit, the material's attenuation times the color of the
    /// scattered ray, or black on absorption; on a miss, the sky gradient.
    pub fn ray_color(
        &self,
        ray: &Ray,
        depth: usize,
        world: &HittableList,
        rng: &mut RandomSource,
    ) -> (r: Vec3)
        ensures
            ray_color_outcome(world.objects@, *ray, depth, r),
        decreases depth,
    {
        if depth == 0 {
            return Vec3::zero();
        }
        let mut record: HitRecord = HitRecord::new();
        if world.hit(*ray, T_MIN_EPS, 9223372036854775807, &mut record) {
            let mut scattered: Ray = Ray::new(Vec3::zero(), Vec3::zero());
            let mut attenuation: Vec3 = Vec3::zero();
            if record.material.scatter(ray, &record, &mut attenuation, &mut scattered, rng) {
                let rest: Vec3 = self.ray_color(&scattered, depth - 1, world, rng);
                proof {
                    if depth == 1 {
                        lemma_hadamard_zero(attenuation);
                    }
                    let wi = choose|i: int|
                        scene_hit_witness(
                            world.objects@,
                            *ray,
                            T_MIN_EPS as int,
                            FMAX as int,
                            record,
                            i,
                        );
                    assert(scene_hit_witness(
                        world.objects@,
                        *ray,
                        T_MIN_EPS as int,
                        FMAX as int,
                        record,
                        wi,
                    ));
                    assert(scatter_outcome(
                        record.material,
                        *ray,
                        record,
                        true,
                        attenuation,
                        scattered,
                    ));
                    assert(ray_color_outcome(world.objects@, scattered, (depth - 1) as usize, rest));
                }
                return attenuation.hadamard(rest);
            }
            proof {
                let wi = choose|i: int|
                    scene_hit_witness(
                        world.objects@,
                        *ray,
                        T_MIN_EPS as int,
                        FMAX as int,
                        record,
                        i,
                    );
                assert(scene_hit_witness(
                    world.objects@,
                    *ray,
                    T_MIN_EPS as int,
                    FMAX as int,
                    record,
                    wi,
                ));
                assert(scatter_outcome(
                    record.material,
                    *ray,
                    record,
                    false,
                    attenuation,
                    scattered,
                ));
            }
            return Vec3::zero();
        }
        let unit_direction: Vec3 = ray.direction.normal();
        let a: i64 = fmul(fadd(unit_direction.y, 65536), 32768);
        proof {
            if sky_y_bounded(*ray) {
                lemma_sky_unit_box(*ray);
            }
        }
        Vec3::one().scale(fsub(65536, a)).add(Vec3::new(32768, 45875, 65536).scale(a))
    }

    /// The finished color of one pixel: the average of `samples_per_pixel`
    /// independent estimates, gamma-corrected and scaled to the sink's
    /// 16-bit channel range.  A zero depth budget renders black.
    pub fn render_pixel(
        &self,
        i: usize,
        j: usize,
        world: &HittableList,
        rng: &mut RandomSource,
    ) -> (r: Rgb)
        requires
            i as int <= 140737488355327,
            j as int <= 140737488355327,
        ensures
            pixel_outcome(*self, world.objects@, i as int, j as int, r),
            self.max_depth == 0 ==> r == (Rgb { r: 0, g: 0, b: 0 }),
    {
        let ghost mut samples: Seq<Vec3> = Seq::empty();
        let mut color: Vec3 = Vec3::zero();
        let mut s: usize = 0;
        while s < self.samples_per_pixel
            invariant
                i as int <= 140737488355327,
                j as int <= 140737488355327,
                s <= self.samples_per_pixel,
                samples.len() == s as int,
                color == sum_v(samples),
                forall|k: int|
                    0 <= k < samples.len() ==> sample_admissible(
                        *self,
                        world.objects@,
                        i as int,
                        j as int,
                        #[trigger] samples[k],
                    ),
                self.max_depth == 0 ==> color == sv(0, 0, 0),
                self.max_depth == 1 && (forall|rr: Ray|
                    admissible_ray(*self, i as int, j as int, rr) ==> !misses_all(
                        world.objects@,
                        rr,
                        T_MIN_EPS as int,
                        FMAX as int,
                    )) ==> color == sv(0, 0, 0),
            decreases self.samples_per_pixel - s,
        {
            let ray: Ray = self.get_ray(i, j, rng);
            let sample_color: Vec3 = self.ray_color(&ray, self.max_depth, world, rng);
            color = color.add(sample_color);
            proof {
                let pre = samples;
                samples = samples.push(sample_color);
                assert(samples.drop_last() =~= pre);
                assert(sample_admissible(*self, world.objects@, i as int, j as int, sample_color));
            }
            s = s + 1;
        }
        proof {
            if self.max_depth == 0 || (self.max_depth == 1 && (forall|rr: Ray|
                admissible_ray(*self, i as int, j as int, rr) ==> !misses_all(
                    world.objects@,
                    rr,
                    T_MIN_EPS as int,
                    FMAX as int,
                ))) {
                assert(color == sv(0, 0, 0));
                assert(0int * self.pixel_samples_scale as int == 0) by (nonlinear_arith);
            }
        }
        color = color.scale(self.pixel_samples_scale);
        color.color_correct();
        let out: Rgb = color.color(65535);
        proof {
            assert(out == color_s(
                gamma_v(scale_v(sum_v(samples), self.pixel_samples_scale as int)),
                65535,
            ));
            assert(exists|smp: Seq<Vec3>|
                #![trigger sum_v(smp)]
                smp.len() == self.samples_per_pixel as int && (forall|k: int|
                    0 <= k < smp.len() ==> sample_admissible(
                        *self,
                        world.objects@,
                        i as int,
                        j as int,
                        #[trigger] smp[k],
                    )) && out == color_s(
                    gamma_v(scale_v(sum_v(smp), self.pixel_samples_scale as int)),
                    65535,
                ));
            if self.max_depth == 0 {
                assert(out == (Rgb { r: 0, g: 0, b: 0 }));
            }
            if self.max_depth == 1 && (forall|rr: Ray|
                admissible_ray(*self, i as int, j as int, rr) ==> !misses_all(
                    world.objects@,
                    rr,
                    T_MIN_EPS as int,
                    FMAX as int,
                )) {
                assert(out == (Rgb { r: 0, g: 0, b: 0 }));
            }
        }
        out
    }

    /// Render the whole image into a row-major pixel buffer of
    /// `image_height` rows of `image_width` pixels.
    pub fn render(&self, world: &HittableList, rng: &mut RandomSource) -> (r: Vec<Rgb>)
        requires
            self.image_width <= 32768,
            self.image_height <= 32768,
        ensures
            r@.len() == self.image_height as int * self.image_width as int,
            forall|k: int|
                0 <= k < r@.len() ==> pixel_outcome(
                    *self,
                    world.objects@,
                    k % (self.image_width as int),
                    k / (self.image_width as int),
                    #[trigger] r@[k],
                ),
            self.max_depth == 0 ==> forall|k: int|
                0 <= k < r@.len() ==> r@[k] == (Rgb { r: 0, g: 0, b: 0 }),
    {
        let mut pixels: Vec<Rgb> = Vec::new();
        let mut j: usize = 0;
        while j < self.image_height
            invariant
                self.image_width <= 32768,
                self.image_height <= 32768,
                j <= self.image_height,
                pixels@.len() == j as int * self.image_width as int,
                forall|k: int|
                    0 <= k < pixels@.len() ==> pixel_outcome(
                        *self,
                        world.objects@,
                        k % (self.image_width as int),
                        k / (self.image_width as int),
                        #[trigger] pixels@[k],
                    ),
                self.max_depth == 0 ==> forall|k: int|
                    0 <= k < pixels@.len() ==> pixels@[k] == (Rgb { r: 0, g: 0, b: 0 }),
            decreases self.image_height - j,
        {
            let mut i: usize = 0;
            while i < self.image_width
                invariant
                    self.image_width <= 32768,
                    self.image_height <= 32768,
                    j < self.image_height,
                    i <= self.image_width,
                    pixels@.len() == j as int * self.image_width as int + i as int,
                    forall|k: int|
                        0 <= k < pixels@.len() ==> pixel_outcome(
                            *self,
                            world.objects@,
                            k % (self.image_width as int),
                            k / (self.image_width as int),
                            #[trigger] pixels@[k],
                        ),
                    self.max_depth == 0 ==> forall|k: int|
                        0 <= k < pixels@.len() ==> pixels@[k] == (Rgb { r: 0, g: 0, b: 0 }),
                decreases self.image_width - i,
            {
                assert(pixels@.len() < 32768 * 32768 + 32768) by (nonlinear_arith)
                    requires
                        pixels@.len() == j as int * self.image_width as int + i as int,
                        j < self.image_height,
                        i < self.image_width,
                        self.image_width <= 32768,
                        self.image_height <= 32768,
                ;
                let p: Rgb = self.render_pixel(i, j, world, rng);
                pixels.push(p);
                proof {
                    let w = self.image_width as int;
                    assert(w * (j as int) == (j as int) * w) by (nonlinear_arith);
                    vstd::arithmetic::div_mod::lemma_mod_multiples_vanish(j as int, i as int, w);
                    vstd::arithmetic::div_mod::lemma_small_mod(i as nat, w as nat);
                    vstd::arithmetic::div_mod::lemma_div_multiples_vanish_fancy(
                        j as int,
                        i as int,
                        w,
                    );
                    assert(((j as int) * w + (i as int)) % w == i as int);
                    assert(((j as int) * w + (i as int)) / w == j as int);
                }
                i = i + 1;
            }
            proof {
                assert((j as int + 1) * self.image_width as int == j as int
                    * self.image_width as int + self.image_width as int) by (nonlinear_arith);
            }
            j = j + 1;
        }
        pixels
    }
}

} // verus!
