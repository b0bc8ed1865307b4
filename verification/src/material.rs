//! Material scattering models: diffuse (Lambertian), specular (Metal) and
//! transmissive (Dielectric), dispatched over a tagged variant.

use vstd::prelude::*;
use crate::fixed::{
    add_s, div_s, fadd, fdiv, fmin, fmul, fsqrt, fsub, min_s, mul_s, sqrt_s, sub_s, SCALE,
};
use crate::hittable::HitRecord;
use crate::random::RandomSource;
use crate::ray::Ray;
use crate::vec3::{
    add_v, dot_s, len2_s, near_zero_s, neg_v, reflect_v, refract_v, scale_v, sv, unit_v, Vec3,
};

verus! {

/// Diffuse scattering: reflect into the hemisphere around the normal,
/// attenuated by the albedo.
#[derive(Clone, Copy, PartialEq, Eq, Structural, Debug)]
pub struct Lambertian {
    pub albedo: Vec3,
}

/// Specular scattering: mirror the ray, blurred by a fuzz factor in `[0, 1]`.
#[derive(Clone, Copy, PartialEq, Eq, Structural, Debug)]
pub struct Metal {
    pub albedo: Vec3,
    pub fuzz: i64,
}

/// Transmissive scattering: refract or reflect at the boundary, chosen
/// stochastically by the Fresnel reflectance.
#[derive(Clone, Copy, PartialEq, Eq, Structural, Debug)]
pub struct Dielectric {
    pub refraction_index: i64,
}

/// The scattering capability, as a tagged variant over the models.
#[derive(Clone, Copy, PartialEq, Eq, Structural, Debug)]
pub enum Material {
    Lambertian(Lambertian),
    Metal(Metal),
    Dielectric(Dielectric),
}

/// The ratio of refractive indices a dielectric presents to a ray: inverted
/// when the ray meets the front face from outside.
pub open spec fn dielectric_ratio_s(d: Dielectric, front_face: bool) -> int {
    if front_face {
        div_s(SCALE as int, d.refraction_index as int)
    } else {
        d.refraction_index as int
    }
}

/// The cosine a dielectric sees at a hit: the unit incoming direction
/// against the oriented normal, clamped to at most one.
pub open spec fn dielectric_cos_s(r: Ray, n: Vec3) -> int {
    min_s(dot_s(neg_v(unit_v(r.direction)), n), SCALE as int)
}

/// The matching sine, by the Pythagorean identity.
pub open spec fn dielectric_sin_s(r: Ray, n: Vec3) -> int {
    sqrt_s(sub_s(SCALE as int, mul_s(dielectric_cos_s(r, n), dielectric_cos_s(r, n))))
}

/// Everything each scattering model promises of a scatter it produced:
/// the success flag `ok`, attenuation `att` and scattered ray `sc` that a
/// call on material `m` for ray `ray` at record `rec` can leave behind.
pub open spec fn scatter_outcome(
    m: Material,
    ray: Ray,
    rec: HitRecord,
    ok: bool,
    att: Vec3,
    sc: Ray,
) -> bool {
    &&& sc.origin == rec.point
    &&& match m {
        Material::Lambertian(l) => {
            &&& ok
            &&& att == l.albedo
            &&& !near_zero_s(rec.normal) ==> !near_zero_s(sc.direction)
            &&& exists|s: Vec3|
                #![trigger len2_s(s)]
                len2_s(s) < SCALE as int && (sc.direction == add_v(rec.normal, s) || sc.direction
                    == rec.normal)
        },
        Material::Metal(mm) => {
            &&& att == mm.albedo
            &&& ok == (dot_s(sc.direction, rec.normal) > 0)
            &&& mm.fuzz == 0 ==> sc.direction == unit_v(reflect_v(ray.direction, rec.normal))
            &&& exists|s: Vec3|
                #![trigger len2_s(s)]
                len2_s(s) < SCALE as int && sc.direction == add_v(
                    unit_v(reflect_v(ray.direction, rec.normal)),
                    scale_v(s, mm.fuzz as int),
                )
        },
        Material::Dielectric(d) => {
            &&& ok
            &&& att == sv(SCALE as int, SCALE as int, SCALE as int)
            &&& (sc.direction == reflect_v(unit_v(ray.direction), rec.normal) || sc.direction
                == refract_v(
                unit_v(ray.direction),
                rec.normal,
                dielectric_ratio_s(d, rec.front_face),
            ))
            &&& mul_s(dielectric_ratio_s(d, rec.front_face), dielectric_sin_s(ray, rec.normal))
                > SCALE as int ==> sc.direction == reflect_v(unit_v(ray.direction), rec.normal)
        },
    }
}

/// Schlick's approximation to the Fresnel reflectance for cosine `cos` and
/// index ratio `ri`: `r0 + (1 - r0) * (1 - cos)^5` with
/// `r0 = ((1 - ri) / (1 + ri))^2`.
pub open spec fn schlick_s(cos: int, ri: int) -> int {
    let r0a = div_s(sub_s(SCALE as int, ri), add_s(SCALE as int, ri));
    let r0 = mul_s(r0a, r0a);
    let m = sub_s(SCALE as int, cos);
    let m2 = mul_s(m, m);
    let m4 = mul_s(m2, m2);
    let m5 = mul_s(m4, m);
    add_s(r0, mul_s(sub_s(SCALE as int, r0), m5))
}

/// Schlick's reflectance approximation.
fn schlick(cos: i64, ri: i64) -> (r: i64)
    ensures
        r as int == schlick_s(cos as int, ri as int),
{
    let r0a: i64 = fdiv(fsub(65536, ri), fadd(65536, ri));
    let r0: i64 = fmul(r0a, r0a);
    let m: i64 = fsub(65536, cos);
    let m2: i64 = fmul(m, m);
    let m4: i64 = fmul(m2, m2);
    let m5: i64 = fmul(m4, m);
    fadd(r0, fmul(fsub(65536, r0), m5))
}

/// A medium with refractive index one never forces total internal
/// reflection: scaling any sine not above one by the unit ratio keeps it not
/// above one, so the refraction branch stays open.
pub proof fn lemma_unit_ratio_never_total_internal(sin_theta: int)
    requires
        0 <= sin_theta <= SCALE as int,
    ensures
        mul_s(SCALE as int, sin_theta) == sin_theta,
{
    vstd::arithmetic::div_mod::lemma_div_multiples_vanish(sin_theta, SCALE as int);
    assert((SCALE as int) * sin_theta >= 0) by (nonlinear_arith)
        requires
            sin_theta >= 0,
    ;
}

impl Lambertian {
    pub fn new(albedo: Vec3) -> (r: Lambertian)
        ensures
            r == (Lambertian { albedo }),
    {
        Lambertian { albedo }
    }

    /// Scatter toward the normal plus a random unit-sphere sample, falling
    /// back to the bare normal when the sum degenerates; always scatters.
    pub fn scatter(
        &self,
        _ray: &Ray,
        hit_record: &HitRecord,
        attenuation: &mut Vec3,
        scattered: &mut Ray,
        rng: &mut RandomSource,
    ) -> (r: bool)
        ensures
            r,
            *final(attenuation) == self.albedo,
            final(scattered).origin == hit_record.point,
            !near_zero_s(hit_record.normal) ==> !near_zero_s(final(scattered).direction),
            exists|s: Vec3|
                #![trigger len2_s(s)]
                len2_s(s) < SCALE as int && (final(scattered).direction == add_v(
                    hit_record.normal,
                    s,
                ) || final(scattered).direction == hit_record.normal),
    {
        let sample: Vec3 = Vec3::random(rng);
        let mut scatter_direction: Vec3 = hit_record.normal.add(sample);
        if scatter_direction.near_zero() {
            scatter_direction = hit_record.normal;
        }
        *scattered = Ray::new(hit_record.point, scatter_direction);
        *attenuation = self.albedo;
        true
    }
}

impl Metal {
    /// The fuzz factor is clamped into `[0, 1]`.
    pub fn new(albedo: Vec3, fuzz: i64) -> (r: Metal)
        ensures
            r.albedo == albedo,
            r.fuzz as int == if fuzz < 0 {
                0
            } else {
                min_s(fuzz as int, SCALE as int)
            },
    {
        let fuzz: i64 = fmin(fuzz, 65536);
        let fuzz: i64 = if fuzz < 0 {
            0
        } else {
            fuzz
        };
        Metal { albedo, fuzz }
    }

    /// Scatter along the mirrored direction, normalized and perturbed by
    /// `fuzz` times a random unit-sphere sample; succeeds only if the result
    /// still points away from the surface.
    pub fn scatter(
        &self,
        ray: &Ray,
        hit_record: &HitRecord,
        attenuation: &mut Vec3,
        scattered: &mut Ray,
        rng: &mut RandomSource,
    ) -> (r: bool)
        ensures
            *final(attenuation) == self.albedo,
            final(scattered).origin == hit_record.point,
            r == (dot_s(final(scattered).direction, hit_record.normal) > 0),
            self.fuzz == 0 ==> final(scattered).direction == unit_v(
                reflect_v(ray.direction, hit_record.normal),
            ),
            exists|s: Vec3|
                #![trigger len2_s(s)]
                len2_s(s) < SCALE as int && final(scattered).direction == add_v(
                    unit_v(reflect_v(ray.direction, hit_record.normal)),
                    scale_v(s, self.fuzz as int),
                ),
    {
        let reflected: Vec3 = ray.direction.reflected(&hit_record.normal);
        let sample: Vec3 = Vec3::random(rng);
        let fuzzed: Vec3 = reflected.normal().add(sample.scale(self.fuzz));
        assert(fuzzed == add_v(
            unit_v(reflect_v(ray.direction, hit_record.normal)),
            scale_v(sample, self.fuzz as int),
        ));
        proof {
            if self.fuzz == 0 {
                let u = unit_v(reflect_v(ray.direction, hit_record.normal));
                assert(sample.x as int * 0 == 0) by (nonlinear_arith);
                assert(sample.y as int * 0 == 0) by (nonlinear_arith);
                assert(sample.z as int * 0 == 0) by (nonlinear_arith);
                assert(scale_v(sample, 0) == sv(0, 0, 0));
                assert(fuzzed == u);
            }
        }
        *scattered = Ray::new(hit_record.point, fuzzed);
        *attenuation = self.albedo;
        scattered.direction.dot(&hit_record.normal) > 0
    }
}

impl Dielectric {
    pub fn new(refraction_index: i64) -> (r: Dielectric)
        ensures
            r == (Dielectric { refraction_index }),
    {
        Dielectric { refraction_index }
    }

    /// Refract where Snell's law allows it and the Fresnel reflectance loses
    /// a uniform draw; reflect otherwise.  Always scatters, with no
    /// attenuation (white).
    pub fn scatter(
        &self,
        ray: &Ray,
        hit_record: &HitRecord,
        attenuation: &mut Vec3,
        scattered: &mut Ray,
        rng: &mut RandomSource,
    ) -> (r: bool)
        ensures
            r,
            *final(attenuation) == sv(SCALE as int, SCALE as int, SCALE as int),
            final(scattered).origin == hit_record.point,
            final(scattered).direction == reflect_v(
                unit_v(ray.direction),
                hit_record.normal,
            ) || final(scattered).direction == refract_v(
                unit_v(ray.direction),
                hit_record.normal,
                dielectric_ratio_s(*self, hit_record.front_face),
            ),
            mul_s(
                dielectric_ratio_s(*self, hit_record.front_face),
                dielectric_sin_s(*ray, hit_record.normal),
            ) > SCALE as int ==> final(scattered).direction == reflect_v(
                unit_v(ray.direction),
                hit_record.normal,
            ),
    {
        let ri: i64 = if hit_record.front_face {
            fdiv(65536, self.refraction_index)
        } else {
            self.refraction_index
        };
        let unit_direction: Vec3 = ray.direction.normal();
        let cos_theta: i64 = fmin(unit_direction.neg().dot(&hit_record.normal), 65536);
        let sin_theta: i64 = fsqrt(fsub(65536, fmul(cos_theta, cos_theta)));
        let cannot_refract: bool = fmul(ri, sin_theta) > 65536;
        let direction: Vec3 = if cannot_refract || schlick(cos_theta, ri) > rng.unit_interval() {
            unit_direction.reflected(&hit_record.normal)
        } else {
            unit_direction.refracted(&hit_record.normal, ri)
        };
        *scattered = Ray::new(hit_record.point, direction);
        *attenuation = Vec3::one();
        true
    }
}

impl Material {
    /// Ask the material to scatter an incoming ray at a hit: on success the
    /// attenuation color and the scattered ray are written; on failure the
    /// ray is absorbed.
    pub fn scatter(
        &self,
        ray: &Ray,
        hit_record: &HitRecord,
        attenuation: &mut Vec3,
        scattered: &mut Ray,
        rng: &mut RandomSource,
    ) -> (r: bool)
        ensures
            scatter_outcome(*self, *ray, *hit_record, r, *final(attenuation), *final(scattered)),
    {
        match self {
            Material::Lambertian(l) => l.scatter(ray, hit_record, attenuation, scattered, rng),
            Material::Metal(m) => m.scatter(ray, hit_record, attenuation, scattered, rng),
            Material::Dielectric(d) => d.scatter(ray, hit_record, attenuation, scattered, rng),
        }
    }
}

} // verus!
