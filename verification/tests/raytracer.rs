//! Tests of the fixed-point tracer: exact arithmetic values, the
//! intersection rules, the scattering models, and whole renders.

use raytracer::{
    Camera, Dielectric, HitRecord, Hittable, HittableList, Lambertian, Material, Metal,
    RandomSource, Ray, Rgb, Sphere, Vec3,
};

const ONE: i64 = 65536;
const HALF: i64 = 32768;

fn unit_z_neg() -> Vec3 {
    Vec3::new(0, 0, -ONE)
}

#[test]
fn fixed_mul_exact() {
    assert_eq!(raytracer::fixed::fmul(2 * ONE, 3 * ONE), 6 * ONE);
    assert_eq!(raytracer::fixed::fmul(-2 * ONE, 3 * ONE), -6 * ONE);
    assert_eq!(raytracer::fixed::fmul(0, 12345), 0);
}

#[test]
fn fixed_div_exact_and_by_zero() {
    assert_eq!(raytracer::fixed::fdiv(6 * ONE, 3 * ONE), 2 * ONE);
    assert_eq!(raytracer::fixed::fdiv(-6 * ONE, 3 * ONE), -2 * ONE);
    assert_eq!(raytracer::fixed::fdiv(ONE, 0), 0);
}

#[test]
fn fixed_sqrt_exact_and_negative() {
    assert_eq!(raytracer::fixed::fsqrt(4 * ONE), 2 * ONE);
    assert_eq!(raytracer::fixed::fsqrt(ONE), ONE);
    assert_eq!(raytracer::fixed::fsqrt(0), 0);
    assert_eq!(raytracer::fixed::fsqrt(-5 * ONE), 0);
}

#[test]
fn fixed_add_saturates() {
    let top: i64 = 9223372036854775807;
    assert_eq!(raytracer::fixed::fadd(top, top), top);
    assert_eq!(raytracer::fixed::fsub(-top, top), -top);
}

#[test]
fn vec3_length_of_pythagorean_triple() {
    let v = Vec3::new_i32(3, 4, 0);
    assert_eq!(v.length_squared(), 25 * ONE);
    assert_eq!(v.length(), 5 * ONE);
}

#[test]
fn vec3_normal_of_axis_vector() {
    let v = Vec3::new_i32(0, 0, -2);
    assert_eq!(v.normal(), unit_z_neg());
    // a zero vector normalizes, silently, to the zero vector
    assert_eq!(Vec3::zero().normal(), Vec3::zero());
}

#[test]
fn vec3_dot_and_cross() {
    let a = Vec3::new_i32(1, 2, 3);
    let b = Vec3::new_i32(4, -5, 6);
    assert_eq!(a.dot(&b), (4 - 10 + 18) * ONE);
    assert_eq!(a.cross(&b), Vec3::new_i32(27, 6, -13));
}

#[test]
fn vec3_reflection_about_y() {
    let v = Vec3::new_i32(1, -1, 0);
    let n = Vec3::new_i32(0, 1, 0);
    assert_eq!(v.reflected(&n), Vec3::new_i32(1, 1, 0));
}

#[test]
fn vec3_near_zero_only_below_one_quantum() {
    assert!(Vec3::zero().near_zero());
    assert!(!Vec3::new(1, 0, 0).near_zero());
    assert!(!Vec3::new_i32(0, 0, 1).near_zero());
}

#[test]
fn color_conversion_scales_and_clamps() {
    assert_eq!(Vec3::one().color(255), Rgb { r: 255, g: 255, b: 255 });
    assert_eq!(
        Vec3::new(HALF, 0, 2 * ONE).color(255),
        Rgb { r: 127, g: 0, b: 255 }
    );
    assert_eq!(Vec3::new(-ONE, 0, 0).color(255), Rgb { r: 0, g: 0, b: 0 });
}

#[test]
fn gamma_correction_is_square_root() {
    let mut c = Vec3::new(ONE / 4, ONE, 0);
    c.color_correct();
    assert_eq!(c, Vec3::new(HALF, ONE, 0));
}

fn white_lambertian() -> Material {
    Material::Lambertian(Lambertian::new(Vec3::one()))
}

#[test]
fn sphere_hit_returns_nearer_root() {
    // unit ray down -z; sphere of radius 1 at z = -3: roots t = 2 and t = 4
    let ray = Ray::new(Vec3::zero(), unit_z_neg());
    let sphere = Sphere::new(Vec3::new_i32(0, 0, -3), ONE, white_lambertian());
    let mut rec = HitRecord::new();
    assert!(sphere.hit(ray, 66, i64::MAX, &mut rec));
    assert_eq!(rec.t, 2 * ONE);
    assert_eq!(rec.point, Vec3::new_i32(0, 0, -2));
    assert_eq!(rec.normal, Vec3::new_i32(0, 0, 1));
    assert!(rec.front_face);
}

#[test]
fn sphere_hit_falls_back_to_larger_root() {
    // the same sphere, but the interval starts past the nearer root
    let ray = Ray::new(Vec3::zero(), unit_z_neg());
    let sphere = Sphere::new(Vec3::new_i32(0, 0, -3), ONE, white_lambertian());
    let mut rec = HitRecord::new();
    assert!(sphere.hit(ray, 3 * ONE, i64::MAX, &mut rec));
    assert_eq!(rec.t, 4 * ONE);
    // the hit is on the far, inner side: the outward normal is flipped
    assert!(!rec.front_face);
}

#[test]
fn sphere_negative_discriminant_never_hits() {
    // ray down -z misses a sphere offset to x = 3 entirely
    let ray = Ray::new(Vec3::zero(), unit_z_neg());
    let sphere = Sphere::new(Vec3::new_i32(3, 0, -3), ONE, white_lambertian());
    let mut rec = HitRecord::new();
    let before = rec;
    assert!(!sphere.hit(ray, 66, i64::MAX, &mut rec));
    assert_eq!(rec, before);
}

#[test]
fn sphere_new_clamps_negative_radius() {
    let sphere = Sphere::new(Vec3::zero(), -ONE, white_lambertian());
    assert_eq!(sphere.radius, 0);
}

#[test]
fn zero_radius_sphere_never_hits_off_axis() {
    let ray = Ray::new(Vec3::zero(), Vec3::new_i32(0, 1, -3));
    let sphere = Sphere::new(Vec3::new_i32(0, 0, -3), 0, white_lambertian());
    let mut rec = HitRecord::new();
    assert!(!sphere.hit(ray, 66, i64::MAX, &mut rec));
}

#[test]
fn set_face_normal_opposes_ray() {
    let ray = Ray::new(Vec3::zero(), unit_z_neg());
    let mut rec = HitRecord::new();

    let outward = Vec3::new_i32(0, 0, 1);
    rec.set_face_normal(&ray, &outward);
    assert!(rec.front_face);
    assert_eq!(rec.normal, outward);
    assert!(ray.direction.dot(&rec.normal) <= 0);

    let outward_back = Vec3::new_i32(0, 0, -1);
    rec.set_face_normal(&ray, &outward_back);
    assert!(!rec.front_face);
    assert_eq!(rec.normal, Vec3::new_i32(0, 0, 1));
    assert!(ray.direction.dot(&rec.normal) <= 0);
}

#[test]
fn scene_hit_is_minimum_over_members() {
    let ray = Ray::new(Vec3::zero(), unit_z_neg());
    let near = Sphere::new(Vec3::new_i32(0, 0, -3), ONE, white_lambertian());
    let far = Sphere::new(
        Vec3::new_i32(0, 0, -7),
        ONE,
        Material::Metal(Metal::new(Vec3::one(), 0)),
    );

    // brute force: each sphere alone
    let mut rec_near = HitRecord::new();
    let mut rec_far = HitRecord::new();
    assert!(near.hit(ray, 66, i64::MAX, &mut rec_near));
    assert!(far.hit(ray, 66, i64::MAX, &mut rec_far));
    let best: i64 = rec_near.t.min(rec_far.t);

    // the aggregate, in both member orders
    let mut world = HittableList::new();
    world.objects.push(Hittable::Sphere(far));
    world.objects.push(Hittable::Sphere(near));
    let mut rec = HitRecord::new();
    assert!(world.hit(ray, 66, i64::MAX, &mut rec));
    assert_eq!(rec.t, best);
    assert_eq!(rec, rec_near);

    let mut world2 = HittableList::new();
    world2.objects.push(Hittable::Sphere(near));
    world2.objects.push(Hittable::Sphere(far));
    let mut rec2 = HitRecord::new();
    assert!(world2.hit(ray, 66, i64::MAX, &mut rec2));
    assert_eq!(rec2, rec);
}

#[test]
fn empty_scene_never_hits() {
    let ray = Ray::new(Vec3::zero(), unit_z_neg());
    let world = HittableList::new();
    assert_eq!(world.objects.len(), 0);
    let mut rec = HitRecord::new();
    assert!(!world.hit(ray, 66, i64::MAX, &mut rec));
}

fn hit_on_unit_sphere() -> (Ray, HitRecord) {
    let ray = Ray::new(Vec3::zero(), unit_z_neg());
    let sphere = Sphere::new(Vec3::new_i32(0, 0, -3), ONE, white_lambertian());
    let mut rec = HitRecord::new();
    assert!(sphere.hit(ray, 66, i64::MAX, &mut rec));
    (ray, rec)
}

#[test]
fn lambertian_always_scatters_and_never_degenerates() {
    let (ray, rec) = hit_on_unit_sphere();
    let albedo = Vec3::new(HALF, HALF, HALF);
    let lambertian = Lambertian::new(albedo);
    for seed in 0..64u64 {
        let mut rng = RandomSource::from_seed(seed);
        let mut attenuation = Vec3::zero();
        let mut scattered = Ray::new(Vec3::zero(), Vec3::zero());
        assert!(lambertian.scatter(&ray, &rec, &mut attenuation, &mut scattered, &mut rng));
        assert_eq!(attenuation, albedo);
        assert_eq!(scattered.origin, rec.point);
        assert!(!scattered.direction.near_zero());
    }
}

#[test]
fn metal_with_zero_fuzz_mirrors_exactly() {
    let (ray, rec) = hit_on_unit_sphere();
    let metal = Metal::new(Vec3::one(), 0);
    let mut rng = RandomSource::from_seed(9);
    let mut attenuation = Vec3::zero();
    let mut scattered = Ray::new(Vec3::zero(), Vec3::zero());
    let ok = metal.scatter(&ray, &rec, &mut attenuation, &mut scattered, &mut rng);
    let expected = ray.direction.reflected(&rec.normal).normal();
    assert_eq!(scattered.direction, expected);
    assert_eq!(ok, scattered.direction.dot(&rec.normal) > 0);
    // a head-on ray reflects straight back, away from the surface
    assert!(ok);
}

#[test]
fn metal_new_clamps_fuzz_into_unit_range() {
    let metal = Metal::new(Vec3::one(), 2 * ONE);
    assert_eq!(metal.fuzz, ONE);
    let metal2 = Metal::new(Vec3::one(), HALF);
    assert_eq!(metal2.fuzz, HALF);
    let metal3 = Metal::new(Vec3::one(), -ONE);
    assert_eq!(metal3.fuzz, 0);
}

#[test]
fn dielectric_total_internal_reflection_mirrors() {
    // a ray leaving glass (index 1.5) at 45 degrees: sin exceeds 1/1.5, so
    // Snell's law forbids refraction and the ray must reflect, whatever the
    // Fresnel draw says
    let ray = Ray::new(Vec3::zero(), Vec3::new_i32(1, 0, -1));
    let mut rec = HitRecord::new();
    rec.point = Vec3::zero();
    // hit from inside: the outward normal agrees with the ray, so the stored
    // normal is flipped and front_face is false
    rec.set_face_normal(&ray, &Vec3::new_i32(0, 0, -1));
    assert!(!rec.front_face);
    let glass = Dielectric::new(ONE + HALF);
    for seed in 0..16u64 {
        let mut rng = RandomSource::from_seed(seed);
        let mut attenuation = Vec3::zero();
        let mut scattered = Ray::new(Vec3::zero(), Vec3::zero());
        assert!(glass.scatter(&ray, &rec, &mut attenuation, &mut scattered, &mut rng));
        let expected = ray.direction.normal().reflected(&rec.normal);
        assert_eq!(scattered.direction, expected);
    }
}

#[test]
fn dielectric_unit_index_head_on_is_identity() {
    let (ray, rec) = hit_on_unit_sphere();
    let glass = Dielectric::new(ONE);
    let mut rng = RandomSource::from_seed(3);
    let mut attenuation = Vec3::zero();
    let mut scattered = Ray::new(Vec3::zero(), Vec3::zero());
    assert!(glass.scatter(&ray, &rec, &mut attenuation, &mut scattered, &mut rng));
    assert_eq!(attenuation, Vec3::one());
    // head-on through a unit-index boundary: the direction passes unchanged
    assert_eq!(scattered.direction, unit_z_neg());
}

#[test]
fn dielectric_unit_index_oblique_within_tolerance() {
    // an oblique hit on the same boundary passes within rounding
    let ray = Ray::new(Vec3::new_i32(0, 0, 0), Vec3::new_i32(1, 0, -1));
    let mut rec = HitRecord::new();
    rec.point = Vec3::zero();
    rec.set_face_normal(&ray, &Vec3::new_i32(0, 0, 1));
    let glass = Dielectric::new(ONE);
    let mut rng = RandomSource::from_seed(3);
    let mut attenuation = Vec3::zero();
    let mut scattered = Ray::new(Vec3::zero(), Vec3::zero());
    assert!(glass.scatter(&ray, &rec, &mut attenuation, &mut scattered, &mut rng));
    let unit = ray.direction.normal();
    assert!((scattered.direction.x - unit.x).abs() <= 2);
    assert!((scattered.direction.y - unit.y).abs() <= 2);
    assert!((scattered.direction.z - unit.z).abs() <= 2);
}

fn simple_camera(image_width: usize, samples: usize, depth: usize) -> Camera {
    Camera::new(
        ONE,              // aspect ratio 1
        image_width,
        samples,
        depth,
        ONE,              // vertical field of view 90 degrees: tan(45) = 1
        Vec3::zero(),     // look from the origin
        Vec3::new_i32(0, 0, -1),
        Vec3::new_i32(0, 1, 0),
        0,                // no defocus
        ONE,              // focus distance 1
    )
}

#[test]
fn ray_color_depth_zero_is_black() {
    let camera = simple_camera(3, 1, 1);
    let mut world = HittableList::new();
    world.objects.push(Hittable::Sphere(Sphere::new(
        Vec3::new_i32(0, 0, -1),
        HALF,
        white_lambertian(),
    )));
    let mut rng = RandomSource::from_seed(1);
    let ray = Ray::new(Vec3::zero(), unit_z_neg());
    assert_eq!(camera.ray_color(&ray, 0, &world, &mut rng), Vec3::zero());
    let oblique = Ray::new(Vec3::new_i32(5, 1, 2), Vec3::new_i32(-1, 4, 2));
    assert_eq!(camera.ray_color(&oblique, 0, &world, &mut rng), Vec3::zero());
}

#[test]
fn ray_color_miss_is_sky_gradient() {
    let camera = simple_camera(3, 1, 1);
    let world = HittableList::new();
    let mut rng = RandomSource::from_seed(1);
    // straight up: pure sky blue
    let up = Ray::new(Vec3::zero(), Vec3::new_i32(0, 1, 0));
    assert_eq!(
        camera.ray_color(&up, 5, &world, &mut rng),
        Vec3::new(HALF, 45875, ONE)
    );
    // straight down: pure white
    let down = Ray::new(Vec3::zero(), Vec3::new_i32(0, -1, 0));
    assert_eq!(camera.ray_color(&down, 5, &world, &mut rng), Vec3::one());
}

#[test]
fn center_pixel_renders_black_at_depth_one() {
    // a diffuse white sphere of radius 1/2 at z = -1 fills the view center;
    // with one sample and a depth budget of one, the bounce terminates at
    // depth zero, so the center pixel is exactly black
    let camera = simple_camera(3, 1, 1);
    assert_eq!(camera.image_height, 3);
    let mut world = HittableList::new();
    world.objects.push(Hittable::Sphere(Sphere::new(
        Vec3::new_i32(0, 0, -1),
        HALF,
        white_lambertian(),
    )));
    for seed in 0..16u64 {
        let mut rng = RandomSource::from_seed(seed);
        let pixel = camera.render_pixel(1, 1, &world, &mut rng);
        assert_eq!(pixel, Rgb { r: 0, g: 0, b: 0 });
    }
}

#[test]
fn render_with_fixed_seed_is_deterministic() {
    let camera = simple_camera(4, 1, 3);
    let mut world = HittableList::new();
    world.objects.push(Hittable::Sphere(Sphere::new(
        Vec3::new_i32(0, 0, -1),
        HALF,
        white_lambertian(),
    )));
    world.objects.push(Hittable::Sphere(Sphere::new(
        Vec3::new(0, -100 * ONE - HALF, -ONE),
        100 * ONE,
        white_lambertian(),
    )));
    let mut rng1 = RandomSource::from_seed(42);
    let first = camera.render(&world, &mut rng1);
    let mut rng2 = RandomSource::from_seed(42);
    let second = camera.render(&world, &mut rng2);
    assert_eq!(first.len(), (camera.image_height * camera.image_width) as usize);
    assert_eq!(first, second);
}

#[test]
fn camera_derives_height_and_sample_scale() {
    // width 400 at 16:9 gives height 225; ten samples scale by a tenth
    let aspect: i64 = raytracer::fixed::fdiv(16 * ONE, 9 * ONE);
    let camera = Camera::new(
        aspect,
        400,
        10,
        10,
        ONE,
        Vec3::zero(),
        Vec3::new_i32(0, 0, -1),
        Vec3::new_i32(0, 1, 0),
        0,
        ONE,
    );
    assert_eq!(camera.image_height, 225);
    assert_eq!(camera.pixel_samples_scale, 6553);
    assert_eq!(camera.center, Vec3::zero());
}

#[test]
fn seeded_source_repeats_and_seeds_differ() {
    let mut a = RandomSource::from_seed(7);
    let mut b = RandomSource::from_seed(7);
    let mut c = RandomSource::from_seed(8);
    let xs: Vec<u32> = (0..8).map(|_| a.next_u32()).collect();
    let ys: Vec<u32> = (0..8).map(|_| b.next_u32()).collect();
    let zs: Vec<u32> = (0..8).map(|_| c.next_u32()).collect();
    assert_eq!(xs, ys);
    assert_ne!(xs, zs);
}

#[test]
fn random_in_sphere_stays_inside() {
    let mut rng = RandomSource::from_seed(11);
    for _ in 0..32 {
        let v = Vec3::random(&mut rng);
        assert!(v.length_squared() < ONE);
    }
    for _ in 0..32 {
        let d = Vec3::random_in_disc(&mut rng);
        assert!(d.length_squared() < ONE);
        assert_eq!(d.z, 0);
    }
}

#[test]
fn sky_only_render_saturates_blue_channel() {
    // the sky gradient keeps blue at exactly one everywhere, so every pixel
    // of an empty scene renders with a full blue channel
    let camera = simple_camera(2, 1, 5);
    let world = HittableList::new();
    let mut rng = RandomSource::from_seed(5);
    let pixels = camera.render(&world, &mut rng);
    assert_eq!(pixels.len(), 4);
    for p in pixels {
        assert_eq!(p.b, 65535);
        assert!(p.r > 0);
    }
}

#[test]
fn scene_tie_at_equal_t_keeps_earliest_member() {
    // two coincident spheres hit at the same t; the aggregate keeps the
    // record of the earlier member, whichever order the list holds them in
    let ray = Ray::new(Vec3::zero(), unit_z_neg());
    let diffuse = Sphere::new(Vec3::new_i32(0, 0, -3), ONE, white_lambertian());
    let mirror = Sphere::new(
        Vec3::new_i32(0, 0, -3),
        ONE,
        Material::Metal(Metal::new(Vec3::one(), 0)),
    );

    let mut world = HittableList::new();
    world.objects.push(Hittable::Sphere(mirror));
    world.objects.push(Hittable::Sphere(diffuse));
    let mut rec = HitRecord::new();
    assert!(world.hit(ray, 66, i64::MAX, &mut rec));
    assert_eq!(rec.t, 2 * ONE);
    assert_eq!(rec.material, Material::Metal(Metal::new(Vec3::one(), 0)));

    let mut world2 = HittableList::new();
    world2.objects.push(Hittable::Sphere(diffuse));
    world2.objects.push(Hittable::Sphere(mirror));
    let mut rec2 = HitRecord::new();
    assert!(world2.hit(ray, 66, i64::MAX, &mut rec2));
    assert_eq!(rec2.material, white_lambertian());
}

#[test]
fn material_dispatch_matches_variant_scatter() {
    // the tagged-variant dispatcher behaves as the variant itself
    let (ray, rec) = hit_on_unit_sphere();
    let material = Material::Metal(Metal::new(Vec3::new(HALF, HALF, HALF), 0));
    let mut rng = RandomSource::from_seed(21);
    let mut attenuation = Vec3::zero();
    let mut scattered = Ray::new(Vec3::zero(), Vec3::zero());
    let ok = material.scatter(&ray, &rec, &mut attenuation, &mut scattered, &mut rng);
    assert_eq!(attenuation, Vec3::new(HALF, HALF, HALF));
    assert_eq!(scattered.origin, rec.point);
    assert_eq!(
        scattered.direction,
        ray.direction.reflected(&rec.normal).normal()
    );
    assert_eq!(ok, scattered.direction.dot(&rec.normal) > 0);
}
