//! A brute-force Monte Carlo path tracer over saturating fixed-point
//! arithmetic: scenes of spheres with diffuse, metallic and dielectric
//! materials, rendered by a camera with anti-aliasing and depth of field.

pub mod fixed;
pub mod vec3;
pub mod ray;
pub mod random;
pub mod hittable;
pub mod material;
pub mod sphere;
pub mod hittable_list;
pub mod camera;

pub use camera::Camera;
pub use fixed::SCALE;
pub use hittable::HitRecord;
pub use hittable::Hittable;
pub use hittable_list::HittableList;
pub use material::Dielectric;
pub use material::Lambertian;
pub use material::Material;
pub use material::Metal;
pub use random::RandomSource;
pub use ray::Ray;
pub use sphere::Sphere;
pub use vec3::Rgb;
pub use vec3::Vec3;
