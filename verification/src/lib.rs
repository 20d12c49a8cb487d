//! A stochastic path tracer over fixed-point arithmetic.
//!
//! Every quantity the renderer computes with — coordinates, colours, ray
//! parameters — is a [`fx::Fx`] fixed-point scalar, so the whole numeric
//! core can be verified: each operation's result is pinned exactly by its
//! contract, and the driver's output buffer is proved well-formed and
//! bounded.
pub mod fx;
pub mod vec3;
pub mod ray;
pub mod colour;
pub mod rng;
pub mod material;
pub mod collider;
pub mod camera;
pub mod raytracer;

pub use camera::Camera;
pub use camera::CameraBuildError;
pub use camera::CameraBuilder;
pub use collider::Collision;
pub use collider::Scene;
pub use collider::Sphere;
pub use colour::Blend;
pub use colour::Colour;
pub use fx::Fx;
pub use material::Dielectric;
pub use material::Lambertian;
pub use material::Material;
pub use material::Metal;
pub use ray::Ray;
pub use raytracer::Pixel;
pub use raytracer::Raytracer;
pub use vec3::Vec3;
