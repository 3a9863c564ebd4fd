//! A small offline ray tracer over fixed-point arithmetic.
//!
//! Geometry, colors and the parametric coordinates of rays are represented as
//! fixed-point numbers ([`fx::Fx`]): signed 128-bit integers carrying
//! [`fx::FX_SCALE`] raw units per whole unit. Every operation of the engine is
//! specified exactly over this representation, so the intersection tests, the
//! scattering rules and the recursive shading algorithm are verified down to
//! the rounding of each product and quotient.

pub mod camera;
pub mod color;
pub mod fx;
pub mod image;
pub mod lemmas;
pub mod material;
pub mod objects;
pub mod point3d;
pub mod ray;
pub mod raytracer;

pub use camera::Camera;
pub use color::Color;
pub use fx::Fx;
pub use image::Image;
pub use material::{Light, Material, Matte, Metal};
pub use objects::{Cube, Cylinder, Intersection, Plane, Primitive, Sphere};
pub use point3d::Point3D;
pub use ray::Ray;
pub use raytracer::RayTracer;
