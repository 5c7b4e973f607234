//! A small ray tracer over fixed-point coordinates.
//!
//! Geometry, colors and ray parameters are held as 64-bit integers counted in
//! 1/65536ths of a world unit, so that every arithmetic step has an exact
//! integer meaning and can be specified and verified. The scene is a list of
//! spheres with diffuse (Lambertian) or specular (Metal) materials; a
//! recursive, depth-bounded integrator estimates the radiance along camera
//! rays, and a row-by-row renderer fills a shared pixel buffer and produces
//! one progress payload per completed row followed by a single end marker.

pub mod camera;
pub mod fixed;
pub mod hittable;
pub mod payload;
pub mod random;
pub mod ray;
pub mod render;
pub mod rng;
pub mod scatterable;
pub mod sphere;
pub mod vec3;
pub mod world;

pub use fixed::SCALE;
