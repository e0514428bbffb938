pub mod camera;
pub mod config;
pub mod fixed;
pub mod hitable;
pub mod material;
pub mod pixel;
pub mod ray;
pub mod render;
mod rng;
pub mod sphere;
pub mod util;
pub mod vec3;
