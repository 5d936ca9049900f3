pub mod camera;
pub mod canvas;
pub mod color;
pub mod fixed;
pub mod geometry;
pub mod raytracer;
pub mod scene;
pub mod toml;

pub use camera::{Camera, Viewport};
pub use canvas::Canvas;
pub use color::{color, Color};
pub use geometry::Vec3;
pub use raytracer::RayTracer;
pub use scene::{Light, Sphere};
