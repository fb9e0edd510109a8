//! A software triangle rasterizer over a fixed-size RGBA pixel buffer.
//!
//! Triangles are filled by a barycentric inside-test, with per-vertex colour
//! interpolation and/or wrapping texture sampling. All coordinates are held
//! in fixed-point units of one sixteenth of a pixel, so every geometric
//! quantity is computed exactly in integer arithmetic.

pub mod colour;
pub mod geometry;
pub mod polygon;
pub mod raster;
pub mod texture;

pub use colour::Colour;
pub use geometry::Coord;
pub use geometry::Weights;
pub use polygon::BoundingBox;
pub use polygon::Polygon;
pub use texture::Texture;
