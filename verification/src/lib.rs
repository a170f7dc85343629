//! A software 3D rasterizer core: fixed-point vector algebra, triangle
//! scan-conversion with barycentric coordinates and a z-buffer, and a
//! TGA binary codec (run-length decode, raw encode).
//!
//! All fractional quantities (object coordinates, depths, texture
//! coordinates) are fixed-point integers with 16 fractional bits; see
//! [`geo::FP_ONE`]. Floating-point front ends convert at the boundary.

pub mod geo;
pub mod image;
pub mod raster;
pub mod tga;
