//! Integer and bookkeeping logic of a small ray tracer and rasterizer: buffer
//! registration and indexing of the rasterizer, the Perlin permutation tables,
//! the render tiling of the camera, BVH range splitting, checkerboard parity,
//! and the output-file prompt decisions.

pub mod bvh;
pub mod camera;
pub mod material;
pub mod perlin;
pub mod prompt;
pub mod rasterizer;
pub mod shader;
pub mod texture;
pub mod utility;
