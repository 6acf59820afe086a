//! Converting the terrain of ROSE Online zones: decoding textures, baking the tiles of a block into
//! one picture, building and storing its mesh, and naming what is read and written.
//!
//! Floating point stays outside. What is computed in it comes in as closures, or as bit patterns.

pub mod albedo;
pub mod block_files;
pub mod bytes;
pub mod color;
pub mod dds;
pub mod dxt;
pub mod mesh;
pub mod normal_map;
pub mod outside;
pub mod paths;
pub mod picture;
pub mod rotation;
pub mod text;
pub mod texture;
pub mod texture_cache;
pub mod texture_lookup;
