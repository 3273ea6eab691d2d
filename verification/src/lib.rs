//! Streaming voxel terrain: chunk-aligned coordinates, dense voxel chunks,
//! terrain generation from noise samples, surface extraction, a chunk store,
//! a staged generation task, per-tick streaming decisions and a spatial hash
//! index, each with a proved contract.

pub mod utils;
pub mod coordinates;
pub mod block;
pub mod chunk;
pub mod spline;
pub mod generator;
pub mod mesh_builder;
pub mod grid;
pub mod mesher;
pub mod collision;
pub mod chunk_data_generation_future;
pub mod settings;
pub mod streaming;
pub mod spatial_hash_grid;
