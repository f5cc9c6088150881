//! A streaming voxel world: block catalog, chunk storage and meshing,
//! the chunk build protocol, and the world registry with streaming,
//! picking and edits.

pub mod block;
pub mod block_face;
pub mod build_queue;
pub mod chunk;
pub mod chunk_buffer;
pub mod chunk_mesh;
pub mod drawing;
pub mod edits;
pub mod faces;
pub mod generation;
pub mod mesher;
pub mod picking;
pub mod registry;
pub mod streaming;
pub mod target;
pub mod target_vertex;
pub mod terrain;
pub mod vectors;
pub mod vertex;
pub mod voxels;
pub mod world;
