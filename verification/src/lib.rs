//! Voxel chunks and their meshes: which faces of a chunk's voxels are drawn,
//! the vertex and index buffers of those faces, and the bookkeeping of the
//! chunks that are resident around an observer.

pub mod block;
pub mod chunk;
pub mod face;
pub mod mesh;
pub mod loader;
