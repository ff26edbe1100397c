//! Voxel world core: a block catalog, procedurally generated chunks, a
//! face-culling mesh baker, a debug texture and the observer's input rules.
pub mod registry;
pub mod chunk;
pub mod mesh;
pub mod texture;
pub mod controls;
pub mod world;
