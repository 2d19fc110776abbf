//! Voxel-world core of a block-based exploration game.
//!
//! The crate decides which blocks exist (procedural terrain, per chunk) and
//! which triangles to emit for them (face-culling mesh extraction), and keeps
//! a registry of chunks around a moving focal point together with a
//! background-work bookkeeping structure.  All geometry is integer-valued:
//! vertex positions are measured in half-blocks, so a unit cube's corners sit
//! at odd coordinates and its center at an even one.  A host application owns
//! the rendering and the threads; this crate owns the logic.

pub mod algorithm;
pub mod block;
pub mod chunk;
pub mod direction;
pub mod scheduler;
pub mod world;
pub mod world_generator;
