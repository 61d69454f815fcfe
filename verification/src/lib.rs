//! A voxel-world streaming and meshing engine.
//!
//! The crate turns an infinite 2D grid of terrain coordinates into solid
//! voxel data and renderable surface geometry, and decides which regions
//! must be generated, meshed, and shown around a moving observer.
//!
//! - [`voxel`] holds the voxel value types and the grid dimensions.
//! - [`mesh`] converts one section's voxel grid into a triangulated
//!   surface with face-occlusion culling.
//! - [`chunk`] stacks fixed-size voxel sections into columns and
//!   orchestrates terrain generation and per-section meshing.
//! - [`world`] owns the coordinate-keyed ledgers (loading, materialized,
//!   promoted) and drives the per-tick streaming decisions.
//!
//! The host around the library supplies what cannot be verified: the
//! floating-point noise that yields each chunk's height field, the
//! background task pool, and the scene graph and asset registry, all of
//! which appear here only as plain values and opaque handles.

pub mod chunk;
pub mod mesh;
pub mod voxel;
pub mod world;
