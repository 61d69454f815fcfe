//! Voxel value types: a material tag and the one-field voxel that carries it.

use vstd::prelude::*;

verus! {

/// Edge length of one voxel section, in voxels.
pub const CHUNK_LENGTH: usize = 16;

/// Voxels in one horizontal slice of a section.
pub const CHUNK_AREA: usize = CHUNK_LENGTH * CHUNK_LENGTH;

/// Voxels in one whole section.
pub const CHUNK_VOLUME: usize = CHUNK_LENGTH * CHUNK_LENGTH * CHUNK_LENGTH;

/// The material stored in one voxel cell.
///
/// `Stone` is declared but never produced by the terrain generator; the
/// variant is kept for forward compatibility with further terrain layers.
#[derive(Clone, Copy, PartialEq, Eq, Structural, Debug)]
pub enum VoxelType {
    Air,
    Grass,
    Dirt,
    Stone,
}

/// One voxel: a trivially copyable material tag with no identity.
#[derive(Clone, Copy, PartialEq, Eq, Structural, Debug)]
pub struct Voxel {
    pub material: VoxelType,
}

impl Voxel {
    /// An empty (air) voxel, the default content of a fresh section.
    pub fn air() -> (v: Voxel)
        ensures
            v.material == VoxelType::Air,
    {
        Voxel { material: VoxelType::Air }
    }
}

/// A recoverable fault from the voxel accessors and the meshing steps.
///
/// `OutOfBounds` reports a local coordinate outside a section's extent;
/// `NotYetGenerated` reports a mesh or voxel request made before the
/// corresponding generation step ran.
#[derive(Clone, Copy, PartialEq, Eq, Structural, Debug)]
pub enum TerrainFault {
    OutOfBounds,
    NotYetGenerated,
}

} // verus!
