//! Tests for voxel sections and chunk columns: bounds faults, lazy
//! section growth, and terrain generation from a height field.

use voxel_world::chunk::{Chunk, ChunkSection};
use voxel_world::voxel::{TerrainFault, VoxelType};

#[test]
fn section_set_voxel_out_of_bounds_is_reported() {
    let mut section = ChunkSection::new((0, 0, 0));
    assert_eq!(section.set_voxel((16, 0, 0), VoxelType::Dirt), Err(TerrainFault::OutOfBounds));
    assert_eq!(section.set_voxel((0, 16, 0), VoxelType::Dirt), Err(TerrainFault::OutOfBounds));
    assert_eq!(section.set_voxel((0, 0, 16), VoxelType::Dirt), Err(TerrainFault::OutOfBounds));
    // The failed writes left the grid untouched.
    assert_eq!(section.get_voxel((0, 0, 0)).unwrap().material, VoxelType::Air);
}

#[test]
fn section_get_voxel_out_of_bounds_is_reported() {
    let section = ChunkSection::new((0, 0, 0));
    assert!(section.get_voxel((16, 0, 0)).is_err());
    assert!(section.get_voxel((3, 99, 3)).is_err());
}

#[test]
fn section_voxels_round_trip() {
    let mut section = ChunkSection::new((0, 0, 0));
    section.set_voxel((3, 5, 7), VoxelType::Grass).unwrap();
    assert_eq!(section.get_voxel((3, 5, 7)).unwrap().material, VoxelType::Grass);
    assert_eq!(section.get_voxel((7, 5, 3)).unwrap().material, VoxelType::Air);
}

#[test]
fn section_bounds_check() {
    assert!(ChunkSection::in_bounds(15, 15, 15));
    assert!(!ChunkSection::in_bounds(16, 0, 0));
    assert!(!ChunkSection::in_bounds(0, 16, 0));
    assert!(!ChunkSection::in_bounds(0, 0, 16));
}

#[test]
fn chunk_set_voxel_extends_sections_upward() {
    let mut chunk = Chunk::new((0, 0));
    assert_eq!(chunk.sections.len(), 0);
    chunk.set_voxel((0, 35, 0), VoxelType::Dirt).unwrap();
    // Height 35 lives in the third vertical section; lower ones appear too.
    assert_eq!(chunk.sections.len(), 3);
    chunk.set_voxel((1, 3, 1), VoxelType::Grass).unwrap();
    // The column never shrinks.
    assert_eq!(chunk.sections.len(), 3);
    assert_eq!(chunk.sections[2].get_voxel((0, 3, 0)).unwrap().material, VoxelType::Dirt);
    assert_eq!(chunk.sections[0].get_voxel((1, 3, 1)).unwrap().material, VoxelType::Grass);
}

#[test]
fn chunk_set_voxel_out_of_footprint_is_reported() {
    let mut chunk = Chunk::new((0, 0));
    assert_eq!(chunk.set_voxel((16, 0, 0), VoxelType::Dirt), Err(TerrainFault::OutOfBounds));
    assert_eq!(chunk.set_voxel((0, 0, 16), VoxelType::Dirt), Err(TerrainFault::OutOfBounds));
    assert_eq!(chunk.sections.len(), 0);
}

#[test]
fn fill_column_height_zero_writes_only_grass() {
    let mut chunk = Chunk::new((0, 0));
    chunk.fill_column(5, 7, 0);
    let section = &chunk.sections[0];
    assert_eq!(section.get_voxel((5, 0, 7)).unwrap().material, VoxelType::Grass);
    assert_eq!(section.get_voxel((5, 1, 7)).unwrap().material, VoxelType::Air);
}

#[test]
fn fill_column_height_one_clamps_dirt_band() {
    let mut chunk = Chunk::new((0, 0));
    chunk.fill_column(5, 7, 1);
    let section = &chunk.sections[0];
    // Dirt exactly at [0, 1): no underflow below zero.
    assert_eq!(section.get_voxel((5, 0, 7)).unwrap().material, VoxelType::Dirt);
    assert_eq!(section.get_voxel((5, 1, 7)).unwrap().material, VoxelType::Grass);
    assert_eq!(section.get_voxel((5, 2, 7)).unwrap().material, VoxelType::Air);
}

#[test]
fn fill_column_height_two_clamps_dirt_band() {
    let mut chunk = Chunk::new((0, 0));
    chunk.fill_column(5, 7, 2);
    let section = &chunk.sections[0];
    assert_eq!(section.get_voxel((5, 0, 7)).unwrap().material, VoxelType::Dirt);
    assert_eq!(section.get_voxel((5, 1, 7)).unwrap().material, VoxelType::Dirt);
    assert_eq!(section.get_voxel((5, 2, 7)).unwrap().material, VoxelType::Grass);
    assert_eq!(section.get_voxel((5, 3, 7)).unwrap().material, VoxelType::Air);
}

#[test]
fn fill_column_tall_surface_has_three_dirt() {
    let mut chunk = Chunk::new((0, 0));
    chunk.fill_column(0, 0, 10);
    let section = &chunk.sections[0];
    assert_eq!(section.get_voxel((0, 6, 0)).unwrap().material, VoxelType::Air);
    assert_eq!(section.get_voxel((0, 7, 0)).unwrap().material, VoxelType::Dirt);
    assert_eq!(section.get_voxel((0, 8, 0)).unwrap().material, VoxelType::Dirt);
    assert_eq!(section.get_voxel((0, 9, 0)).unwrap().material, VoxelType::Dirt);
    assert_eq!(section.get_voxel((0, 10, 0)).unwrap().material, VoxelType::Grass);
    assert_eq!(section.get_voxel((0, 11, 0)).unwrap().material, VoxelType::Air);
}

#[test]
fn generate_voxels_fills_every_column() {
    let mut chunk = Chunk::new((0, 0));
    let heights = vec![4u32; 256];
    chunk.generate_voxels(&heights);
    assert!(chunk.is_generated());
    assert!(!chunk.is_mesh_calculated());
    assert_eq!(chunk.sections.len(), 1);
    for x in 0..16 {
        for z in 0..16 {
            let section = &chunk.sections[0];
            assert_eq!(section.get_voxel((x, 4, z)).unwrap().material, VoxelType::Grass);
            assert_eq!(section.get_voxel((x, 3, z)).unwrap().material, VoxelType::Dirt);
            assert_eq!(section.get_voxel((x, 0, z)).unwrap().material, VoxelType::Air);
            assert_eq!(section.get_voxel((x, 5, z)).unwrap().material, VoxelType::Air);
        }
    }
}

#[test]
fn generate_voxels_varied_heights_grow_to_tallest() {
    let mut chunk = Chunk::new((3, -2));
    let mut heights = vec![0u32; 256];
    heights[0] = 39; // column (0, 0)
    heights[255] = 17; // column (15, 15)
    chunk.generate_voxels(&heights);
    assert_eq!(chunk.sections.len(), 3);
    assert_eq!(chunk.sections[2].get_voxel((0, 7, 0)).unwrap().material, VoxelType::Grass);
    assert_eq!(chunk.sections[1].get_voxel((15, 1, 15)).unwrap().material, VoxelType::Grass);
    assert_eq!(chunk.sections[1].get_voxel((15, 0, 15)).unwrap().material, VoxelType::Dirt);
}

#[test]
fn meshing_before_generation_is_reported_but_proceeds() {
    let mut chunk = Chunk::new((0, 0));
    chunk.set_voxel((0, 0, 0), VoxelType::Dirt).unwrap();
    let result = chunk.generate_chunk_meshes();
    assert_eq!(result, Err(TerrainFault::NotYetGenerated));
    // Degraded, not aborted: the meshes exist anyway.
    assert!(chunk.is_mesh_calculated());
    assert_eq!(chunk.sections[0].chunk_mesh.vertices.len(), 24);
}

#[test]
fn meshing_after_generation_succeeds() {
    let mut chunk = Chunk::new((0, 0));
    chunk.generate_voxels(&vec![0u32; 256]);
    assert_eq!(chunk.generate_chunk_meshes(), Ok(()));
    assert!(chunk.is_mesh_calculated());
}

#[test]
fn generate_bevy_meshes_returns_one_payload_per_section() {
    let mut chunk = Chunk::new((0, 0));
    let mut heights = vec![2u32; 256];
    heights[17] = 20; // column (1, 1) forces a second section
    chunk.generate_voxels(&heights);
    chunk.generate_chunk_meshes().unwrap();
    let payloads = chunk.generate_bevy_meshes();
    assert_eq!(payloads.len(), chunk.sections.len());
    assert_eq!(payloads.len(), 2);
    for (payload, section) in payloads.iter().zip(chunk.sections.iter()) {
        assert_eq!(payload.vertices, section.chunk_mesh.vertices);
        assert_eq!(payload.indices, section.chunk_mesh.indices);
    }
}

#[test]
fn chunk_position_is_kept() {
    let chunk = Chunk::new((-7, 12));
    assert_eq!(chunk.get_position(), (-7, 12));
}
