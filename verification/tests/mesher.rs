//! Tests for the section mesher: face culling, buffer shape and winding.

use voxel_world::chunk::ChunkSection;
use voxel_world::voxel::VoxelType;

#[test]
fn empty_section_produces_empty_mesh() {
    let mut section = ChunkSection::new((0, 0, 0));
    section.generate_chunk_mesh();
    assert_eq!(section.chunk_mesh.vertices.len(), 0);
    assert_eq!(section.chunk_mesh.uvs.len(), 0);
    assert_eq!(section.chunk_mesh.normals.len(), 0);
    assert_eq!(section.chunk_mesh.indices.len(), 0);
}

#[test]
fn single_dirt_voxel_produces_six_faces() {
    let mut section = ChunkSection::new((0, 0, 0));
    section.set_voxel((0, 0, 0), VoxelType::Dirt).unwrap();
    section.generate_chunk_mesh();
    // All 6 neighbor directions resolve to Air or out-of-section.
    assert_eq!(section.chunk_mesh.vertices.len(), 24);
    assert_eq!(section.chunk_mesh.uvs.len(), 24);
    assert_eq!(section.chunk_mesh.normals.len(), 24);
    assert_eq!(section.chunk_mesh.indices.len(), 36);
}

#[test]
fn index_winding_follows_fixed_pattern() {
    let mut section = ChunkSection::new((0, 0, 0));
    section.set_voxel((0, 0, 0), VoxelType::Dirt).unwrap();
    section.generate_chunk_mesh();
    let indices = &section.chunk_mesh.indices;
    assert_eq!(indices.len(), 36);
    for face in 0..6u32 {
        let base = 4 * face;
        let at = (6 * face) as usize;
        assert_eq!(indices[at], base);
        assert_eq!(indices[at + 1], base + 1);
        assert_eq!(indices[at + 2], base + 2);
        assert_eq!(indices[at + 3], base + 2);
        assert_eq!(indices[at + 4], base + 3);
        assert_eq!(indices[at + 5], base);
    }
}

#[test]
fn front_face_vertices_follow_template() {
    let mut section = ChunkSection::new((0, 0, 0));
    section.set_voxel((0, 0, 0), VoxelType::Dirt).unwrap();
    section.generate_chunk_mesh();
    // The first emitted face is the front (+z) quad of the voxel at the
    // origin: template corners (0,0,1) (1,0,1) (1,1,1) (0,1,1).
    let v = &section.chunk_mesh.vertices;
    assert_eq!((v[0].x, v[0].y, v[0].z), (0, 0, 1));
    assert_eq!((v[1].x, v[1].y, v[1].z), (1, 0, 1));
    assert_eq!((v[2].x, v[2].y, v[2].z), (1, 1, 1));
    assert_eq!((v[3].x, v[3].y, v[3].z), (0, 1, 1));
    let n = &section.chunk_mesh.normals;
    for k in 0..4 {
        assert_eq!((n[k].x, n[k].y, n[k].z), (0, 0, 1));
    }
    let uv = &section.chunk_mesh.uvs;
    assert_eq!((uv[0].u, uv[0].v), (0, 0));
    assert_eq!((uv[1].u, uv[1].v), (1, 0));
    assert_eq!((uv[2].u, uv[2].v), (1, 1));
    assert_eq!((uv[3].u, uv[3].v), (1, 1));
}

#[test]
fn vertices_are_translated_into_world_space() {
    let mut section = ChunkSection::new((2, 1, -1));
    section.set_voxel((0, 0, 0), VoxelType::Grass).unwrap();
    section.generate_chunk_mesh();
    // Front-face corner (0,0,1) shifted by section position * 16.
    let v = &section.chunk_mesh.vertices;
    assert_eq!((v[0].x, v[0].y, v[0].z), (32, 16, -15));
}

#[test]
fn fully_occluded_voxels_emit_no_faces() {
    // A completely solid section only shows its outer shell: each of the
    // six sides is 16 x 16 quads; every interior voxel is fully occluded.
    let mut section = ChunkSection::new((0, 0, 0));
    for y in 0..16 {
        for z in 0..16 {
            for x in 0..16 {
                section.set_voxel((x, y, z), VoxelType::Stone).unwrap();
            }
        }
    }
    section.generate_chunk_mesh();
    let faces = 6 * 16 * 16;
    assert_eq!(section.chunk_mesh.vertices.len(), 4 * faces);
    assert_eq!(section.chunk_mesh.indices.len(), 6 * faces);
}

#[test]
fn one_air_neighbor_emits_one_face_toward_it() {
    // Carving one Air voxel out of a solid section adds exactly one face
    // for each of its six neighbors, oriented toward the hole.
    let mut section = ChunkSection::new((0, 0, 0));
    for y in 0..16 {
        for z in 0..16 {
            for x in 0..16 {
                section.set_voxel((x, y, z), VoxelType::Stone).unwrap();
            }
        }
    }
    section.set_voxel((8, 8, 8), VoxelType::Air).unwrap();
    section.generate_chunk_mesh();
    let faces = 6 * 16 * 16 + 6;
    assert_eq!(section.chunk_mesh.vertices.len(), 4 * faces);
    assert_eq!(section.chunk_mesh.indices.len(), 6 * faces);
}

#[test]
fn meshing_is_rebuilt_from_scratch() {
    let mut section = ChunkSection::new((0, 0, 0));
    section.set_voxel((0, 0, 0), VoxelType::Dirt).unwrap();
    section.generate_chunk_mesh();
    assert_eq!(section.chunk_mesh.vertices.len(), 24);
    // Clearing the voxel and re-meshing discards the old buffers.
    section.set_voxel((0, 0, 0), VoxelType::Air).unwrap();
    section.generate_chunk_mesh();
    assert_eq!(section.chunk_mesh.vertices.len(), 0);
    assert_eq!(section.chunk_mesh.indices.len(), 0);
}
