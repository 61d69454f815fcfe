//! Tests for the height pipeline around the library: the coherent-noise
//! height map is deterministic, and the library consumes it as a plain
//! height field.

use noise::{NoiseFn, OpenSimplex, Seedable};
use voxel_world::world::World;

/// The height map exactly as the host computes it: noise sampled at
/// `(x / 20, z / 20)`, output in `[-1, 1]` mapped to `[0, 40]`.
fn surface_height(noise: &OpenSimplex, x: i32, z: i32) -> u32 {
    let noise_x = (x as f64) / 20.;
    let noise_z = (z as f64) / 20.;
    let noise_height = noise.get([noise_x, noise_z]) as f32;
    ((noise_height + 1.) * 20.) as u32
}

#[test]
fn get_height_is_deterministic_across_calls() {
    let noise = OpenSimplex::new().set_seed(12345);
    for &(x, z) in &[(0, 0), (1, 1), (-20, 35), (1000, -1000), (123456, 654321)] {
        assert_eq!(surface_height(&noise, x, z), surface_height(&noise, x, z));
    }
}

#[test]
fn get_height_is_deterministic_across_instances() {
    let a = OpenSimplex::new().set_seed(12345);
    let b = OpenSimplex::new().set_seed(12345);
    for &(x, z) in &[(0, 0), (7, -3), (-255, 255), (40, 40)] {
        assert_eq!(surface_height(&a, x, z), surface_height(&b, x, z));
    }
}

#[test]
fn heights_stay_in_range() {
    let noise = OpenSimplex::new().set_seed(12345);
    for x in -50..50 {
        for z in -50..50 {
            let h = surface_height(&noise, x * 7, z * 11);
            assert!(h <= 40);
        }
    }
}

#[test]
fn generated_chunk_follows_the_height_field() {
    let noise = OpenSimplex::new().set_seed(12345);
    let position = (2, -1);
    let mut heights = vec![0u32; 256];
    for x in 0..16i32 {
        for z in 0..16i32 {
            heights[(x * 16 + z) as usize] =
                surface_height(&noise, x + position.0 * 16, z + position.1 * 16);
        }
    }
    let chunk = World::generate_chunk(position, &heights);
    assert!(chunk.is_generated());
    assert!(chunk.is_mesh_calculated());
    for x in 0..16u32 {
        for z in 0..16u32 {
            let h = heights[(x * 16 + z) as usize];
            let section = &chunk.sections[(h / 16) as usize];
            let material = section.get_voxel((x, h % 16, z)).unwrap().material;
            assert_eq!(material, voxel_world::voxel::VoxelType::Grass);
        }
    }
}
