//! Tests for the streaming engine: ledger transitions, idempotent
//! requests, flushing completed work and guarded promotion.

use voxel_world::chunk::Chunk;
use voxel_world::world::{load_chunks, setup_world, update_world, World};

#[test]
fn request_registers_absent_coordinate() {
    let mut world = World::default();
    let spawned = world.render_chunk((3, 4), 7);
    assert!(spawned);
    assert!(world.loading_contains((3, 4)));
    assert!(!world.materialized_contains((3, 4)));
}

#[test]
fn request_is_idempotent_while_loading() {
    let mut world = World::default();
    assert!(world.render_chunk((3, 4), 7));
    // A repeated request while the coordinate is tracked spawns nothing.
    assert!(!world.render_chunk((3, 4), 8));
    assert!(world.loading_contains((3, 4)));
}

#[test]
fn request_is_idempotent_while_materialized() {
    let mut world = World::default();
    assert!(world.render_chunk((1, 2), 1));
    let chunk = World::generate_chunk((1, 2), &vec![5u32; 256]);
    load_chunks(&mut world, vec![((1, 2), chunk)]);
    assert!(!world.render_chunk((1, 2), 2));
    assert!(!world.loading_contains((1, 2)));
}

#[test]
fn distinct_coordinates_get_distinct_entries() {
    let mut world = World::default();
    assert!(world.render_chunk((0, 1), 1));
    assert!(world.render_chunk((1, 0), 2));
    assert!(world.loading_contains((0, 1)));
    assert!(world.loading_contains((1, 0)));
    assert!(!world.loading_contains((1, 1)));
}

#[test]
fn flush_moves_completed_chunk_to_materialized() {
    let mut world = World::default();
    world.render_chunk((0, 0), 1);
    let chunk = World::generate_chunk((0, 0), &vec![5u32; 256]);
    let ready = load_chunks(&mut world, vec![((0, 0), chunk)]);
    assert!(!world.loading_contains((0, 0)));
    assert!(world.materialized_contains((0, 0)));
    assert_eq!(ready, vec![(0, 0)]);
}

#[test]
fn flush_reports_only_meshed_chunks_ready() {
    let mut world = World::default();
    world.render_chunk((0, 0), 1);
    // A chunk that never ran the mesher is not ready for promotion.
    let bare = Chunk::new((0, 0));
    let ready = load_chunks(&mut world, vec![((0, 0), bare)]);
    assert!(ready.is_empty());
    assert!(world.materialized_contains((0, 0)));
}

#[test]
fn promotion_requires_materialized_meshed_chunk() {
    let mut world = World::default();
    // Nothing materialized: nothing happens this tick.
    assert!(world.generate_bevy_chunk((0, 0), 100).is_none());

    // Materialized but not meshed: still guarded.
    world.render_chunk((0, 0), 1);
    load_chunks(&mut world, vec![((0, 0), Chunk::new((0, 0)))]);
    assert!(world.generate_bevy_chunk((0, 0), 100).is_none());
}

#[test]
fn promotion_attaches_one_payload_per_section() {
    let mut world = World::default();
    world.render_chunk((2, -3), 1);
    let chunk = World::generate_chunk((2, -3), &vec![20u32; 256]);
    let sections = chunk.sections.len();
    let ready = load_chunks(&mut world, vec![((2, -3), chunk)]);
    assert_eq!(ready, vec![(2, -3)]);
    let payloads = world.generate_bevy_chunk((2, -3), 100).unwrap();
    assert_eq!(payloads.len(), sections);
    assert_eq!(sections, 2);
    // With a flat surface at height 20 the lower section is all Air and
    // meshes to nothing; the upper one holds the terrain shell.
    assert_eq!(payloads[0].vertices.len(), 0);
    assert!(payloads[1].vertices.len() > 0);
}

#[test]
fn generated_chunk_is_complete() {
    let chunk = World::generate_chunk((4, 4), &vec![0u32; 256]);
    assert!(chunk.is_generated());
    assert!(chunk.is_mesh_calculated());
    assert_eq!(chunk.get_position(), (4, 4));
    assert_eq!(chunk.sections.len(), 1);
    // A flat height field at zero is all Grass surface: 256 top faces
    // plus the shell faces of the single occupied voxel layer.
    assert!(chunk.sections[0].chunk_mesh.vertices.len() > 0);
}

#[test]
fn setup_world_records_host_handles() {
    let mut world = World::default();
    setup_world(&mut world, 41, 17);
    assert_eq!(world.terrain_entity, Some(41));
    assert_eq!(world.terrain_material, 17);
}

#[test]
fn first_scan_requests_the_full_square() {
    let mut world = World::default();
    let spawn = update_world(&mut world, 0, 0, 0);
    // The radius-15 square holds 31 x 31 coordinates, each requested once.
    assert_eq!(spawn.len(), 961);
    for (i, ((x, z), task)) in spawn.iter().enumerate() {
        assert!(*x >= -15 && *x <= 15);
        assert!(*z >= -15 && *z <= 15);
        assert_eq!(*task, i as u64);
        assert!(world.loading_contains((*x, *z)));
    }
}

#[test]
fn repeated_scan_spawns_nothing() {
    let mut world = World::default();
    let first = update_world(&mut world, 5, -5, 0);
    assert_eq!(first.len(), 961);
    let second = update_world(&mut world, 5, -5, 961);
    assert!(second.is_empty());
}

#[test]
fn moved_observer_requests_only_new_coordinates() {
    let mut world = World::default();
    let first = update_world(&mut world, 0, 0, 0);
    assert_eq!(first.len(), 961);
    let second = update_world(&mut world, 1, 0, 961);
    // One new column of 31 coordinates enters the square.
    assert_eq!(second.len(), 31);
    for ((x, _), _) in second.iter() {
        assert_eq!(*x, 16);
    }
}
