//! The streaming engine: coordinate-keyed ledgers and per-tick decisions.
//!
//! A [`World`] owns three ledgers over 2D chunk coordinates — `loading`
//! (in-flight generation tasks), `materialized` (finished chunks) and
//! `promoted` (chunks attached to the scene) — and decides, around a
//! moving observer, which chunks must be generated, absorbed and shown.
//! A coordinate is present in at most one of `loading` / `materialized`
//! at any time, and appears in `promoted` only after appearing in
//! `materialized` with its meshes calculated.
//!
//! The outside collaborators — the scene graph, the asset registry and
//! the background task pool — are represented by plain handle values
//! (`u64`) and task identifiers chosen by the host: the host performs the
//! spawns and polls, and hands the engine the completed chunks and the
//! created anchors; every ledger decision is made here.

use std::collections::HashMap;

use vstd::prelude::*;

use crate::chunk::{column_material, column_written, generated_len, Chunk};
use crate::voxel::VoxelType;
use crate::mesh::{mesh_eq, mesh_matches, section_faces, ChunkMesh};

verus! {

broadcast use vstd::std_specs::hash::group_hash_axioms;

/// Marker for the terrain root anchor of the host scene.
pub struct Terrain;

/// The packed ledger key of a chunk coordinate: both axes shifted into
/// `[0, 2^32)` and laid side by side, so distinct coordinates always get
/// distinct keys.
pub open spec fn coord_key(x: int, z: int) -> int {
    (x + 0x8000_0000) * 0x1_0000_0000 + (z + 0x8000_0000)
}

/// The ledger key of a coordinate pair.
pub open spec fn key_of(p: (i32, i32)) -> u64 {
    coord_key(p.0 as int, p.1 as int) as u64
}

/// Packs a chunk coordinate into its ledger key.
fn make_key(p: (i32, i32)) -> (k: u64)
    ensures
        k == key_of(p),
{
    let hi: u64 = (p.0 as i64 + 0x8000_0000) as u64;
    let lo: u64 = (p.1 as i64 + 0x8000_0000) as u64;
    hi * 0x1_0000_0000 + lo
}

/// Distinct coordinates have distinct ledger keys.
pub proof fn lemma_key_injective(p: (i32, i32), q: (i32, i32))
    requires
        key_of(p) == key_of(q),
    ensures
        p == q,
{
    assert(coord_key(p.0 as int, p.1 as int) == coord_key(q.0 as int, q.1 as int));
    assert(p.0 == q.0 && p.1 == q.1) by (nonlinear_arith)
        requires
            coord_key(p.0 as int, p.1 as int) == coord_key(q.0 as int, q.1 as int),
            -0x8000_0000 <= p.0 < 0x8000_0000,
            -0x8000_0000 <= p.1 < 0x8000_0000,
            -0x8000_0000 <= q.0 < 0x8000_0000,
            -0x8000_0000 <= q.1 < 0x8000_0000,
    ;
}

/// The streaming engine.
///
/// `loading_ledger` maps a coordinate's key to the host-chosen identifier
/// of its in-flight generation task; `chunk_ledger` holds materialized
/// chunks; `bevy_chunk_ledger` maps promoted coordinates to the scene
/// anchor the host created for them. The terrain entity and material are
/// opaque handles owned by the host.
pub struct World {
    pub terrain_entity: Option<u64>,
    pub terrain_material: u64,
    pub chunk_ledger: HashMap<u64, Chunk>,
    pub bevy_chunk_ledger: HashMap<u64, u64>,
    pub loading_ledger: HashMap<u64, u64>,
}

impl World {
    /// The in-flight ledger, as a map from keys to task identifiers.
    pub open spec fn loading(self) -> Map<u64, u64> {
        self.loading_ledger@
    }

    /// The materialized ledger, as a map from keys to chunks.
    pub open spec fn materialized(self) -> Map<u64, Chunk> {
        self.chunk_ledger@
    }

    /// The promoted ledger, as a map from keys to scene anchors.
    pub open spec fn promoted(self) -> Map<u64, u64> {
        self.bevy_chunk_ledger@
    }

    /// A coordinate has an in-flight generation task.
    pub open spec fn is_loading(self, p: (i32, i32)) -> bool {
        self.loading().contains_key(key_of(p))
    }

    /// A coordinate has a materialized chunk.
    pub open spec fn is_materialized(self, p: (i32, i32)) -> bool {
        self.materialized().contains_key(key_of(p))
    }

    /// A coordinate has been promoted into the scene.
    pub open spec fn is_promoted(self, p: (i32, i32)) -> bool {
        self.promoted().contains_key(key_of(p))
    }

    /// The ledger invariant: a key is in at most one of `loading` /
    /// `materialized`, and every promoted key is materialized with its
    /// meshes calculated.
    pub open spec fn wf(self) -> bool {
        &&& forall|k: u64| #[trigger]
            self.loading().contains_key(k) ==> !self.materialized().contains_key(k)
        &&& forall|k: u64| #[trigger]
            self.promoted().contains_key(k) ==> self.materialized().contains_key(k)
                && self.materialized()[k].mesh_calculated
    }

    /// An update that leaves all three ledgers as they were preserves the
    /// ledger invariant.
    proof fn lemma_wf_same_ledgers(w1: World, w2: World)
        requires
            w1.wf(),
            w2.loading() == w1.loading(),
            w2.materialized() == w1.materialized(),
            w2.promoted() == w1.promoted(),
        ensures
            w2.wf(),
    {
        assert forall|k: u64| #[trigger] w2.loading().contains_key(k) implies !w2.materialized().contains_key(k) by {
            assert(w1.loading().contains_key(k));
        }
        assert forall|k: u64| #[trigger] w2.promoted().contains_key(k) implies w2.materialized().contains_key(k) && w2.materialized()[k].mesh_calculated by {
            assert(w1.promoted().contains_key(k));
        }
    }

    /// Exposes the in-flight check to the host, which must only hand
    /// completed chunks for coordinates it is actually loading.
    pub fn loading_contains(&self, position: (i32, i32)) -> (r: bool)
        ensures
            r == self.is_loading(position),
    {
        let k = make_key(position);
        self.loading_ledger.contains_key(&k)
    }

    /// Exposes the materialized check to the host.
    pub fn materialized_contains(&self, position: (i32, i32)) -> (r: bool)
        ensures
            r == self.is_materialized(position),
    {
        let k = make_key(position);
        self.chunk_ledger.contains_key(&k)
    }

    /// Records the shared terrain material handle the host created.
    pub fn create_material(&mut self, material: u64)
        requires
            old(self).wf(),
        ensures
            final(self).wf(),
            final(self).terrain_material == material,
            final(self).terrain_entity == old(self).terrain_entity,
            final(self).loading() == old(self).loading(),
            final(self).materialized() == old(self).materialized(),
            final(self).promoted() == old(self).promoted(),
    {
        self.terrain_material = material;
        proof {
            Self::lemma_wf_same_ledgers(*old(self), *self);
        }
    }

    /// Registers a freshly spawned generation task under a coordinate
    /// known to be untracked.
    fn create_chunk(&mut self, position: (i32, i32), task: u64)
        requires
            old(self).wf(),
            !old(self).is_materialized(position),
        ensures
            final(self).wf(),
            final(self).loading() == old(self).loading().insert(key_of(position), task),
            final(self).materialized() == old(self).materialized(),
            final(self).promoted() == old(self).promoted(),
            final(self).terrain_entity == old(self).terrain_entity,
            final(self).terrain_material == old(self).terrain_material,
    {
        let k = make_key(position);
        self.loading_ledger.insert(k, task);
        proof {
            assert forall|k2: u64| #[trigger] self.loading().contains_key(k2) implies !self.materialized().contains_key(k2) by {
                if k2 != k {
                    assert(old(self).loading().contains_key(k2));
                }
            }
            assert forall|k2: u64| #[trigger] self.promoted().contains_key(k2) implies self.materialized().contains_key(k2) && self.materialized()[k2].mesh_calculated by {
                assert(old(self).promoted().contains_key(k2));
            }
        }
    }

    /// The `request` decision: when the coordinate is absent from both
    /// `loading` and `materialized`, register `task` as its in-flight
    /// generation task and tell the host to spawn it; while the
    /// coordinate is already tracked in either ledger, do nothing — a
    /// repeated request spawns no additional task.
    pub fn render_chunk(&mut self, position: (i32, i32), task: u64) -> (spawned: bool)
        requires
            old(self).wf(),
        ensures
            final(self).wf(),
            spawned == (!old(self).is_loading(position) && !old(self).is_materialized(position)),
            spawned ==> final(self).loading() == old(self).loading().insert(
                key_of(position),
                task,
            ),
            !spawned ==> *final(self) == *old(self),
            final(self).materialized() == old(self).materialized(),
            final(self).promoted() == old(self).promoted(),
            final(self).terrain_entity == old(self).terrain_entity,
            final(self).terrain_material == old(self).terrain_material,
            final(self).is_loading(position) || final(self).is_materialized(position),
    {
        let k = make_key(position);
        if !self.loading_ledger.contains_key(&k) && !self.chunk_ledger.contains_key(&k) {
            self.create_chunk(position, task);
            true
        } else {
            false
        }
    }

    /// The pure unit of background work, exactly as a task runs it: a
    /// fresh chunk at `position`, voxels generated from the height field,
    /// then every section meshed.
    pub fn generate_chunk(position: (i32, i32), heights: &Vec<u32>) -> (c: Chunk)
        requires
            heights@.len() == 256,
        ensures
            c.wf(),
            c.position == position,
            c.terrain_generated,
            c.mesh_calculated,
            c.sections@.len() == generated_len(heights@, 0, 256),
            forall|a: int, b: int, z: int|
                #[trigger] c.voxel_at(a, b, z) == if 0 <= a < 16 && 0 <= z < 16 && column_written(
                    heights@[a * 16 + z],
                    b,
                ) {
                    column_material(heights@[a * 16 + z], b)
                } else {
                    VoxelType::Air
                },
            forall|i: int|
                0 <= i < c.sections@.len() ==> {
                    let s = #[trigger] c.sections@[i];
                    &&& s.mesh_generated
                    &&& mesh_matches(
                        s.chunk_mesh,
                        section_faces(s.voxels@),
                        (s.position.0 as int, s.position.1 as int, s.position.2 as int),
                    )
                },
    {
        let mut chunk = Chunk::new(position);
        proof {
            assert(chunk.sections@.len() == 0);
        }
        chunk.generate_voxels(heights);
        let ghost mid = chunk;
        let r = chunk.generate_chunk_meshes();
        proof {
            assert(r.is_ok());
            assert forall|a: int, b: int, z: int|
                #[trigger] chunk.voxel_at(a, b, z) == if 0 <= a < 16 && 0 <= z < 16
                    && column_written(heights@[a * 16 + z], b) {
                    column_material(heights@[a * 16 + z], b)
                } else {
                    VoxelType::Air
                } by {
                if 0 <= a < 16 && 0 <= z < 16 && 0 <= b && b / 16 < chunk.sections@.len() {
                    assert(chunk.sections@[b / 16].voxels@ == mid.sections@[b / 16].voxels@);
                }
                assert(chunk.voxel_at(a, b, z) == mid.voxel_at(a, b, z));
            }
            assert forall|i: int| 0 <= i < chunk.sections@.len() implies {
                let s = #[trigger] chunk.sections@[i];
                &&& s.mesh_generated
                &&& mesh_matches(
                    s.chunk_mesh,
                    section_faces(s.voxels@),
                    (s.position.0 as int, s.position.1 as int, s.position.2 as int),
                )
            } by {
                assert(!mid.sections@[i].mesh_generated);
                assert(chunk.sections@[i].voxels@ == mid.sections@[i].voxels@);
                assert(section_faces(chunk.sections@[i].voxels@) == section_faces(
                    mid.sections@[i].voxels@,
                ));
            }
        }
        chunk
    }

    /// The `flush` decision for a batch of completed tasks: each chunk
    /// leaves `loading` and enters `materialized`; the coordinates whose
    /// meshes are calculated come back, in order, ready for promotion.
    pub fn load_chunks(&mut self, completed: Vec<((i32, i32), Chunk)>) -> (ready: Vec<(i32, i32)>)
        requires
            old(self).wf(),
            forall|i: int, j: int|
                0 <= i < j < completed@.len() ==> key_of(#[trigger] completed@[i].0) != key_of(
                    #[trigger] completed@[j].0,
                ),
            forall|i: int|
                0 <= i < completed@.len() ==> old(self).is_loading(#[trigger] completed@[i].0),
        ensures
            final(self).wf(),
            final(self).promoted() == old(self).promoted(),
            final(self).terrain_entity == old(self).terrain_entity,
            final(self).terrain_material == old(self).terrain_material,
            forall|i: int|
                0 <= i < completed@.len() ==> {
                    let p = (#[trigger] completed@[i]).0;
                    &&& !final(self).is_loading(p)
                    &&& final(self).is_materialized(p)
                    &&& final(self).materialized()[key_of(p)] == completed@[i].1
                },
            forall|k: u64|
                (forall|i: int| 0 <= i < completed@.len() ==> key_of(#[trigger] completed@[i].0) != k)
                    ==> {
                    &&& #[trigger] final(self).loading().contains_key(k) == old(self).loading().contains_key(k)
                    &&& (old(self).loading().contains_key(k) ==> final(self).loading()[k] == old(self).loading()[k])
                    &&& final(self).materialized().contains_key(k) == old(self).materialized().contains_key(k)
                    &&& (old(self).materialized().contains_key(k) ==> final(self).materialized()[k] == old(self).materialized()[k])
                },
            ready@ == promotable_of(completed@),
    {
        let ghost entries = completed@;
        let mut chunks = completed;
        let mut ready: Vec<(i32, i32)> = Vec::new();
        while chunks.len() > 0
            invariant
                self.wf(),
                chunks@ == entries.subrange(
                    entries.len() - chunks@.len(),
                    entries.len() as int,
                ),
                chunks@.len() <= entries.len(),
                forall|i: int, j: int|
                    0 <= i < j < entries.len() ==> key_of(#[trigger] entries[i].0) != key_of(
                        #[trigger] entries[j].0,
                    ),
                forall|i: int|
                    entries.len() - chunks@.len() <= i < entries.len() ==> self.is_loading(
                        #[trigger] entries[i].0,
                    ),
                self.promoted() == old(self).promoted(),
                self.terrain_entity == old(self).terrain_entity,
                self.terrain_material == old(self).terrain_material,
                forall|i: int|
                    0 <= i < entries.len() - chunks@.len() ==> {
                        let p = (#[trigger] entries[i]).0;
                        &&& !self.is_loading(p)
                        &&& self.is_materialized(p)
                        &&& self.materialized()[key_of(p)] == entries[i].1
                    },
                forall|k: u64|
                    (forall|i: int| 0 <= i < entries.len() ==> key_of(#[trigger] entries[i].0) != k)
                        ==> {
                        &&& #[trigger] self.loading().contains_key(k) == old(self).loading().contains_key(k)
                        &&& (old(self).loading().contains_key(k) ==> self.loading()[k] == old(self).loading()[k])
                        &&& self.materialized().contains_key(k) == old(self).materialized().contains_key(k)
                        &&& (old(self).materialized().contains_key(k) ==> self.materialized()[k]
                            == old(self).materialized()[k])
                    },
                ready@ == promotable_of(
                    entries.subrange(0, entries.len() - chunks@.len()),
                ),
            decreases chunks@.len(),
        {
            let ghost done = entries.len() - chunks@.len();
            let (position, chunk) = chunks.remove(0);
            proof {
                assert(entries[done] == (position, chunk));
                assert(chunks@ =~= entries.subrange(done + 1, entries.len() as int));
            }
            let k = make_key(position);
            self.loading_ledger.remove(&k);
            let promotable = chunk.is_mesh_calculated();
            self.chunk_ledger.insert(k, chunk);
            if promotable {
                ready.push(position);
            }
            proof {
                assert forall|i: int|
                    done + 1 <= i < entries.len() implies self.is_loading(
                    #[trigger] entries[i].0,
                ) by {
                    assert(key_of(entries[i].0) != k);
                }
                assert(entries.subrange(0, done + 1).drop_last() =~= entries.subrange(0, done));
                assert(entries.subrange(0, done + 1).last() == entries[done]);
                assert(ready@ == promotable_of(entries.subrange(0, done + 1)));
            }
        }
        proof {
            assert(entries.subrange(0, entries.len() as int) =~= entries);
        }
        ready
    }

    /// The `promote` decision: when the coordinate's chunk is
    /// materialized with meshes calculated, record the host's scene
    /// anchor in `promoted` and hand back one renderable payload per
    /// section; otherwise nothing happens this tick and the host retries
    /// on a later one.
    pub fn generate_bevy_chunk(&mut self, position: (i32, i32), parent: u64) -> (r: Option<
        Vec<ChunkMesh>,
    >)
        requires
            old(self).wf(),
        ensures
            final(self).wf(),
            final(self).loading() == old(self).loading(),
            final(self).materialized() == old(self).materialized(),
            final(self).terrain_entity == old(self).terrain_entity,
            final(self).terrain_material == old(self).terrain_material,
            r.is_some() == (old(self).is_materialized(position) && old(self).materialized()[key_of(
                position,
            )].mesh_calculated),
            match r {
                Some(meshes) => {
                    let chunk = old(self).materialized()[key_of(position)];
                    &&& final(self).promoted() == old(self).promoted().insert(
                        key_of(position),
                        parent,
                    )
                    &&& meshes@.len() == chunk.sections@.len()
                    &&& forall|i: int|
                        0 <= i < chunk.sections@.len() ==> mesh_eq(
                            #[trigger] meshes@[i],
                            chunk.sections@[i].chunk_mesh,
                        )
                },
                None => *final(self) == *old(self),
            },
    {
        let k = make_key(position);
        match self.chunk_ledger.get(&k) {
            Some(chunk) => {
                if chunk.is_mesh_calculated() {
                    let meshes = chunk.generate_bevy_meshes();
                    self.bevy_chunk_ledger.insert(k, parent);
                    proof {
                        assert forall|k2: u64| #[trigger] self.loading().contains_key(k2) implies !self.materialized().contains_key(k2) by {
                            assert(old(self).loading().contains_key(k2));
                        }
                        assert forall|k2: u64| #[trigger] self.promoted().contains_key(k2) implies self.materialized().contains_key(k2) && self.materialized()[k2].mesh_calculated by {
                            if k2 != k {
                                assert(old(self).promoted().contains_key(k2));
                            }
                        }
                    }
                    Some(meshes)
                } else {
                    None
                }
            },
            None => None,
        }
    }
}

/// The coordinates of a completed batch whose meshes are calculated, in
/// batch order: the ones `flush` reports ready for promotion.
pub open spec fn promotable_of(entries: Seq<((i32, i32), Chunk)>) -> Seq<(i32, i32)>
    decreases entries.len(),
{
    if entries.len() == 0 {
        Seq::empty()
    } else {
        promotable_of(entries.drop_last()) + (if entries.last().1.mesh_calculated {
            seq![entries.last().0]
        } else {
            Seq::empty()
        })
    }
}

impl Default for World {
    /// A fresh engine: empty ledgers, no terrain anchor, a null material.
    fn default() -> (w: World)
        ensures
            w.wf(),
            w.terrain_entity.is_none(),
            w.terrain_material == 0,
            w.loading() == Map::<u64, u64>::empty(),
            w.materialized() == Map::<u64, Chunk>::empty(),
            w.promoted() == Map::<u64, u64>::empty(),
    {
        World {
            terrain_entity: None,
            terrain_material: 0,
            chunk_ledger: HashMap::new(),
            bevy_chunk_ledger: HashMap::new(),
            loading_ledger: HashMap::new(),
        }
    }
}

/// A coordinate never appears in `promoted` unless it already appears in
/// `materialized` with `mesh_calculated` true: the promotion guard is an
/// invariant of every well-formed engine state.
pub proof fn lemma_promoted_is_materialized(w: World, p: (i32, i32))
    requires
        w.wf(),
        w.is_promoted(p),
    ensures
        w.is_materialized(p),
        w.materialized()[key_of(p)].mesh_calculated,
{
}

/// The one-time initialization entry point: records the world root anchor
/// and the terrain material the host created; the ledgers are untouched.
pub fn setup_world(world: &mut World, terrain_entity: u64, material: u64)
    requires
        old(world).wf(),
    ensures
        final(world).wf(),
        final(world).terrain_entity == Some(terrain_entity),
        final(world).terrain_material == material,
        final(world).loading() == old(world).loading(),
        final(world).materialized() == old(world).materialized(),
        final(world).promoted() == old(world).promoted(),
{
    world.terrain_entity = Some(terrain_entity);
    proof {
        World::lemma_wf_same_ledgers(*old(world), *world);
    }
    world.create_material(material);
}

/// Scanning only ever adds in-flight tasks: every ledger entry survives
/// with its value, the other ledgers and the terrain handles stay as they
/// were.
pub open spec fn ledger_extends(w1: World, w2: World) -> bool {
    &&& forall|k: u64| #[trigger]
        w1.loading().contains_key(k) ==> w2.loading().contains_key(k) && w2.loading()[k]
            == w1.loading()[k]
    &&& w2.materialized() == w1.materialized()
    &&& w2.promoted() == w1.promoted()
    &&& w2.terrain_entity == w1.terrain_entity
    &&& w2.terrain_material == w1.terrain_material
}

/// A coordinate lies within the scan's outermost square: at most 15
/// chunks from the observer's chunk on each axis.
pub open spec fn in_scan_square(p: (i32, i32), cx: int, cz: int) -> bool {
    cx - 15 <= p.0 as int <= cx + 15 && cz - 15 <= p.1 as int <= cz + 15
}

/// The coordinate at offset `(dx, dz)` from the observer's chunk is
/// tracked: loading or already materialized.
pub open spec fn covered(w: World, cx: int, cz: int, dx: int, dz: int) -> bool {
    w.is_loading((((cx + dx) as i32), ((cz + dz) as i32))) || w.is_materialized(
        (((cx + dx) as i32), ((cz + dz) as i32)),
    )
}

/// Extension is transitive.
proof fn lemma_extends_trans(w1: World, w2: World, w3: World)
    requires
        ledger_extends(w1, w2),
        ledger_extends(w2, w3),
    ensures
        ledger_extends(w1, w3),
{
    assert forall|k: u64| #[trigger]
        w1.loading().contains_key(k) implies w3.loading().contains_key(k) && w3.loading()[k]
            == w1.loading()[k] by {
        assert(w2.loading().contains_key(k));
    }
}

/// A tracked coordinate stays tracked under extension.
proof fn lemma_extends_covered(w1: World, w2: World, cx: int, cz: int, dx: int, dz: int)
    requires
        ledger_extends(w1, w2),
        covered(w1, cx, cz, dx, dz),
    ensures
        covered(w2, cx, cz, dx, dz),
{
    let p = (((cx + dx) as i32), ((cz + dz) as i32));
    if w1.is_loading(p) {
        assert(w1.loading().contains_key(key_of(p)));
    }
}

/// The per-tick scan entry point: around the observer's chunk coordinate
/// (the floor-divided world position the host computed), walk squares of
/// radius 0 through 15 — successive squares overlap, so inner coordinates
/// are re-visited, which is harmless because requests are idempotent —
/// and request every coordinate. The returned list names the coordinates
/// that actually need a task spawned, paired with their registered task
/// identifiers `next_task`, `next_task + 1`, ... in order.
pub fn update_world(world: &mut World, chunk_x: i32, chunk_z: i32, next_task: u64) -> (spawn: Vec<
    ((i32, i32), u64),
>)
    requires
        old(world).wf(),
        chunk_x as int - 15 >= i32::MIN as int,
        chunk_x as int + 16 <= i32::MAX as int,
        chunk_z as int - 15 >= i32::MIN as int,
        chunk_z as int + 16 <= i32::MAX as int,
        next_task as int + 15376 <= u64::MAX as int,
    ensures
        final(world).wf(),
        ledger_extends(*old(world), *final(world)),
        forall|dx: int, dz: int|
            -15 <= dx <= 15 && -15 <= dz <= 15 ==> #[trigger] covered(
                *final(world),
                chunk_x as int,
                chunk_z as int,
                dx,
                dz,
            ),
        spawn@.len() <= 15376,
        forall|i: int, j: int|
            0 <= i < j < spawn@.len() ==> key_of((#[trigger] spawn@[i]).0) != key_of(
                (#[trigger] spawn@[j]).0,
            ),
        forall|i: int|
            0 <= i < spawn@.len() ==> {
                let e = #[trigger] spawn@[i];
                &&& e.1 == next_task + i
                        &&& in_scan_square(e.0, chunk_x as int, chunk_z as int)
                &&& !old(world).is_loading(e.0)
                &&& !old(world).is_materialized(e.0)
                &&& final(world).is_loading(e.0)
                &&& final(world).loading()[key_of(e.0)] == e.1
            },
        forall|k: u64| #[trigger]
            final(world).loading().contains_key(k) ==> old(world).loading().contains_key(k)
                || exists|i: int| 0 <= i < spawn@.len() && key_of((#[trigger] spawn@[i]).0) == k,
{
    let mut spawn: Vec<((i32, i32), u64)> = Vec::new();
    let ghost cx = chunk_x as int;
    let ghost cz = chunk_z as int;
    let mut radius: i32 = 0;
    while radius < 16
        invariant
            world.wf(),
            0 <= radius <= 16,
            cx == chunk_x as int,
            cz == chunk_z as int,
            cx - 15 >= i32::MIN as int,
            cx + 16 <= i32::MAX as int,
            cz - 15 >= i32::MIN as int,
            cz + 16 <= i32::MAX as int,
            next_task as int + 15376 <= u64::MAX as int,
            ledger_extends(*old(world), *world),
            spawn@.len() <= 961 * radius as int,
            forall|dx: int, dz: int|
                -radius < dx < radius && -radius < dz < radius ==> #[trigger] covered(
                    *world,
                    cx,
                    cz,
                    dx,
                    dz,
                ),
            forall|i: int|
                0 <= i < spawn@.len() ==> {
                    let e = #[trigger] spawn@[i];
                    &&& e.1 == next_task + i
                        &&& in_scan_square(e.0, chunk_x as int, chunk_z as int)
                    &&& !old(world).is_loading(e.0)
                    &&& !old(world).is_materialized(e.0)
                    &&& world.is_loading(e.0)
                    &&& world.loading()[key_of(e.0)] == e.1
                },
            forall|k: u64| #[trigger]
                world.loading().contains_key(k) ==> old(world).loading().contains_key(k)
                    || exists|i: int| 0 <= i < spawn@.len() && key_of((#[trigger] spawn@[i]).0)
                    == k,
        decreases 16 - radius,
    {
        let min_x = chunk_x - radius;
        let max_x = chunk_x + radius;
        let min_z = chunk_z - radius;
        let max_z = chunk_z + radius;
        let mut x = min_x;
        while x <= max_x
            invariant
                world.wf(),
                0 <= radius < 16,
                cx == chunk_x as int,
                cz == chunk_z as int,
                cx - 15 >= i32::MIN as int,
                cx + 16 <= i32::MAX as int,
                cz - 15 >= i32::MIN as int,
                cz + 16 <= i32::MAX as int,
                next_task as int + 15376 <= u64::MAX as int,
                min_x as int == cx - radius,
                max_x as int == cx + radius,
                min_z as int == cz - radius,
                max_z as int == cz + radius,
                min_x <= x,
                x as int <= max_x as int + 1,
                ledger_extends(*old(world), *world),
                spawn@.len() <= 961 * radius as int + 31 * (x as int - min_x as int),
                forall|dx: int, dz: int|
                    -radius < dx < radius && -radius < dz < radius ==> #[trigger] covered(
                        *world,
                        cx,
                        cz,
                        dx,
                        dz,
                    ),
                forall|dx: int, dz: int|
                    -radius <= dx < x as int - cx && -radius <= dz <= radius ==> #[trigger] covered(
                        *world,
                        cx,
                        cz,
                        dx,
                        dz,
                    ),
                forall|i: int|
                    0 <= i < spawn@.len() ==> {
                        let e = #[trigger] spawn@[i];
                        &&& e.1 == next_task + i
                        &&& in_scan_square(e.0, chunk_x as int, chunk_z as int)
                        &&& !old(world).is_loading(e.0)
                        &&& !old(world).is_materialized(e.0)
                        &&& world.is_loading(e.0)
                        &&& world.loading()[key_of(e.0)] == e.1
                    },
                forall|k: u64| #[trigger]
                    world.loading().contains_key(k) ==> old(world).loading().contains_key(k)
                        || exists|i: int| 0 <= i < spawn@.len() && key_of((#[trigger] spawn@[i]).0)
                        == k,
            decreases max_x as int + 1 - x as int,
        {
            let mut z = min_z;
            while z <= max_z
                invariant
                    world.wf(),
                    0 <= radius < 16,
                    cx == chunk_x as int,
                    cz == chunk_z as int,
                    cx - 15 >= i32::MIN as int,
                    cx + 16 <= i32::MAX as int,
                    cz - 15 >= i32::MIN as int,
                    cz + 16 <= i32::MAX as int,
                    next_task as int + 15376 <= u64::MAX as int,
                    min_x as int == cx - radius,
                    max_x as int == cx + radius,
                    min_z as int == cz - radius,
                    max_z as int == cz + radius,
                    min_x <= x <= max_x,
                    min_z <= z,
                    z as int <= max_z as int + 1,
                    ledger_extends(*old(world), *world),
                    spawn@.len() <= 961 * radius as int + 31 * (x as int - min_x as int) + (
                    z as int - min_z as int),
                    forall|dx: int, dz: int|
                        -radius < dx < radius && -radius < dz < radius ==> #[trigger] covered(
                            *world,
                            cx,
                            cz,
                            dx,
                            dz,
                        ),
                    forall|dx: int, dz: int|
                        -radius <= dx < x as int - cx && -radius <= dz <= radius ==> #[trigger]
                            covered(*world, cx, cz, dx, dz),
                    forall|dz: int|
                        -radius <= dz < z as int - cz ==> #[trigger] covered(
                            *world,
                            cx,
                            cz,
                            x as int - cx,
                            dz,
                        ),
                    forall|i: int|
                        0 <= i < spawn@.len() ==> {
                            let e = #[trigger] spawn@[i];
                            &&& e.1 == next_task + i
                        &&& in_scan_square(e.0, chunk_x as int, chunk_z as int)
                            &&& !old(world).is_loading(e.0)
                            &&& !old(world).is_materialized(e.0)
                            &&& world.is_loading(e.0)
                            &&& world.loading()[key_of(e.0)] == e.1
                        },
                    forall|k: u64| #[trigger]
                        world.loading().contains_key(k) ==> old(world).loading().contains_key(k)
                            || exists|i: int| 0 <= i < spawn@.len() && key_of(
                            (#[trigger] spawn@[i]).0,
                        ) == k,
                decreases max_z as int + 1 - z as int,
            {
                let ghost wp = *world;
                let ghost spawn0 = spawn@;
                let ghost len0 = spawn@.len() as int;
                let t = next_task + spawn.len() as u64;
                let spawned = world.render_chunk((x, z), t);
                if spawned {
                    spawn.push(((x, z), t));
                }
                proof {
                    assert forall|k: u64| #[trigger]
                        wp.loading().contains_key(k) implies world.loading().contains_key(k)
                        && world.loading()[k] == wp.loading()[k] by {
                        if spawned {
                            assert(k != key_of((x, z)));
                        }
                    }
                    assert(ledger_extends(wp, *world));
                    lemma_extends_trans(*old(world), wp, *world);
                    assert forall|dx: int, dz: int|
                        -radius < dx < radius && -radius < dz < radius implies #[trigger] covered(
                        *world,
                        cx,
                        cz,
                        dx,
                        dz,
                    ) by {
                        lemma_extends_covered(wp, *world, cx, cz, dx, dz);
                    }
                    assert forall|dx: int, dz: int|
                        -radius <= dx < x as int - cx && -radius <= dz <= radius implies #[trigger]
                            covered(*world, cx, cz, dx, dz) by {
                        lemma_extends_covered(wp, *world, cx, cz, dx, dz);
                    }
                    assert forall|dz: int|
                        -radius <= dz < z as int + 1 - cz implies #[trigger] covered(
                        *world,
                        cx,
                        cz,
                        x as int - cx,
                        dz,
                    ) by {
                        if dz < z as int - cz {
                            lemma_extends_covered(wp, *world, cx, cz, x as int - cx, dz);
                        } else {
                            assert(dz == z as int - cz);
                            assert((((cx + (x as int - cx)) as i32), ((cz + dz) as i32)) == (x, z));
                        }
                    }
                    assert forall|i: int| 0 <= i < spawn@.len() implies {
                        let e = #[trigger] spawn@[i];
                        &&& e.1 == next_task + i
                        &&& in_scan_square(e.0, chunk_x as int, chunk_z as int)
                        &&& !old(world).is_loading(e.0)
                        &&& !old(world).is_materialized(e.0)
                        &&& world.is_loading(e.0)
                        &&& world.loading()[key_of(e.0)] == e.1
                    } by {
                        let e = spawn@[i];
                        if i < len0 {
                            assert(wp.is_loading(e.0));
                            assert(wp.loading().contains_key(key_of(e.0)));
                        } else {
                            assert(e == ((x, z), t));
                        }
                    }
                    assert forall|k: u64| #[trigger]
                        world.loading().contains_key(k) implies old(world).loading().contains_key(
                        k,
                    ) || exists|i: int|
                        0 <= i < spawn@.len() && key_of((#[trigger] spawn@[i]).0) == k by {
                        if spawned && k == key_of((x, z)) {
                            assert(key_of(spawn@[len0].0) == k);
                        } else {
                            assert(wp.loading().contains_key(k));
                            if !old(world).loading().contains_key(k) {
                                let i0 = choose|i: int|
                                    0 <= i < spawn0.len() && key_of(spawn0[i].0) == k;
                                assert(spawn@[i0] == spawn0[i0]);
                                assert(key_of(spawn@[i0].0) == k);
                            }
                        }
                    }
                }
                z += 1;
            }
            x += 1;
        }
        radius += 1;
    }
    proof {
        assert forall|i: int, j: int|
            0 <= i < j < spawn@.len() implies key_of((#[trigger] spawn@[i]).0) != key_of(
            (#[trigger] spawn@[j]).0,
        ) by {
            let ei = spawn@[i];
            let ej = spawn@[j];
            if key_of(ei.0) == key_of(ej.0) {
                assert(world.loading()[key_of(ei.0)] == next_task + i);
                assert(world.loading()[key_of(ej.0)] == next_task + j);
            }
        }
    }
    spawn
}

/// The per-tick flush entry point: absorb the chunks whose background
/// tasks completed and report which coordinates are ready for promotion.
pub fn load_chunks(world: &mut World, completed: Vec<((i32, i32), Chunk)>) -> (ready: Vec<
    (i32, i32),
>)
    requires
        old(world).wf(),
        forall|i: int, j: int|
            0 <= i < j < completed@.len() ==> key_of(#[trigger] completed@[i].0) != key_of(
                #[trigger] completed@[j].0,
            ),
        forall|i: int|
            0 <= i < completed@.len() ==> old(world).is_loading(#[trigger] completed@[i].0),
    ensures
        final(world).wf(),
        final(world).promoted() == old(world).promoted(),
        forall|i: int|
            0 <= i < completed@.len() ==> {
                let p = (#[trigger] completed@[i]).0;
                &&& !final(world).is_loading(p)
                &&& final(world).is_materialized(p)
                &&& final(world).materialized()[key_of(p)] == completed@[i].1
            },
        ready@ == promotable_of(completed@),
{
    world.load_chunks(completed)
}

} // verus!
