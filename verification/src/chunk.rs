//! Voxel sections and chunks.
//!
//! A [`ChunkSection`] is one fixed `16 x 16 x 16` slab of voxels together
//! with its mesh buffers; a [`Chunk`] is a column of sections over one
//! `16 x 16` footprint, grown upward on demand and never shrunk, plus the
//! flags that track whether terrain and meshes have been produced.

use vstd::prelude::*;

use crate::mesh::{
    mesh_eq, mesh_matches, section_faces, flat_index, in_local_bounds, material_at, ChunkBuilder,
    ChunkMesh,
};
use crate::voxel::{TerrainFault, Voxel, VoxelType, CHUNK_AREA, CHUNK_LENGTH, CHUNK_VOLUME};

verus! {

/// One vertical slab of voxels with its own mesh buffers.
///
/// Well-formed sections always hold exactly `CHUNK_VOLUME` voxels; local
/// coordinates are in `[0, 16)` on all three axes, and out-of-range access
/// is a reported fault, never a silent wraparound.
pub struct ChunkSection {
    pub voxels: Vec<Voxel>,
    pub position: (i32, i32, i32),
    pub chunk_mesh: ChunkMesh,
    pub mesh_generated: bool,
}

impl ChunkSection {
    /// The section's one structural invariant: a full, fixed-size grid.
    pub open spec fn wf(self) -> bool {
        self.voxels@.len() == 4096
    }

    /// A fresh all-Air section at the given section coordinate.
    pub fn new(position: (i32, i32, i32)) -> (s: ChunkSection)
        ensures
            s.wf(),
            s.position == position,
            forall|i: int| 0 <= i < 4096 ==> (#[trigger] s.voxels@[i]).material == VoxelType::Air,
            !s.mesh_generated,
            s.chunk_mesh.vertices@.len() == 0,
            s.chunk_mesh.uvs@.len() == 0,
            s.chunk_mesh.normals@.len() == 0,
            s.chunk_mesh.indices@.len() == 0,
    {
        let mut voxels: Vec<Voxel> = Vec::new();
        let mut i: usize = 0;
        while i < CHUNK_VOLUME
            invariant
                i <= 4096,
                voxels@.len() == i,
                forall|j: int| 0 <= j < i ==> (#[trigger] voxels@[j]).material == VoxelType::Air,
            decreases 4096 - i,
        {
            voxels.push(Voxel::air());
            i += 1;
        }
        ChunkSection { voxels, position, chunk_mesh: ChunkMesh::new(), mesh_generated: false }
    }

    /// Whether a local coordinate lies inside the section's extent.
    pub fn in_bounds(x: u32, y: u32, z: u32) -> (r: bool)
        ensures
            r == in_local_bounds(x as int, y as int, z as int),
    {
        x < CHUNK_LENGTH as u32 && y < CHUNK_LENGTH as u32 && z < CHUNK_LENGTH as u32
    }

    /// The flat storage index of an in-bounds local coordinate.
    fn get_index(x: u32, y: u32, z: u32) -> (i: usize)
        requires
            in_local_bounds(x as int, y as int, z as int),
        ensures
            i == flat_index(x as int, y as int, z as int),
    {
        (y as usize) * CHUNK_AREA + (z as usize) * CHUNK_LENGTH + (x as usize)
    }

    /// Writes one voxel, or reports `OutOfBounds` (leaving the section
    /// unchanged) when any local coordinate is outside `[0, 16)`.
    pub fn set_voxel(&mut self, position: (u32, u32, u32), material: VoxelType) -> (r: Result<
        (),
        TerrainFault,
    >)
        requires
            old(self).wf(),
        ensures
            final(self).wf(),
            match r {
                Ok(_) => {
                    &&& in_local_bounds(position.0 as int, position.1 as int, position.2 as int)
                    &&& final(self).voxels@ == old(self).voxels@.update(
                        flat_index(position.0 as int, position.1 as int, position.2 as int),
                        (Voxel { material }),
                    )
                    &&& final(self).position == old(self).position
                    &&& final(self).chunk_mesh == old(self).chunk_mesh
                    &&& final(self).mesh_generated == old(self).mesh_generated
                },
                Err(f) => {
                    &&& f == TerrainFault::OutOfBounds
                    &&& !in_local_bounds(position.0 as int, position.1 as int, position.2 as int)
                    &&& *final(self) == *old(self)
                },
            },
    {
        if !Self::in_bounds(position.0, position.1, position.2) {
            return Err(TerrainFault::OutOfBounds);
        }
        let idx = Self::get_index(position.0, position.1, position.2);
        self.voxels[idx] = Voxel { material };
        Ok(())
    }

    /// Reads one voxel, or reports `OutOfBounds` when any local coordinate
    /// is outside `[0, 16)`.
    pub fn get_voxel(&self, position: (u32, u32, u32)) -> (r: Result<Voxel, TerrainFault>)
        requires
            self.wf(),
        ensures
            match r {
                Ok(v) => {
                    &&& in_local_bounds(position.0 as int, position.1 as int, position.2 as int)
                    &&& v == self.voxels@[flat_index(
                        position.0 as int,
                        position.1 as int,
                        position.2 as int,
                    )]
                },
                Err(f) => {
                    &&& f == TerrainFault::OutOfBounds
                    &&& !in_local_bounds(position.0 as int, position.1 as int, position.2 as int)
                },
            },
    {
        if !Self::in_bounds(position.0, position.1, position.2) {
            return Err(TerrainFault::OutOfBounds);
        }
        let idx = Self::get_index(position.0, position.1, position.2);
        Ok(self.voxels[idx])
    }

    /// Discards the old mesh buffers and rebuilds them from the current
    /// voxels, marking the section meshed.
    pub fn generate_chunk_mesh(&mut self)
        requires
            old(self).wf(),
        ensures
            final(self).wf(),
            final(self).voxels@ == old(self).voxels@,
            final(self).position == old(self).position,
            final(self).mesh_generated,
            mesh_matches(
                final(self).chunk_mesh,
                section_faces(old(self).voxels@),
                (
                    old(self).position.0 as int,
                    old(self).position.1 as int,
                    old(self).position.2 as int,
                ),
            ),
    {
        self.mesh_generated = true;
        self.chunk_mesh = ChunkBuilder::build(&self.voxels, self.position);
    }
}

/// How far the dirt band under a surface of height `h` reaches down: three
/// voxels, clamped at zero rather than wrapping when `h < 3`.
pub open spec fn dirt_floor(h: u32) -> int {
    if h >= 3 {
        h - 3
    } else {
        0
    }
}

/// Whether filling a column of surface height `h` writes the cell at
/// height `y`: the Grass surface voxel at `y == h`, or the Dirt band at
/// `y` in `[dirt_floor(h), h)`.
pub open spec fn column_written(h: u32, y: int) -> bool {
    y == h || (dirt_floor(h) <= y < h)
}

/// What a generated terrain column holds at height `y`: Grass at the
/// surface, Dirt in the band just below it, Air elsewhere. Stone exists
/// as a material but is never produced by this procedure.
pub open spec fn column_material(h: u32, y: int) -> VoxelType {
    if y == h {
        VoxelType::Grass
    } else if dirt_floor(h) <= y < h {
        VoxelType::Dirt
    } else {
        VoxelType::Air
    }
}

/// The section count after a write at height `y`: sections are appended
/// until the section holding `y` exists, and never removed.
pub open spec fn grown_len(old_len: int, y: int) -> int {
    let need = y / 16 + 1;
    if old_len >= need {
        old_len
    } else {
        need
    }
}

/// The section count after filling every column below `n` (in column
/// order `x * 16 + z`) of a chunk that started with `base` sections.
pub open spec fn generated_len(heights: Seq<u32>, base: int, n: int) -> int
    decreases n,
{
    if n <= 0 {
        base
    } else {
        grown_len(generated_len(heights, base, n - 1), heights[n - 1] as int)
    }
}

/// A column of voxel sections over one `16 x 16` footprint.
///
/// The section sequence is indexed by vertical position, only ever grows,
/// and every section carries the chunk's own coordinate; the chunk-level
/// mesh flag is true only while every contained section is meshed.
pub struct Chunk {
    pub position: (i32, i32),
    pub sections: Vec<ChunkSection>,
    pub terrain_generated: bool,
    pub mesh_calculated: bool,
}

impl Chunk {
    /// The chunk invariant: bounded well-formed sections, stacked in
    /// vertical order at the chunk's own coordinate, and a mesh flag that
    /// is honest about its sections.
    pub open spec fn wf(self) -> bool {
        &&& self.sections@.len() <= 0x1000_0000
        &&& forall|i: int| 0 <= i < self.sections@.len() ==> (#[trigger] self.sections@[i]).wf()
        &&& forall|i: int|
            0 <= i < self.sections@.len() ==> {
                &&& (#[trigger] self.sections@[i]).position.0 == self.position.0
                &&& self.sections@[i].position.1 as int == i
                &&& self.sections@[i].position.2 == self.position.1
            }
        &&& self.mesh_calculated ==> forall|i: int|
            0 <= i < self.sections@.len() ==> (#[trigger] self.sections@[i]).mesh_generated
    }

    /// The material at a local footprint coordinate and any height: Air
    /// outside the footprint or above the topmost section.
    pub open spec fn voxel_at(self, x: int, y: int, z: int) -> VoxelType {
        if 0 <= x < 16 && 0 <= z < 16 && 0 <= y {
            if y / 16 < self.sections@.len() {
                material_at(self.sections@[y / 16].voxels@, x, y % 16, z)
            } else {
                VoxelType::Air
            }
        } else {
            VoxelType::Air
        }
    }

    /// An empty chunk at a 2D chunk coordinate: no sections, nothing
    /// generated yet.
    pub fn new(position: (i32, i32)) -> (c: Chunk)
        ensures
            c.wf(),
            c.position == position,
            c.sections@.len() == 0,
            !c.terrain_generated,
            !c.mesh_calculated,
            forall|x: int, y: int, z: int| c.voxel_at(x, y, z) == VoxelType::Air,
    {
        Chunk { position, sections: Vec::new(), terrain_generated: false, mesh_calculated: false }
    }

    /// Whether terrain voxels have been generated.
    pub fn is_generated(&self) -> (r: bool)
        ensures
            r == self.terrain_generated,
    {
        self.terrain_generated
    }

    /// Whether every section's mesh has been calculated.
    pub fn is_mesh_calculated(&self) -> (r: bool)
        ensures
            r == self.mesh_calculated,
    {
        self.mesh_calculated
    }

    /// The chunk's 2D coordinate.
    pub fn get_position(&self) -> (r: (i32, i32))
        ensures
            r == self.position,
    {
        self.position
    }

    /// Whether a chunk-local voxel coordinate lies over the footprint;
    /// the height is unbounded, sections grow to meet it.
    fn in_bounds(position: (u32, u32, u32)) -> (r: bool)
        ensures
            r == (position.0 < 16 && position.2 < 16),
    {
        if position.0 >= CHUNK_LENGTH as u32 {
            return false;
        }
        if position.2 >= CHUNK_LENGTH as u32 {
            return false;
        }
        true
    }

    /// Appends fresh Air sections until the section holding height `y`
    /// exists. Appending un-meshed sections withdraws the chunk-level
    /// mesh flag, keeping it honest.
    fn add_y_sections(&mut self, y: u32)
        requires
            old(self).wf(),
        ensures
            final(self).wf(),
            final(self).position == old(self).position,
            final(self).terrain_generated == old(self).terrain_generated,
            final(self).sections@.len() == grown_len(old(self).sections@.len() as int, y as int),
            forall|i: int|
                0 <= i < old(self).sections@.len() ==> final(self).sections@[i] == old(self).sections@[i],
            forall|i: int|
                old(self).sections@.len() <= i < final(self).sections@.len() ==> {
                    &&& forall|j: int|
                        0 <= j < 4096 ==> (#[trigger] final(self).sections@[i].voxels@[j]).material
                            == VoxelType::Air
                    &&& !(#[trigger] final(self).sections@[i]).mesh_generated
                },
            final(self).mesh_calculated == (old(self).mesh_calculated && old(self).sections@.len() as int >= y as int / 16 + 1),
    {
        let index = y / CHUNK_LENGTH as u32;
        if self.sections.len() <= index as usize {
            self.mesh_calculated = false;
        }
        while self.sections.len() <= index as usize
            invariant
                self.wf(),
                self.position == old(self).position,
                self.terrain_generated == old(self).terrain_generated,
                index == y / 16,
                old(self).sections@.len() <= self.sections@.len(),
                self.sections@.len() <= grown_len(old(self).sections@.len() as int, y as int),
                forall|i: int|
                    0 <= i < old(self).sections@.len() ==> self.sections@[i] == old(self).sections@[i],
                forall|i: int|
                    old(self).sections@.len() <= i < self.sections@.len() ==> {
                        &&& forall|j: int|
                            0 <= j < 4096 ==> (#[trigger] self.sections@[i].voxels@[j]).material
                                == VoxelType::Air
                        &&& !(#[trigger] self.sections@[i]).mesh_generated
                    },
                self.mesh_calculated == (old(self).mesh_calculated && old(self).sections@.len() as int >= y as int / 16 + 1),
            decreases index as int + 1 - self.sections@.len(),
        {
            let l = self.sections.len();
            self.sections.push(ChunkSection::new((self.position.0, l as i32, self.position.1)));
        }
    }

    /// Writes one voxel at a chunk-local coordinate, lazily extending the
    /// section column upward, or reports `OutOfBounds` (unchanged chunk)
    /// when the footprint coordinate is outside `[0, 16)`.
    pub fn set_voxel(&mut self, position: (u32, u32, u32), material: VoxelType) -> (r: Result<
        (),
        TerrainFault,
    >)
        requires
            old(self).wf(),
        ensures
            final(self).wf(),
            match r {
                Ok(_) => {
                    &&& position.0 < 16 && position.2 < 16
                    &&& final(self).position == old(self).position
                    &&& final(self).terrain_generated == old(self).terrain_generated
                    &&& final(self).sections@.len() == grown_len(
                        old(self).sections@.len() as int,
                        position.1 as int,
                    )
                    &&& forall|a: int, b: int, c: int|
                        #[trigger] final(self).voxel_at(a, b, c) == if a == position.0 as int && b
                            == position.1 as int && c == position.2 as int {
                            material
                        } else {
                            old(self).voxel_at(a, b, c)
                        }
                    &&& final(self).mesh_calculated == (old(self).mesh_calculated && old(self).sections@.len() as int >= position.1 as int / 16 + 1)
                    &&& forall|i: int|
                        0 <= i < old(self).sections@.len() ==> {
                            &&& (#[trigger] final(self).sections@[i]).chunk_mesh == old(
                                self,
                            ).sections@[i].chunk_mesh
                            &&& final(self).sections@[i].mesh_generated == old(
                                self,
                            ).sections@[i].mesh_generated
                        }
                    &&& forall|i: int|
                        old(self).sections@.len() <= i < final(self).sections@.len() ==> !(
                        #[trigger] final(self).sections@[i]).mesh_generated
                },
                Err(f) => {
                    &&& f == TerrainFault::OutOfBounds
                    &&& !(position.0 < 16 && position.2 < 16)
                    &&& *final(self) == *old(self)
                },
            },
    {
        if !Self::in_bounds(position) {
            return Err(TerrainFault::OutOfBounds);
        }
        self.add_y_sections(position.1);
        let ghost mid = *self;
        let sec_index: usize = (position.1 / CHUNK_LENGTH as u32) as usize;
        let local_y = position.1 % CHUNK_LENGTH as u32;
        let section = &mut self.sections[sec_index];
        let res = section.set_voxel((position.0, local_y, position.2), material);
        proof {
            assert(res.is_ok());
            lemma_chunk_update(
                mid,
                *self,
                sec_index as int,
                position.0 as int,
                position.1 as int,
                position.2 as int,
                material,
            );
        }
        Ok(())
    }

    /// Fills one terrain column of the footprint: Grass at the surface
    /// height, Dirt from `max(height - 3, 0)` up to (excluding) the
    /// surface. The subtraction clamps at zero rather than underflowing
    /// when the surface is lower than the band depth.
    pub fn fill_column(&mut self, x: u32, z: u32, height: u32)
        requires
            old(self).wf(),
            x < 16,
            z < 16,
        ensures
            final(self).wf(),
            final(self).position == old(self).position,
            final(self).terrain_generated == old(self).terrain_generated,
            final(self).sections@.len() == grown_len(
                old(self).sections@.len() as int,
                height as int,
            ),
            forall|a: int, b: int, c: int|
                #[trigger] final(self).voxel_at(a, b, c) == if a == x as int && c == z as int
                    && column_written(height, b) {
                    column_material(height, b)
                } else {
                    old(self).voxel_at(a, b, c)
                },
            final(self).mesh_calculated == (old(self).mesh_calculated && old(self).sections@.len() as int >= height as int / 16 + 1),
            forall|i: int|
                0 <= i < old(self).sections@.len() ==> {
                    &&& (#[trigger] final(self).sections@[i]).chunk_mesh == old(
                        self,
                    ).sections@[i].chunk_mesh
                    &&& final(self).sections@[i].mesh_generated == old(
                        self,
                    ).sections@[i].mesh_generated
                },
            forall|i: int|
                old(self).sections@.len() <= i < final(self).sections@.len() ==> !(
                #[trigger] final(self).sections@[i]).mesh_generated,
    {
        let rg = self.set_voxel((x, height, z), VoxelType::Grass);
        proof {
            assert(rg.is_ok());
        }
        let floor_y: u32 = if height >= 3 {
            height - 3
        } else {
            0
        };
        let mut y: u32 = floor_y;
        while y < height
            invariant
                self.wf(),
                x < 16,
                z < 16,
                floor_y as int == dirt_floor(height),
                floor_y <= y <= height,
                self.position == old(self).position,
                self.terrain_generated == old(self).terrain_generated,
                self.sections@.len() == grown_len(old(self).sections@.len() as int, height as int),
                self.mesh_calculated == (old(self).mesh_calculated && old(self).sections@.len() as int >= height as int / 16 + 1),
                forall|i: int|
                    0 <= i < old(self).sections@.len() ==> {
                        &&& (#[trigger] self.sections@[i]).chunk_mesh == old(
                            self,
                        ).sections@[i].chunk_mesh
                        &&& self.sections@[i].mesh_generated == old(
                            self,
                        ).sections@[i].mesh_generated
                    },
                forall|i: int|
                    old(self).sections@.len() <= i < self.sections@.len() ==> !(
                    #[trigger] self.sections@[i]).mesh_generated,
                forall|a: int, b: int, c: int|
                    #[trigger] self.voxel_at(a, b, c) == if a == x as int && c == z as int && (b
                        == height as int || dirt_floor(height) <= b < y as int) {
                        column_material(height, b)
                    } else {
                        old(self).voxel_at(a, b, c)
                    },
            decreases height as int - y as int,
        {
            let ghost before = *self;
            let rd = self.set_voxel((x, y, z), VoxelType::Dirt);
            proof {
                assert(rd.is_ok());
                assert(y as int / 16 + 1 <= height as int / 16 + 1) by {
                    vstd::arithmetic::div_mod::lemma_div_is_ordered(y as int, height as int, 16);
                }
                assert(self.sections@.len() == grown_len(
                    old(self).sections@.len() as int,
                    height as int,
                ));
            }
            y += 1;
        }
    }

    /// Generates the chunk's terrain from a field of surface heights, one
    /// per footprint column in `x * 16 + z` order: every column gets its
    /// Grass surface and Dirt band. Voxel data changes, so the chunk-level
    /// mesh flag is withdrawn until the meshes are rebuilt.
    pub fn generate_voxels(&mut self, heights: &Vec<u32>)
        requires
            old(self).wf(),
            heights@.len() == 256,
        ensures
            final(self).wf(),
            final(self).position == old(self).position,
            final(self).terrain_generated,
            !final(self).mesh_calculated,
            final(self).sections@.len() == generated_len(
                heights@,
                old(self).sections@.len() as int,
                256,
            ),
            forall|a: int, b: int, c: int|
                #[trigger] final(self).voxel_at(a, b, c) == if 0 <= a < 16 && 0 <= c < 16
                    && column_written(heights@[a * 16 + c], b) {
                    column_material(heights@[a * 16 + c], b)
                } else {
                    old(self).voxel_at(a, b, c)
                },
            forall|i: int|
                0 <= i < old(self).sections@.len() ==> {
                    &&& (#[trigger] final(self).sections@[i]).chunk_mesh == old(
                        self,
                    ).sections@[i].chunk_mesh
                    &&& final(self).sections@[i].mesh_generated == old(
                        self,
                    ).sections@[i].mesh_generated
                },
            forall|i: int|
                old(self).sections@.len() <= i < final(self).sections@.len() ==> !(
                #[trigger] final(self).sections@[i]).mesh_generated,
    {
        self.mesh_calculated = false;
        let mut x: u32 = 0;
        while x < 16
            invariant
                self.wf(),
                heights@.len() == 256,
                x <= 16,
                self.position == old(self).position,
                self.terrain_generated == old(self).terrain_generated,
                !self.mesh_calculated,
                self.sections@.len() == generated_len(
                    heights@,
                    old(self).sections@.len() as int,
                    x as int * 16,
                ),
                old(self).sections@.len() <= self.sections@.len(),
                forall|a: int, b: int, c: int|
                    #[trigger] self.voxel_at(a, b, c) == if 0 <= a < 16 && 0 <= c < 16 && a * 16 + c
                        < x as int * 16 && column_written(heights@[a * 16 + c], b) {
                        column_material(heights@[a * 16 + c], b)
                    } else {
                        old(self).voxel_at(a, b, c)
                    },
                forall|i: int|
                    0 <= i < old(self).sections@.len() ==> {
                        &&& (#[trigger] self.sections@[i]).chunk_mesh == old(
                            self,
                        ).sections@[i].chunk_mesh
                        &&& self.sections@[i].mesh_generated == old(
                            self,
                        ).sections@[i].mesh_generated
                    },
                forall|i: int|
                    old(self).sections@.len() <= i < self.sections@.len() ==> !(
                    #[trigger] self.sections@[i]).mesh_generated,
            decreases 16 - x,
        {
            let mut z: u32 = 0;
            while z < 16
                invariant
                    self.wf(),
                    heights@.len() == 256,
                    x < 16,
                    z <= 16,
                    self.position == old(self).position,
                    self.terrain_generated == old(self).terrain_generated,
                    !self.mesh_calculated,
                    self.sections@.len() == generated_len(
                        heights@,
                        old(self).sections@.len() as int,
                        x as int * 16 + z as int,
                    ),
                    old(self).sections@.len() <= self.sections@.len(),
                    forall|a: int, b: int, c: int|
                        #[trigger] self.voxel_at(a, b, c) == if 0 <= a < 16 && 0 <= c < 16 && a * 16
                            + c < x as int * 16 + z as int && column_written(
                            heights@[a * 16 + c],
                            b,
                        ) {
                            column_material(heights@[a * 16 + c], b)
                        } else {
                            old(self).voxel_at(a, b, c)
                        },
                    forall|i: int|
                        0 <= i < old(self).sections@.len() ==> {
                            &&& (#[trigger] self.sections@[i]).chunk_mesh == old(
                                self,
                            ).sections@[i].chunk_mesh
                            &&& self.sections@[i].mesh_generated == old(
                                self,
                            ).sections@[i].mesh_generated
                        },
                    forall|i: int|
                        old(self).sections@.len() <= i < self.sections@.len() ==> !(
                        #[trigger] self.sections@[i]).mesh_generated,
                decreases 16 - z,
            {
                let ghost k = x as int * 16 + z as int;
                let ghost before = *self;
                let h = heights[(x * 16 + z) as usize];
                self.fill_column(x, z, h);
                proof {
                    assert(h == heights@[k]);
                    assert(generated_len(heights@, old(self).sections@.len() as int, k + 1)
                        == grown_len(
                        generated_len(heights@, old(self).sections@.len() as int, k),
                        heights@[k] as int,
                    ));
                    assert forall|a: int, b: int, c: int|
                        #[trigger] self.voxel_at(a, b, c) == if 0 <= a < 16 && 0 <= c < 16 && a * 16
                            + c < k + 1 && column_written(heights@[a * 16 + c], b) {
                            column_material(heights@[a * 16 + c], b)
                        } else {
                            old(self).voxel_at(a, b, c)
                        } by {
                        assert(self.voxel_at(a, b, c) == if a == x as int && c == z as int
                            && column_written(h, b) {
                            column_material(h, b)
                        } else {
                            before.voxel_at(a, b, c)
                        });
                        if 0 <= a < 16 && 0 <= c < 16 && a * 16 + c == k {
                            assert(a == x as int && c == z as int);
                        }
                    }
                }
                z += 1;
            }
            x += 1;
        }
        let ghost done = *self;
        self.terrain_generated = true;
        proof {
            assert forall|a: int, b: int, c: int|
                #[trigger] self.voxel_at(a, b, c) == if 0 <= a < 16 && 0 <= c < 16
                    && column_written(heights@[a * 16 + c], b) {
                    column_material(heights@[a * 16 + c], b)
                } else {
                    old(self).voxel_at(a, b, c)
                } by {
                assert(self.voxel_at(a, b, c) == done.voxel_at(a, b, c));
                if 0 <= a < 16 && 0 <= c < 16 {
                    assert(a * 16 + c < 256);
                }
            }
        }
    }

    /// Runs the mesher on every section not yet meshed and marks the whole
    /// chunk meshed. Calling this before terrain generation is reported as
    /// `NotYetGenerated`, but the meshes are still produced from whatever
    /// voxels are present (degraded rather than aborted).
    pub fn generate_chunk_meshes(&mut self) -> (r: Result<(), TerrainFault>)
        requires
            old(self).wf(),
        ensures
            final(self).wf(),
            final(self).position == old(self).position,
            final(self).terrain_generated == old(self).terrain_generated,
            final(self).mesh_calculated,
            final(self).sections@.len() == old(self).sections@.len(),
            forall|i: int|
                0 <= i < old(self).sections@.len() ==> {
                    let s0 = old(self).sections@[i];
                    let s1 = #[trigger] final(self).sections@[i];
                    &&& s1.voxels@ == s0.voxels@
                    &&& s1.position == s0.position
                    &&& s1.mesh_generated
                    &&& (s0.mesh_generated ==> s1 == s0)
                    &&& (!s0.mesh_generated ==> mesh_matches(
                        s1.chunk_mesh,
                        section_faces(s0.voxels@),
                        (s0.position.0 as int, s0.position.1 as int, s0.position.2 as int),
                    ))
                },
            r == if old(self).terrain_generated {
                Ok::<(), TerrainFault>(())
            } else {
                Err::<(), TerrainFault>(TerrainFault::NotYetGenerated)
            },
    {
        let generated = self.terrain_generated;
        let mut i: usize = 0;
        while i < self.sections.len()
            invariant
                self.sections@.len() == old(self).sections@.len(),
                i <= self.sections@.len(),
                self.position == old(self).position,
                self.terrain_generated == old(self).terrain_generated,
                self.mesh_calculated == old(self).mesh_calculated,
                self.sections@.len() <= 0x1000_0000,
                forall|j: int| 0 <= j < self.sections@.len() ==> (#[trigger] self.sections@[j]).wf(),
                forall|j: int|
                    0 <= j < self.sections@.len() ==> {
                        &&& (#[trigger] self.sections@[j]).position.0 == self.position.0
                        &&& self.sections@[j].position.1 as int == j
                        &&& self.sections@[j].position.2 == self.position.1
                    },
                forall|j: int|
                    i <= j < self.sections@.len() ==> self.sections@[j] == old(self).sections@[j],
                forall|j: int|
                    0 <= j < i ==> {
                        let s0 = old(self).sections@[j];
                        let s1 = #[trigger] self.sections@[j];
                        &&& s1.voxels@ == s0.voxels@
                        &&& s1.position == s0.position
                        &&& s1.mesh_generated
                        &&& (s0.mesh_generated ==> s1 == s0)
                        &&& (!s0.mesh_generated ==> mesh_matches(
                            s1.chunk_mesh,
                            section_faces(s0.voxels@),
                            (s0.position.0 as int, s0.position.1 as int, s0.position.2 as int),
                        ))
                    },
            decreases self.sections@.len() - i,
        {
            if !self.sections[i].mesh_generated {
                let section = &mut self.sections[i];
                section.generate_chunk_mesh();
            }
            i += 1;
        }
        self.mesh_calculated = true;
        if generated {
            Ok(())
        } else {
            Err(TerrainFault::NotYetGenerated)
        }
    }

    /// One renderable mesh-buffer payload per section, in vertical order:
    /// a copy of each section's buffers, ready to hand to a renderer.
    /// Whether meshing has completed is read off `is_mesh_calculated`;
    /// whatever buffers exist are returned either way.
    pub fn generate_bevy_meshes(&self) -> (r: Vec<ChunkMesh>)
        ensures
            r@.len() == self.sections@.len(),
            forall|i: int|
                0 <= i < self.sections@.len() ==> mesh_eq(
                    #[trigger] r@[i],
                    self.sections@[i].chunk_mesh,
                ),
    {
        let mut meshes: Vec<ChunkMesh> = Vec::new();
        let mut i: usize = 0;
        while i < self.sections.len()
            invariant
                i <= self.sections@.len(),
                meshes@.len() == i,
                forall|j: int|
                    0 <= j < i ==> mesh_eq(#[trigger] meshes@[j], self.sections@[j].chunk_mesh),
            decreases self.sections@.len() - i,
        {
            meshes.push(self.sections[i].chunk_mesh.clone_mesh());
            i += 1;
        }
        meshes
    }
}

/// For a surface height of at most two, the dirt band cannot underflow:
/// the clamp pins its floor at zero, so Dirt is written exactly at the
/// heights in `[0, h)` and no height below zero is touched.
pub proof fn lemma_low_surface_dirt(h: u32, y: int)
    requires
        h <= 2,
    ensures
        dirt_floor(h) == 0,
        (column_material(h, y) == VoxelType::Dirt) <==> (0 <= y < h),
{
}

/// After writing one voxel into the section that holds height `y`, the
/// chunk reads back the new material there and old materials everywhere
/// else.
proof fn lemma_chunk_update(
    pre: Chunk,
    post: Chunk,
    si: int,
    x: int,
    y: int,
    z: int,
    material: VoxelType,
)
    requires
        pre.wf(),
        0 <= x < 16,
        0 <= z < 16,
        0 <= y,
        si == y / 16,
        si < pre.sections@.len(),
        post.position == pre.position,
        post.terrain_generated == pre.terrain_generated,
        post.mesh_calculated == pre.mesh_calculated,
        post.sections@.len() == pre.sections@.len(),
        forall|i: int|
            0 <= i < pre.sections@.len() && i != si ==> post.sections@[i] == pre.sections@[i],
        post.sections@[si].position == pre.sections@[si].position,
        post.sections@[si].chunk_mesh == pre.sections@[si].chunk_mesh,
        post.sections@[si].mesh_generated == pre.sections@[si].mesh_generated,
        post.sections@[si].voxels@ == pre.sections@[si].voxels@.update(
            flat_index(x, y % 16, z),
            (Voxel { material }),
        ),
    ensures
        post.wf(),
        forall|a: int, b: int, c: int|
            #[trigger] post.voxel_at(a, b, c) == if a == x && b == y && c == z {
                material
            } else {
                pre.voxel_at(a, b, c)
            },
{
    assert(post.wf());
    assert forall|a: int, b: int, c: int|
        #[trigger] post.voxel_at(a, b, c) == if a == x && b == y && c == z {
            material
        } else {
            pre.voxel_at(a, b, c)
        } by {
        if 0 <= a < 16 && 0 <= c < 16 && 0 <= b {
            if b / 16 == si && b / 16 < post.sections@.len() {
                assert(post.sections@[b / 16].voxels@ == pre.sections@[si].voxels@.update(
                    flat_index(x, y % 16, z),
                    (Voxel { material }),
                ));
                if a == x && b == y && c == z {
                    assert(post.voxel_at(a, b, c) == material);
                } else {
                    if flat_index(a, b % 16, c) == flat_index(x, y % 16, z) {
                        assert(b % 16 == y % 16 && c == z && a == x);
                        assert(b == 16 * (b / 16) + b % 16);
                        assert(y == 16 * (y / 16) + y % 16);
                        assert(b == y);
                        assert(false);
                    }
                    assert(post.voxel_at(a, b, c) == pre.voxel_at(a, b, c));
                }
            } else {
                assert(post.voxel_at(a, b, c) == pre.voxel_at(a, b, c));
                assert(!(a == x && b == y && c == z));
            }
        }
    }
}

} // verus!
