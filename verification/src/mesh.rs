//! Surface extraction for one voxel section.
//!
//! The mesher walks every voxel of a `16 x 16 x 16` grid and, for each
//! solid voxel, emits one quad per axis direction whose neighbour is not a
//! solid voxel of the same section (face-occlusion culling). Faces on the
//! section boundary are always emitted: culling never looks across a
//! section or chunk border, a deliberate simplification that may leave
//! redundant seam geometry.
//!
//! Every emitted face contributes 4 vertices, 4 texture coordinates, 4
//! copies of the direction's unit normal, and 6 indices in the fixed
//! winding `(b, b+1, b+2, b+2, b+3, b)`. All geometry is integral: vertex
//! positions are voxel corners translated into world space, so the buffers
//! hold exact integers that a renderer may cast to floats.

use vstd::prelude::*;

use crate::voxel::{Voxel, VoxelType};

verus! {

/// One vertex position in world space (a voxel corner).
#[derive(Clone, Copy, PartialEq, Eq, Structural, Debug)]
pub struct Vertex {
    pub x: i64,
    pub y: i64,
    pub z: i64,
}

/// One texture coordinate; the per-face template only uses 0 and 1.
#[derive(Clone, Copy, PartialEq, Eq, Structural, Debug)]
pub struct TexCoord {
    pub u: u8,
    pub v: u8,
}

/// One vertex normal: an axis-aligned unit vector.
#[derive(Clone, Copy, PartialEq, Eq, Structural, Debug)]
pub struct Normal {
    pub x: i8,
    pub y: i8,
    pub z: i8,
}

/// Parallel buffers of one section's surface geometry, fully rebuilt (not
/// incrementally updated) whenever meshing runs.
pub struct ChunkMesh {
    pub vertices: Vec<Vertex>,
    pub uvs: Vec<TexCoord>,
    pub normals: Vec<Normal>,
    pub indices: Vec<u32>,
}

/// One emitted face, identified by the local voxel cell that owns it and
/// the axis direction it shows. Directions are numbered in emission order:
/// 0 front (+z), 1 back (-z), 2 right (+x), 3 left (-x), 4 top (+y),
/// 5 bottom (-y).
pub struct Face {
    pub x: int,
    pub y: int,
    pub z: int,
    pub dir: int,
}

/// The unit step from a voxel to its neighbour in direction `d`.
pub open spec fn dir_step(d: int) -> (int, int, int) {
    if d == 0 {
        (0, 0, 1)
    } else if d == 1 {
        (0, 0, -1)
    } else if d == 2 {
        (1, 0, 0)
    } else if d == 3 {
        (-1, 0, 0)
    } else if d == 4 {
        (0, 1, 0)
    } else {
        (0, -1, 0)
    }
}

/// Corner `k` of the quad template for direction `d`, as an offset from
/// the voxel's minimum corner.
pub open spec fn corner_offset(d: int, k: int) -> (int, int, int) {
    if d == 0 {
        if k == 0 { (0, 0, 1) } else if k == 1 { (1, 0, 1) } else if k == 2 { (1, 1, 1) } else { (0, 1, 1) }
    } else if d == 1 {
        if k == 0 { (1, 0, 0) } else if k == 1 { (0, 0, 0) } else if k == 2 { (0, 1, 0) } else { (1, 1, 0) }
    } else if d == 2 {
        if k == 0 { (1, 0, 1) } else if k == 1 { (1, 0, 0) } else if k == 2 { (1, 1, 0) } else { (1, 1, 1) }
    } else if d == 3 {
        if k == 0 { (0, 0, 0) } else if k == 1 { (0, 0, 1) } else if k == 2 { (0, 1, 1) } else { (0, 1, 0) }
    } else if d == 4 {
        if k == 0 { (0, 1, 1) } else if k == 1 { (1, 1, 1) } else if k == 2 { (1, 1, 0) } else { (0, 1, 0) }
    } else {
        if k == 0 { (0, 0, 0) } else if k == 1 { (1, 0, 0) } else if k == 2 { (1, 0, 1) } else { (0, 0, 1) }
    }
}

/// The fixed texture-coordinate template, shared by every direction.
pub open spec fn face_uv(k: int) -> TexCoord {
    TexCoord { u: if k == 0 { 0 } else { 1 }, v: if k <= 1 { 0 } else { 1 } }
}

/// The normal of a face: its direction's unit vector.
pub open spec fn face_normal(f: Face) -> Normal {
    let s = dir_step(f.dir);
    Normal { x: s.0 as i8, y: s.1 as i8, z: s.2 as i8 }
}

/// Corner `k` of face `f` in world space, for a section at position `p`
/// (measured in sections): local corner plus `p * 16` on each axis.
pub open spec fn face_vertex(f: Face, p: (int, int, int), k: int) -> Vertex {
    let c = corner_offset(f.dir, k);
    Vertex {
        x: (c.0 + f.x + p.0 * 16) as i64,
        y: (c.1 + f.y + p.1 * 16) as i64,
        z: (c.2 + f.z + p.2 * 16) as i64,
    }
}

/// Flat storage index of local cell `(x, y, z)`: `y` varies slowest to
/// match the vertical-slab storage unit.
pub open spec fn flat_index(x: int, y: int, z: int) -> int {
    y * 256 + z * 16 + x
}

/// Whether a local coordinate lies inside one section's own extent.
pub open spec fn in_local_bounds(x: int, y: int, z: int) -> bool {
    0 <= x < 16 && 0 <= y < 16 && 0 <= z < 16
}

/// The material of the voxel stored at local cell `(x, y, z)`.
pub open spec fn material_at(vox: Seq<Voxel>, x: int, y: int, z: int) -> VoxelType {
    vox[flat_index(x, y, z)].material
}

/// A face of the voxel at `(x, y, z)` in direction `d` is emitted exactly
/// when its neighbour is not a solid voxel of this same section: either
/// the neighbour cell is Air, or it lies outside the section's own bounds
/// (a section or chunk boundary, never culled against the real neighbour).
pub open spec fn face_visible(vox: Seq<Voxel>, x: int, y: int, z: int, d: int) -> bool {
    let s = dir_step(d);
    let nx = x + s.0;
    let ny = y + s.1;
    let nz = z + s.2;
    !(in_local_bounds(nx, ny, nz) && material_at(vox, nx, ny, nz) != VoxelType::Air)
}

/// The faces the voxel at `(x, y, z)` emits for directions below `d`, in
/// emission order.
pub open spec fn voxel_faces(vox: Seq<Voxel>, x: int, y: int, z: int, d: int) -> Seq<Face>
    decreases d,
{
    if d <= 0 {
        Seq::empty()
    } else {
        voxel_faces(vox, x, y, z, d - 1) + (if face_visible(vox, x, y, z, d - 1) {
            seq![Face { x, y, z, dir: d - 1 }]
        } else {
            Seq::empty()
        })
    }
}

/// The faces the voxel stored at flat index `i` emits: none for Air, else
/// its visible faces over all six directions.
pub open spec fn cell_faces(vox: Seq<Voxel>, i: int) -> Seq<Face> {
    if vox[i].material == VoxelType::Air {
        Seq::empty()
    } else {
        voxel_faces(vox, i % 16, i / 256, (i / 16) % 16, 6)
    }
}

/// The faces emitted by the voxels at flat indices below `n`, in sweep
/// order (the sweep runs over the flat index, so `y` varies slowest).
pub open spec fn faces_upto(vox: Seq<Voxel>, n: int) -> Seq<Face>
    decreases n,
{
    if n <= 0 {
        Seq::empty()
    } else {
        faces_upto(vox, n - 1) + cell_faces(vox, n - 1)
    }
}

/// Every face of one whole section, in emission order.
pub open spec fn section_faces(vox: Seq<Voxel>) -> Seq<Face> {
    faces_upto(vox, 4096)
}

/// The buffer entries face number `j` contributes: 4 vertices from the
/// direction's corner template, the fixed texture template, 4 copies of
/// the direction's normal, and the winding `(b, b+1, b+2, b+2, b+3, b)`
/// for base vertex index `b == 4 * j`.
pub open spec fn face_block(m: ChunkMesh, f: Face, p: (int, int, int), j: int) -> bool {
    &&& m.vertices@[4 * j] == face_vertex(f, p, 0)
    &&& m.vertices@[4 * j + 1] == face_vertex(f, p, 1)
    &&& m.vertices@[4 * j + 2] == face_vertex(f, p, 2)
    &&& m.vertices@[4 * j + 3] == face_vertex(f, p, 3)
    &&& m.uvs@[4 * j] == face_uv(0)
    &&& m.uvs@[4 * j + 1] == face_uv(1)
    &&& m.uvs@[4 * j + 2] == face_uv(2)
    &&& m.uvs@[4 * j + 3] == face_uv(3)
    &&& m.normals@[4 * j] == face_normal(f)
    &&& m.normals@[4 * j + 1] == face_normal(f)
    &&& m.normals@[4 * j + 2] == face_normal(f)
    &&& m.normals@[4 * j + 3] == face_normal(f)
    &&& m.indices@[6 * j] == 4 * j
    &&& m.indices@[6 * j + 1] == 4 * j + 1
    &&& m.indices@[6 * j + 2] == 4 * j + 2
    &&& m.indices@[6 * j + 3] == 4 * j + 2
    &&& m.indices@[6 * j + 4] == 4 * j + 3
    &&& m.indices@[6 * j + 5] == 4 * j
}

/// The mesh buffers hold exactly the geometry of the face sequence `fs`
/// for a section at position `p`: for `N` faces the vertex, texture and
/// normal buffers have length `4 * N`, the index buffer has length
/// `6 * N`, and face `j` fills its block of entries from the templates.
pub open spec fn mesh_matches(m: ChunkMesh, fs: Seq<Face>, p: (int, int, int)) -> bool {
    &&& m.vertices@.len() == 4 * fs.len()
    &&& m.uvs@.len() == 4 * fs.len()
    &&& m.normals@.len() == 4 * fs.len()
    &&& m.indices@.len() == 6 * fs.len()
    &&& forall|j: int| 0 <= j < fs.len() ==> face_block(m, #[trigger] fs[j], p, j)
}

/// Two mesh buffers hold the same geometry, entry for entry.
pub open spec fn mesh_eq(a: ChunkMesh, b: ChunkMesh) -> bool {
    &&& a.vertices@ == b.vertices@
    &&& a.uvs@ == b.uvs@
    &&& a.normals@ == b.normals@
    &&& a.indices@ == b.indices@
}

impl ChunkMesh {
    /// An empty mesh buffer.
    pub fn new() -> (m: ChunkMesh)
        ensures
            m.vertices@.len() == 0,
            m.uvs@.len() == 0,
            m.normals@.len() == 0,
            m.indices@.len() == 0,
    {
        ChunkMesh { vertices: Vec::new(), uvs: Vec::new(), normals: Vec::new(), indices: Vec::new() }
    }

    /// An element-for-element copy of this mesh buffer.
    pub fn clone_mesh(&self) -> (m: ChunkMesh)
        ensures
            m.vertices@ == self.vertices@,
            m.uvs@ == self.uvs@,
            m.normals@ == self.normals@,
            m.indices@ == self.indices@,
    {
        ChunkMesh {
            vertices: copy_elements(&self.vertices),
            uvs: copy_elements(&self.uvs),
            normals: copy_elements(&self.normals),
            indices: copy_elements(&self.indices),
        }
    }
}

/// Copies a vector of plain values element by element.
fn copy_elements<T: Copy>(v: &Vec<T>) -> (r: Vec<T>)
    ensures
        r@ == v@,
{
    let mut r: Vec<T> = Vec::new();
    let mut i: usize = 0;
    while i < v.len()
        invariant
            i <= v@.len(),
            r@ == v@.subrange(0, i as int),
        decreases v@.len() - i,
    {
        r.push(v[i]);
        i += 1;
    }
    proof {
        assert(r@ =~= v@);
    }
    r
}

/// Builds one section's mesh buffers by sweeping the voxel grid in flat
/// index order and appending each visible face.
pub(crate) struct ChunkBuilder {
    pub(crate) mesh: ChunkMesh,
    pub(crate) index_count: u32,
    pub(crate) position: (i32, i32, i32),
    pub(crate) faces: Ghost<Seq<Face>>,
}

impl ChunkBuilder {
    /// The section position as mathematical integers.
    pub(crate) open spec fn pos_view(self) -> (int, int, int) {
        (self.position.0 as int, self.position.1 as int, self.position.2 as int)
    }

    /// The buffers always hold exactly the faces recorded so far, and the
    /// running vertex-index counter is 4 per face.
    pub(crate) open spec fn wf(self) -> bool {
        &&& mesh_matches(self.mesh, self.faces@, self.pos_view())
        &&& self.index_count == 4 * self.faces@.len()
    }

    /// Converts one whole voxel grid into its surface mesh.
    pub(crate) fn build(voxels: &Vec<Voxel>, position: (i32, i32, i32)) -> (m: ChunkMesh)
        requires
            voxels@.len() == 4096,
        ensures
            mesh_matches(
                m,
                section_faces(voxels@),
                (position.0 as int, position.1 as int, position.2 as int),
            ),
    {
        let mut b = ChunkBuilder {
            mesh: ChunkMesh::new(),
            index_count: 0,
            position,
            faces: Ghost(Seq::empty()),
        };
        proof {
            assert(faces_upto(voxels@, 0) =~= Seq::<Face>::empty());
        }
        let mut i: usize = 0;
        while i < 4096
            invariant
                voxels@.len() == 4096,
                i <= 4096,
                b.wf(),
                b.position == position,
                b.faces@ == faces_upto(voxels@, i as int),
                b.faces@.len() <= 6 * i,
            decreases 4096 - i,
        {
            if voxels[i].material != VoxelType::Air {
                let bx = i % 16;
                let by = i / 256;
                let bz = (i / 16) % 16;
                b.add_voxel_faces(voxels, bx, by, bz);
                proof {
                    lemma_voxel_faces_len(voxels@, bx as int, by as int, bz as int, 6);
                    assert(b.faces@ =~= faces_upto(voxels@, i as int) + cell_faces(voxels@, i as int));
                    assert(b.faces@ =~= faces_upto(voxels@, i as int + 1));
                }
            } else {
                proof {
                    assert(cell_faces(voxels@, i as int) =~= Seq::<Face>::empty());
                    assert(b.faces@ =~= faces_upto(voxels@, i as int + 1));
                }
            }
            i += 1;
        }
        b.mesh
    }

    /// Appends every visible face of one solid voxel, in direction order.
    fn add_voxel_faces(&mut self, voxels: &Vec<Voxel>, bx: usize, by: usize, bz: usize)
        requires
            old(self).wf(),
            voxels@.len() == 4096,
            bx < 16,
            by < 16,
            bz < 16,
            old(self).faces@.len() + 6 <= 24576,
        ensures
            final(self).wf(),
            final(self).position == old(self).position,
            final(self).faces@ == old(self).faces@ + voxel_faces(
                voxels@,
                bx as int,
                by as int,
                bz as int,
                6,
            ),
    {
        let ghost v = voxels@;
        let ghost x = bx as int;
        let ghost y = by as int;
        let ghost z = bz as int;
        let ghost start = self.faces@;
        proof {
            assert(voxel_faces(v, x, y, z, 0) =~= Seq::<Face>::empty());
            assert(start + voxel_faces(v, x, y, z, 0) =~= start);
        }
        let mut dir: usize = 0;
        while dir < 6
            invariant
                self.wf(),
                self.position == old(self).position,
                voxels@ == v,
                voxels@.len() == 4096,
                bx == x, by == y, bz == z,
                bx < 16, by < 16, bz < 16,
                dir <= 6,
                start.len() + 6 <= 24576,
                self.faces@ == start + voxel_faces(v, x, y, z, dir as int),
            decreases 6 - dir,
        {
            proof {
                lemma_voxel_faces_len(v, x, y, z, dir as int);
            }
            self.try_add_face(voxels, dir, bx, by, bz);
            proof {
                let d = dir as int;
                assert(voxel_faces(v, x, y, z, d + 1) =~= voxel_faces(v, x, y, z, d) + (
                if face_visible(v, x, y, z, d) {
                    seq![Face { x, y, z, dir: d }]
                } else {
                    Seq::<Face>::empty()
                }));
                assert(self.faces@ =~= start + voxel_faces(v, x, y, z, d + 1));
            }
            dir += 1;
        }
    }

    /// Emits the face of one voxel in one direction unless a solid
    /// neighbour inside the same section occludes it.
    fn try_add_face(&mut self, voxels: &Vec<Voxel>, dir: usize, bx: usize, by: usize, bz: usize)
        requires
            old(self).wf(),
            voxels@.len() == 4096,
            dir < 6,
            bx < 16,
            by < 16,
            bz < 16,
            old(self).faces@.len() < 24576,
        ensures
            final(self).wf(),
            final(self).position == old(self).position,
            final(self).faces@ == if face_visible(
                voxels@,
                bx as int,
                by as int,
                bz as int,
                dir as int,
            ) {
                old(self).faces@.push(
                    (Face { x: bx as int, y: by as int, z: bz as int, dir: dir as int }),
                )
            } else {
                old(self).faces@
            },
    {
        let visible = neighbor_visible(voxels, dir, bx, by, bz);
        if visible {
            let ghost f = Face { x: bx as int, y: by as int, z: bz as int, dir: dir as int };
            let ghost p = self.pos_view();
            let ghost l = self.faces@.len() as int;
            let base = self.index_count;
            let wx = bx as i64 + (self.position.0 as i64) * 16;
            let wy = by as i64 + (self.position.1 as i64) * 16;
            let wz = bz as i64 + (self.position.2 as i64) * 16;
            let nrm = normal_exec(dir);
            let c0 = corner_exec(dir, 0);
            let c1 = corner_exec(dir, 1);
            let c2 = corner_exec(dir, 2);
            let c3 = corner_exec(dir, 3);
            self.mesh.vertices.push(Vertex { x: wx + c0.0 as i64, y: wy + c0.1 as i64, z: wz + c0.2 as i64 });
            self.mesh.vertices.push(Vertex { x: wx + c1.0 as i64, y: wy + c1.1 as i64, z: wz + c1.2 as i64 });
            self.mesh.vertices.push(Vertex { x: wx + c2.0 as i64, y: wy + c2.1 as i64, z: wz + c2.2 as i64 });
            self.mesh.vertices.push(Vertex { x: wx + c3.0 as i64, y: wy + c3.1 as i64, z: wz + c3.2 as i64 });
            self.mesh.uvs.push(TexCoord { u: 0, v: 0 });
            self.mesh.uvs.push(TexCoord { u: 1, v: 0 });
            self.mesh.uvs.push(TexCoord { u: 1, v: 1 });
            self.mesh.uvs.push(TexCoord { u: 1, v: 1 });
            self.mesh.normals.push(nrm);
            self.mesh.normals.push(nrm);
            self.mesh.normals.push(nrm);
            self.mesh.normals.push(nrm);
            self.mesh.indices.push(base);
            self.mesh.indices.push(base + 1);
            self.mesh.indices.push(base + 2);
            self.mesh.indices.push(base + 2);
            self.mesh.indices.push(base + 3);
            self.mesh.indices.push(base);
            self.index_count = base + 4;
            self.faces = Ghost(self.faces@.push(f));
            proof {
                let fs0 = old(self).faces@;
                let fs1 = self.faces@;
                assert(fs1 == fs0.push(f));
                assert(face_vertex(f, p, 0) == self.mesh.vertices@[4 * l]);
                assert(face_vertex(f, p, 1) == self.mesh.vertices@[4 * l + 1]);
                assert(face_vertex(f, p, 2) == self.mesh.vertices@[4 * l + 2]);
                assert(face_vertex(f, p, 3) == self.mesh.vertices@[4 * l + 3]);
                assert(face_normal(f) == nrm);
                assert forall|j: int| 0 <= j < fs1.len() implies face_block(
                    self.mesh,
                    #[trigger] fs1[j],
                    p,
                    j,
                ) by {
                    if j < l {
                        assert(face_block(old(self).mesh, fs0[j], p, j));
                        assert(fs1[j] == fs0[j]);
                    } else {
                        assert(fs1[j] == f);
                    }
                }
            }
        }
    }
}

/// Whether the face of voxel `(bx, by, bz)` in direction `dir` is
/// unoccluded: its neighbour is outside the section or holds Air.
fn neighbor_visible(voxels: &Vec<Voxel>, dir: usize, bx: usize, by: usize, bz: usize) -> (r: bool)
    requires
        voxels@.len() == 4096,
        dir < 6,
        bx < 16,
        by < 16,
        bz < 16,
    ensures
        r == face_visible(voxels@, bx as int, by as int, bz as int, dir as int),
{
    let s = dir_step_exec(dir);
    let nx = bx as i32 + s.0;
    let ny = by as i32 + s.1;
    let nz = bz as i32 + s.2;
    if 0 <= nx && nx < 16 && 0 <= ny && ny < 16 && 0 <= nz && nz < 16 {
        let idx = (ny as usize) * 256 + (nz as usize) * 16 + nx as usize;
        voxels[idx].material == VoxelType::Air
    } else {
        true
    }
}

/// The unit step of direction `dir`, as machine integers.
fn dir_step_exec(dir: usize) -> (s: (i32, i32, i32))
    requires
        dir < 6,
    ensures
        (s.0 as int, s.1 as int, s.2 as int) == dir_step(dir as int),
{
    match dir {
        0 => (0, 0, 1),
        1 => (0, 0, -1),
        2 => (1, 0, 0),
        3 => (-1, 0, 0),
        4 => (0, 1, 0),
        _ => (0, -1, 0),
    }
}

/// The direction's unit normal, as buffer entries.
fn normal_exec(dir: usize) -> (n: Normal)
    requires
        dir < 6,
    ensures
        forall|f: Face| f.dir == dir ==> face_normal(f) == n,
{
    let s = dir_step_exec(dir);
    Normal { x: s.0 as i8, y: s.1 as i8, z: s.2 as i8 }
}

/// Corner `k` of the quad template for direction `dir`.
fn corner_exec(dir: usize, k: usize) -> (c: (u8, u8, u8))
    requires
        dir < 6,
        k < 4,
    ensures
        (c.0 as int, c.1 as int, c.2 as int) == corner_offset(dir as int, k as int),
{
    match (dir, k) {
        (0, 0) => (0, 0, 1),
        (0, 1) => (1, 0, 1),
        (0, 2) => (1, 1, 1),
        (0, _) => (0, 1, 1),
        (1, 0) => (1, 0, 0),
        (1, 1) => (0, 0, 0),
        (1, 2) => (0, 1, 0),
        (1, _) => (1, 1, 0),
        (2, 0) => (1, 0, 1),
        (2, 1) => (1, 0, 0),
        (2, 2) => (1, 1, 0),
        (2, _) => (1, 1, 1),
        (3, 0) => (0, 0, 0),
        (3, 1) => (0, 0, 1),
        (3, 2) => (0, 1, 1),
        (3, _) => (0, 1, 0),
        (4, 0) => (0, 1, 1),
        (4, 1) => (1, 1, 1),
        (4, 2) => (1, 1, 0),
        (4, _) => (0, 1, 0),
        (5, 0) => (0, 0, 0),
        (5, 1) => (1, 0, 0),
        (5, 2) => (1, 0, 1),
        _ => (0, 0, 1),
    }
}

/// A voxel emits at most one face per direction.
pub proof fn lemma_voxel_faces_len(vox: Seq<Voxel>, x: int, y: int, z: int, d: int)
    ensures
        voxel_faces(vox, x, y, z, d).len() <= if d >= 0 { d } else { 0 },
    decreases d,
{
    if d > 0 {
        lemma_voxel_faces_len(vox, x, y, z, d - 1);
    }
}

/// The voxels at flat indices below `n` of an all-Air grid emit nothing.
proof fn lemma_all_air_upto(vox: Seq<Voxel>, n: int)
    requires
        forall|i: int| 0 <= i < vox.len() ==> (#[trigger] vox[i]).material == VoxelType::Air,
        0 <= n <= vox.len(),
    ensures
        faces_upto(vox, n).len() == 0,
    decreases n,
{
    if n > 0 {
        lemma_all_air_upto(vox, n - 1);
        assert(cell_faces(vox, n - 1) =~= Seq::<Face>::empty());
    }
}

/// A section with every voxel Air produces an empty mesh: no face is
/// emitted, so all four buffers of a matching mesh are empty.
pub proof fn lemma_empty_section_empty_mesh(vox: Seq<Voxel>)
    requires
        vox.len() == 4096,
        forall|i: int| 0 <= i < vox.len() ==> (#[trigger] vox[i]).material == VoxelType::Air,
    ensures
        section_faces(vox).len() == 0,
{
    lemma_all_air_upto(vox, 4096);
}

/// A solid voxel whose six neighbours all lie inside the section and are
/// all solid is fully occluded: it emits no face at all.
pub proof fn lemma_occluded_voxel_no_faces(vox: Seq<Voxel>, x: int, y: int, z: int)
    requires
        forall|d: int| 0 <= d < 6 ==> !face_visible(vox, x, y, z, d),
    ensures
        voxel_faces(vox, x, y, z, 6).len() == 0,
{
    assert(voxel_faces(vox, x, y, z, 0) =~= Seq::<Face>::empty());
    assert(voxel_faces(vox, x, y, z, 1) =~= voxel_faces(vox, x, y, z, 0));
    assert(voxel_faces(vox, x, y, z, 2) =~= voxel_faces(vox, x, y, z, 1));
    assert(voxel_faces(vox, x, y, z, 3) =~= voxel_faces(vox, x, y, z, 2));
    assert(voxel_faces(vox, x, y, z, 4) =~= voxel_faces(vox, x, y, z, 3));
    assert(voxel_faces(vox, x, y, z, 5) =~= voxel_faces(vox, x, y, z, 4));
    assert(voxel_faces(vox, x, y, z, 6) =~= voxel_faces(vox, x, y, z, 5));
}

/// A voxel with exactly one unoccluded direction emits exactly one face,
/// oriented toward that direction.
pub proof fn lemma_single_open_direction_one_face(
    vox: Seq<Voxel>,
    x: int,
    y: int,
    z: int,
    d0: int,
)
    requires
        0 <= d0 < 6,
        face_visible(vox, x, y, z, d0),
        forall|d: int| 0 <= d < 6 && d != d0 ==> !face_visible(vox, x, y, z, d),
    ensures
        voxel_faces(vox, x, y, z, 6) =~= seq![Face { x, y, z, dir: d0 }],
{
    lemma_voxel_faces_prefix(vox, x, y, z, d0, 6);
}

/// Helper for the single-face law: below the open direction nothing has
/// been emitted; from it on, exactly its one face has.
proof fn lemma_voxel_faces_prefix(vox: Seq<Voxel>, x: int, y: int, z: int, d0: int, d: int)
    requires
        0 <= d0 < 6,
        face_visible(vox, x, y, z, d0),
        forall|e: int| 0 <= e < 6 && e != d0 ==> !face_visible(vox, x, y, z, e),
        0 <= d <= 6,
    ensures
        voxel_faces(vox, x, y, z, d) =~= if d0 < d {
            seq![Face { x, y, z, dir: d0 }]
        } else {
            Seq::<Face>::empty()
        },
    decreases d,
{
    if d == 0 {
        assert(voxel_faces(vox, x, y, z, 0) =~= Seq::<Face>::empty());
    } else {
        lemma_voxel_faces_prefix(vox, x, y, z, d0, d - 1);
        assert(voxel_faces(vox, x, y, z, d) =~= voxel_faces(vox, x, y, z, d - 1) + (
        if face_visible(vox, x, y, z, d - 1) {
            seq![Face { x, y, z, dir: d - 1 }]
        } else {
            Seq::<Face>::empty()
        }));
    }
}

/// For `N` emitted faces the index buffer has length `6 * N` and the
/// vertex buffer length `4 * N`, and face `j`'s six indices follow the
/// winding `(b, b+1, b+2, b+2, b+3, b)` for base `b == 4 * j`.
pub proof fn lemma_mesh_buffer_shape(m: ChunkMesh, fs: Seq<Face>, p: (int, int, int))
    requires
        mesh_matches(m, fs, p),
    ensures
        m.vertices@.len() == 4 * fs.len(),
        m.uvs@.len() == 4 * fs.len(),
        m.normals@.len() == 4 * fs.len(),
        m.indices@.len() == 6 * fs.len(),
        forall|j: int| 0 <= j < fs.len() ==> {
            &&& #[trigger] m.indices@[6 * j] == 4 * j
            &&& m.indices@[6 * j + 1] == 4 * j + 1
            &&& m.indices@[6 * j + 2] == 4 * j + 2
            &&& m.indices@[6 * j + 3] == 4 * j + 2
            &&& m.indices@[6 * j + 4] == 4 * j + 3
            &&& m.indices@[6 * j + 5] == 4 * j
        },
{
    assert forall|j: int| 0 <= j < fs.len() implies {
        &&& #[trigger] m.indices@[6 * j] == 4 * j
        &&& m.indices@[6 * j + 1] == 4 * j + 1
        &&& m.indices@[6 * j + 2] == 4 * j + 2
        &&& m.indices@[6 * j + 3] == 4 * j + 2
        &&& m.indices@[6 * j + 4] == 4 * j + 3
        &&& m.indices@[6 * j + 5] == 4 * j
    } by {
        assert(face_block(m, fs[j], p, j));
    }
}

} // verus!
