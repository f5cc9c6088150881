//! Mesh construction: which faces of a chunk's voxels are emitted, and the
//! two geometry lists that they make.

use vstd::prelude::*;
use crate::block::{spec_look, spec_material, spec_resolve, Block, BlockMaterial, AIR};
use crate::chunk::Chunk;
use crate::chunk_mesh::{indices_local, ChunkMesh, MeshView};
use crate::faces::{
    count_set, lemma_count_bound, lemma_face_indices_in_range, lemma_face_lengths,
    spec_face_indices, spec_face_vertices,
};
use crate::vertex::Vertex;
use crate::voxels::{
    block_or_air, lemma_index_of_coordinates, shows_face, spec_back_id, spec_bottom_id,
    spec_front_id, spec_hidden, spec_left_id, spec_right_id, spec_top_id, spec_x, spec_y, spec_z,
    SIZE,
};

verus! {

/// The voxels that decide a chunk's mesh: its own and the four snapshots.
pub ghost struct Surround {
    pub blocks: Seq<u8>,
    pub left: Seq<u8>,
    pub right: Seq<u8>,
    pub front: Seq<u8>,
    pub back: Seq<u8>,
}

/// Id of the neighbour of the voxel at `index` across face `face` (mesh
/// order: 0 towards -z, 1 towards +z, 2 towards -x, 3 towards +x, 4 up,
/// 5 down).
pub open spec fn spec_neighbour_id(s: Surround, index: int, face: int) -> u8 {
    if face == 0 {
        spec_front_id(s.blocks, s.front, index)
    } else if face == 1 {
        spec_back_id(s.blocks, s.back, index)
    } else if face == 2 {
        spec_left_id(s.blocks, s.left, index)
    } else if face == 3 {
        spec_right_id(s.blocks, s.right, index)
    } else if face == 4 {
        spec_top_id(s.blocks, index)
    } else {
        spec_bottom_id(s.blocks, index)
    }
}

/// Whether face `face` of the voxel at `index` is visible: its neighbour
/// across that face does not hide it.
pub open spec fn spec_visible(s: Surround, index: int, face: int) -> bool {
    !spec_hidden(s.blocks[index], spec_neighbour_id(s, index, face))
}

/// The six visibility flags of the voxel at `index`, in mesh face order.
pub open spec fn spec_flags(s: Surround, index: int) -> Seq<bool> {
    Seq::new(6, |face: int| spec_visible(s, index, face))
}

/// Whether a voxel with id `id` is drawn in the pass of `material`: it is
/// not air and is of that material.
pub open spec fn spec_drawn(id: u8, material: BlockMaterial) -> bool {
    spec_resolve(id) != AIR && spec_material(spec_resolve(id)) == material
}

/// Whether face `face` of the voxel at `index` is emitted into the pass of
/// `material`.
pub open spec fn spec_emitted(s: Surround, index: int, face: int, material: BlockMaterial) -> bool {
    spec_drawn(s.blocks[index], material) && spec_visible(s, index, face)
}

/// Number of faces that the first `n` voxels emit into the pass of
/// `material`.
pub open spec fn spec_mesh_faces(s: Surround, material: BlockMaterial, n: nat) -> nat
    decreases n,
{
    if n == 0 {
        0
    } else {
        let before = spec_mesh_faces(s, material, (n - 1) as nat);
        if spec_drawn(s.blocks[n - 1], material) {
            before + count_set(spec_flags(s, n - 1), 6)
        } else {
            before
        }
    }
}

/// Vertices that the first `n` voxels emit into the pass of `material`, for
/// a chunk whose first voxel is at world position `origin`: in voxel order,
/// the quads of each drawn voxel's visible faces.
pub open spec fn spec_mesh_vertices(s: Surround, origin: (int, int), material: BlockMaterial, n: nat) -> Seq<Vertex>
    decreases n,
{
    if n == 0 {
        Seq::empty()
    } else {
        let i = n - 1;
        let before = spec_mesh_vertices(s, origin, material, i as nat);
        if spec_drawn(s.blocks[i], material) {
            before + spec_face_vertices(
                spec_look(spec_resolve(s.blocks[i])),
                spec_x(i) + origin.0,
                spec_y(i),
                spec_z(i) + origin.1,
                spec_flags(s, i),
                6,
            )
        } else {
            before
        }
    }
}

/// Indices that the first `n` voxels emit into the pass of `material`: each
/// quad indexes the four vertices that it added to the same pass.
pub open spec fn spec_mesh_indices(s: Surround, material: BlockMaterial, n: nat) -> Seq<u32>
    decreases n,
{
    if n == 0 {
        Seq::empty()
    } else {
        let i = n - 1;
        let before = spec_mesh_indices(s, material, i as nat);
        if spec_drawn(s.blocks[i], material) {
            before + spec_face_indices(
                spec_flags(s, i),
                4 * (spec_mesh_faces(s, material, i as nat) as int),
                6,
            )
        } else {
            before
        }
    }
}

/// The mesh of a chunk.
pub open spec fn spec_mesh(s: Surround, origin: (int, int)) -> MeshView {
    MeshView {
        vertices: spec_mesh_vertices(s, origin, BlockMaterial::Solid, SIZE as nat),
        indices: spec_mesh_indices(s, BlockMaterial::Solid, SIZE as nat),
        alpha_vertices: spec_mesh_vertices(s, origin, BlockMaterial::Transparent, SIZE as nat),
        alpha_indices: spec_mesh_indices(s, BlockMaterial::Transparent, SIZE as nat),
    }
}

/// A pass holds four vertices and six indices for each emitted face, and a
/// voxel emits at most six faces.
pub proof fn lemma_mesh_lengths(s: Surround, origin: (int, int), material: BlockMaterial, n: nat)
    ensures
        spec_mesh_vertices(s, origin, material, n).len() == 4 * spec_mesh_faces(s, material, n),
        spec_mesh_indices(s, material, n).len() == 6 * spec_mesh_faces(s, material, n),
        spec_mesh_faces(s, material, n) <= 6 * n,
    decreases n,
{
    if n > 0 {
        let i = (n - 1) as nat;
        lemma_mesh_lengths(s, origin, material, i);
        lemma_face_lengths(
            spec_look(spec_resolve(s.blocks[i as int])),
            spec_x(i as int) + origin.0,
            spec_y(i as int),
            spec_z(i as int) + origin.1,
            spec_flags(s, i as int),
            4 * (spec_mesh_faces(s, material, i) as int),
            6,
        );
    }
}

/// Index locality of one pass: every index that the first `n` voxels emit
/// names a vertex that the same voxels emitted into the same pass.
pub proof fn lemma_mesh_indices_local(s: Surround, origin: (int, int), material: BlockMaterial, n: nat)
    requires
        n <= SIZE,
    ensures
        indices_local(
            spec_mesh_indices(s, material, n),
            spec_mesh_vertices(s, origin, material, n).len(),
        ),
    decreases n,
{
    lemma_mesh_lengths(s, origin, material, n);
    if n > 0 {
        let i = (n - 1) as nat;
        lemma_mesh_indices_local(s, origin, material, i);
        lemma_mesh_lengths(s, origin, material, i);
        let before = spec_mesh_indices(s, material, i);
        let offset = 4 * (spec_mesh_faces(s, material, i) as int);
        let flags = spec_flags(s, i as int);
        lemma_count_bound(flags, 6);
        assert forall|k: int| 0 <= k < spec_mesh_indices(s, material, n).len() implies #[trigger] spec_mesh_indices(
            s,
            material,
            n,
        )[k] < 4 * spec_mesh_faces(s, material, n) by {
            if k >= before.len() && spec_drawn(s.blocks[i as int], material) {
                lemma_face_indices_in_range(flags, offset as int, 6, k - before.len());
            }
        }
    }
}

/// The mesh of a chunk is index-local.
pub proof fn lemma_mesh_wf(s: Surround, origin: (int, int))
    ensures
        spec_mesh(s, origin).wf(),
{
    lemma_mesh_indices_local(s, origin, BlockMaterial::Solid, SIZE as nat);
    lemma_mesh_indices_local(s, origin, BlockMaterial::Transparent, SIZE as nat);
    lemma_mesh_lengths(s, origin, BlockMaterial::Solid, SIZE as nat);
    lemma_mesh_lengths(s, origin, BlockMaterial::Transparent, SIZE as nat);
}

/// The face on the other side of `face`.
pub open spec fn spec_opposite(face: int) -> int {
    if face == 0 {
        1
    } else if face == 1 {
        0
    } else if face == 2 {
        3
    } else if face == 3 {
        2
    } else if face == 4 {
        5
    } else {
        4
    }
}

/// Position of the voxel that lies across face `face` of the voxel at
/// `index`, where that voxel is in the same chunk.
pub open spec fn spec_adjacent(index: int, face: int) -> Option<int> {
    if face == 0 {
        if spec_z(index) > 0 { Some(index - 16) } else { None }
    } else if face == 1 {
        if spec_z(index) < 15 { Some(index + 16) } else { None }
    } else if face == 2 {
        if spec_x(index) > 0 { Some(index - 1) } else { None }
    } else if face == 3 {
        if spec_x(index) < 15 { Some(index + 1) } else { None }
    } else if face == 4 {
        if spec_y(index) < 255 { Some(index + 256) } else { None }
    } else {
        if spec_y(index) > 0 { Some(index - 256) } else { None }
    }
}

/// Adjacency inside a chunk is mutual: the voxel across a face has this
/// voxel across the opposite face, and the neighbour that the visibility
/// test reads is that voxel.
pub proof fn lemma_adjacent_mutual(s: Surround, index: int, face: int)
    requires
        s.blocks.len() == SIZE,
        0 <= index < SIZE,
        0 <= face < 6,
        spec_adjacent(index, face).is_some(),
    ensures
        0 <= spec_adjacent(index, face).unwrap() < SIZE,
        spec_adjacent(spec_adjacent(index, face).unwrap(), spec_opposite(face)) == Some(index),
        spec_neighbour_id(s, index, face) == s.blocks[spec_adjacent(index, face).unwrap()],
{
}

/// A face whose neighbour is solid is emitted into no pass, whether the
/// neighbour lies in the chunk or in a snapshot.
pub proof fn lemma_solid_neighbour_hides(s: Surround, index: int, face: int, material: BlockMaterial)
    requires
        spec_material(spec_resolve(spec_neighbour_id(s, index, face))) == BlockMaterial::Solid,
    ensures
        !spec_emitted(s, index, face, material),
{
}

/// Face culling between solids: where two solid voxels of a chunk touch,
/// neither emits the face that they share.
pub proof fn lemma_adjacent_solids_cull_shared_face(s: Surround, index: int, face: int, material: BlockMaterial)
    requires
        s.blocks.len() == SIZE,
        0 <= index < SIZE,
        0 <= face < 6,
        spec_adjacent(index, face).is_some(),
        spec_material(spec_resolve(s.blocks[index])) == BlockMaterial::Solid,
        spec_material(spec_resolve(s.blocks[spec_adjacent(index, face).unwrap()]))
            == BlockMaterial::Solid,
    ensures
        !spec_emitted(s, index, face, material),
        !spec_emitted(s, spec_adjacent(index, face).unwrap(), spec_opposite(face), material),
{
    lemma_adjacent_mutual(s, index, face);
    lemma_adjacent_mutual(s, spec_adjacent(index, face).unwrap(), spec_opposite(face));
}

/// Face culling between a solid and air: where a solid voxel of a chunk
/// touches an air voxel, the solid one emits its face on that side into the
/// opaque pass, and the air voxel emits nothing. So exactly one face is
/// emitted between the two.
pub proof fn lemma_solid_beside_air_emits_one_face(s: Surround, index: int, face: int)
    requires
        s.blocks.len() == SIZE,
        0 <= index < SIZE,
        0 <= face < 6,
        spec_adjacent(index, face).is_some(),
        spec_material(spec_resolve(s.blocks[index])) == BlockMaterial::Solid,
        spec_resolve(s.blocks[spec_adjacent(index, face).unwrap()]) == AIR,
    ensures
        spec_emitted(s, index, face, BlockMaterial::Solid),
        !spec_emitted(s, index, face, BlockMaterial::Transparent),
        forall|other: int, material: BlockMaterial|
            !spec_emitted(s, spec_adjacent(index, face).unwrap(), other, material),
{
    lemma_adjacent_mutual(s, index, face);
}

/// At the top and at the bottom of the chunk nothing hides a face: a voxel
/// in the top layer shows its upper face, one in the bottom layer its lower
/// face.
pub proof fn lemma_outer_faces_visible(s: Surround, index: int)
    requires
        s.blocks.len() == SIZE,
        0 <= index < SIZE,
    ensures
        spec_y(index) == 255 ==> spec_visible(s, index, 4),
        spec_y(index) == 0 ==> spec_visible(s, index, 5),
{
}

impl Chunk {
    /// Whether the voxel at `index` shows its face towards -x.
    pub fn has_left(blocks: &Vec<u8>, left: &Vec<u8>, index: usize) -> (visible: bool)
        requires
            index < blocks.len(),
            index < SIZE,
        ensures
            visible == !spec_hidden(blocks@[index as int], spec_left_id(blocks@, left@, index as int)),
    {
        proof {
            lemma_index_of_coordinates(index as int);
        }
        let (x, y, z) = Self::index_to_xyz(index);
        let other = if x == 0 {
            block_or_air(left, Self::xyz_to_index(Chunk::WIDTH - 1, y, z))
        } else {
            block_or_air(blocks, Self::xyz_to_index(x - 1, y, z))
        };
        shows_face(blocks[index], other)
    }

    /// Whether the voxel at `index` shows its face towards +x.
    pub fn has_right(blocks: &Vec<u8>, right: &Vec<u8>, index: usize) -> (visible: bool)
        requires
            index < blocks.len(),
            index < SIZE,
        ensures
            visible == !spec_hidden(blocks@[index as int], spec_right_id(blocks@, right@, index as int)),
    {
        proof {
            lemma_index_of_coordinates(index as int);
        }
        let (x, y, z) = Self::index_to_xyz(index);
        let other = if x + 1 == Chunk::WIDTH {
            block_or_air(right, Self::xyz_to_index(0, y, z))
        } else {
            block_or_air(blocks, Self::xyz_to_index(x + 1, y, z))
        };
        shows_face(blocks[index], other)
    }

    /// Whether the voxel at `index` shows its face towards +y. At the top
    /// of the chunk it always does.
    pub fn has_top(blocks: &Vec<u8>, index: usize) -> (visible: bool)
        requires
            index < blocks.len(),
            index < SIZE,
        ensures
            visible == !spec_hidden(blocks@[index as int], spec_top_id(blocks@, index as int)),
    {
        let other = block_or_air(blocks, index + 256);
        shows_face(blocks[index], other)
    }

    /// Whether the voxel at `index` shows its face towards -y. At the
    /// bottom of the chunk it always does.
    pub fn has_bottom(blocks: &Vec<u8>, index: usize) -> (visible: bool)
        requires
            index < blocks.len(),
            index < SIZE,
        ensures
            visible == !spec_hidden(blocks@[index as int], spec_bottom_id(blocks@, index as int)),
            index < 256 ==> visible,
    {
        if index < 256 {
            true
        } else {
            let other = block_or_air(blocks, index - 256);
            shows_face(blocks[index], other)
        }
    }

    /// Whether the voxel at `index` shows its face towards -z.
    pub fn has_front(blocks: &Vec<u8>, front: &Vec<u8>, index: usize) -> (visible: bool)
        requires
            index < blocks.len(),
            index < SIZE,
        ensures
            visible == !spec_hidden(blocks@[index as int], spec_front_id(blocks@, front@, index as int)),
    {
        proof {
            lemma_index_of_coordinates(index as int);
        }
        let (x, y, z) = Self::index_to_xyz(index);
        let other = if z == 0 {
            block_or_air(front, Self::xyz_to_index(x, y, Chunk::DEPTH - 1))
        } else {
            block_or_air(blocks, Self::xyz_to_index(x, y, z - 1))
        };
        shows_face(blocks[index], other)
    }

    /// Whether the voxel at `index` shows its face towards +z.
    pub fn has_back(blocks: &Vec<u8>, back: &Vec<u8>, index: usize) -> (visible: bool)
        requires
            index < blocks.len(),
            index < SIZE,
        ensures
            visible == !spec_hidden(blocks@[index as int], spec_back_id(blocks@, back@, index as int)),
    {
        proof {
            lemma_index_of_coordinates(index as int);
        }
        let (x, y, z) = Self::index_to_xyz(index);
        let other = if z + 1 == Chunk::DEPTH {
            block_or_air(back, Self::xyz_to_index(x, y, 0))
        } else {
            block_or_air(blocks, Self::xyz_to_index(x, y, z + 1))
        };
        shows_face(blocks[index], other)
    }
}

/// One mesh build: copies of a chunk's voxels and of its four neighbour
/// snapshots, and the world position of the chunk's first voxel.
#[derive(Debug)]
pub struct MeshJob {
    pub blocks: Vec<u8>,
    pub left: Vec<u8>,
    pub right: Vec<u8>,
    pub front: Vec<u8>,
    pub back: Vec<u8>,
    pub world_position: (i32, i32),
}

impl MeshJob {
    /// The voxels that the build reads.
    pub open spec fn surround(&self) -> Surround {
        Surround {
            blocks: self.blocks@,
            left: self.left@,
            right: self.right@,
            front: self.front@,
            back: self.back@,
        }
    }

    /// World position of the chunk's first voxel.
    pub open spec fn origin(&self) -> (int, int) {
        (self.world_position.0 as int, self.world_position.1 as int)
    }

    /// Whether the job holds a full voxel array at a position whose voxels
    /// have world coordinates.
    pub open spec fn wf(&self) -> bool {
        &&& self.blocks@.len() == SIZE
        &&& self.world_position.0 + 15 <= i32::MAX
        &&& self.world_position.1 + 15 <= i32::MAX
    }

    /// Builds the mesh: scans the voxels in array order and emits every
    /// visible face of every voxel that is not air, solid ones into the
    /// opaque lists and transparent ones into the alpha lists.
    pub fn build(&self) -> (mesh: ChunkMesh)
        requires
            self.wf(),
        ensures
            mesh@ == spec_mesh(self.surround(), self.origin()),
            mesh@.wf(),
    {
        let ghost s = self.surround();
        let ghost origin = self.origin();
        let mut vertices: Vec<Vertex> = Vec::new();
        let mut indices: Vec<u32> = Vec::new();
        let mut alpha_vertices: Vec<Vertex> = Vec::new();
        let mut alpha_indices: Vec<u32> = Vec::new();
        let mut solid_index_offset: u32 = 0;
        let mut alpha_index_offset: u32 = 0;
        let mut i: usize = 0;
        while i < SIZE
            invariant
                i <= SIZE,
                self.wf(),
                s == self.surround(),
                origin == self.origin(),
                vertices@ == spec_mesh_vertices(s, origin, BlockMaterial::Solid, i as nat),
                indices@ == spec_mesh_indices(s, BlockMaterial::Solid, i as nat),
                alpha_vertices@ == spec_mesh_vertices(s, origin, BlockMaterial::Transparent, i as nat),
                alpha_indices@ == spec_mesh_indices(s, BlockMaterial::Transparent, i as nat),
                solid_index_offset == 4 * spec_mesh_faces(s, BlockMaterial::Solid, i as nat),
                alpha_index_offset == 4 * spec_mesh_faces(s, BlockMaterial::Transparent, i as nat),
            decreases SIZE - i,
        {
            proof {
                lemma_mesh_lengths(s, origin, BlockMaterial::Solid, i as nat);
                lemma_mesh_lengths(s, origin, BlockMaterial::Transparent, i as nat);
                lemma_index_of_coordinates(i as int);
            }
            let block = Block::block(self.blocks[i]);
            if block.id != AIR {
                let faces: [bool; 6] = [
                    Chunk::has_front(&self.blocks, &self.front, i),
                    Chunk::has_back(&self.blocks, &self.back, i),
                    Chunk::has_left(&self.blocks, &self.left, i),
                    Chunk::has_right(&self.blocks, &self.right, i),
                    Chunk::has_top(&self.blocks, i),
                    Chunk::has_bottom(&self.blocks, i),
                ];
                assert(faces@ =~= spec_flags(s, i as int));
                let (x, y, z) = Chunk::index_to_xyz(i);
                let solid = block.material == BlockMaterial::Solid;
                let offset = if solid { solid_index_offset } else { alpha_index_offset };
                proof {
                    lemma_count_bound(faces@, 6);
                }
                let (mut verts, mut inds) = block.build_faces(
                    x + self.world_position.0,
                    y,
                    z + self.world_position.1,
                    faces,
                    offset,
                );
                proof {
                    lemma_face_lengths(
                        block.look(),
                        x + self.world_position.0,
                        y as int,
                        z + self.world_position.1,
                        faces@,
                        offset as int,
                        6,
                    );
                }
                if solid {
                    solid_index_offset = solid_index_offset + verts.len() as u32;
                    vertices.append(&mut verts);
                    indices.append(&mut inds);
                } else {
                    alpha_index_offset = alpha_index_offset + verts.len() as u32;
                    alpha_vertices.append(&mut verts);
                    alpha_indices.append(&mut inds);
                }
            }
            i += 1;
        }
        proof {
            lemma_mesh_wf(s, origin);
        }
        ChunkMesh::from_parts(vertices, indices, alpha_vertices, alpha_indices)
    }
}

} // verus!
