//! The voxel grid of a chunk: its dimensions, the layout of the flat voxel
//! array, and the rule that decides which faces of a voxel can be seen.

use vstd::prelude::*;
use crate::block::{spec_material, spec_resolve, Block, BlockMaterial, AIR, WATER};
use crate::chunk::{valid_chunk_coord, Chunk};

verus! {

/// Voxels in a chunk.
pub const SIZE: usize = 65536;

/// Position of voxel `(x, y, z)` in the flat voxel array.
pub open spec fn spec_index(x: int, y: int, z: int) -> int {
    x + z * 16 + y * 256
}

/// The x coordinate of the voxel at position `index`.
pub open spec fn spec_x(index: int) -> int {
    index % 16
}

/// The y coordinate of the voxel at position `index`.
pub open spec fn spec_y(index: int) -> int {
    index / 256
}

/// The z coordinate of the voxel at position `index`.
pub open spec fn spec_z(index: int) -> int {
    (index / 16) % 16
}

/// Whether `(x, y, z)` lies inside the chunk.
pub open spec fn in_chunk(x: int, y: int, z: int) -> bool {
    0 <= x < 16 && 0 <= y < 256 && 0 <= z < 16
}

/// The id at position `index` of a voxel array, or air where the array does
/// not reach.
pub open spec fn voxel_or_air(voxels: Seq<u8>, index: int) -> u8 {
    if 0 <= index < voxels.len() {
        voxels[index]
    } else {
        AIR
    }
}

/// Whether a face of a block with id `own` is hidden by a neighbour with id
/// `other`: a solid neighbour hides it, and water hides water.
pub open spec fn spec_hidden(own: u8, other: u8) -> bool {
    spec_material(spec_resolve(other)) == BlockMaterial::Solid || (spec_resolve(other) == WATER
        && spec_resolve(own) == WATER)
}

/// Id of the neighbour towards -x: inside the chunk, or the mirrored voxel
/// of the left snapshot on the chunk's edge.
pub open spec fn spec_left_id(blocks: Seq<u8>, left: Seq<u8>, index: int) -> u8 {
    if spec_x(index) == 0 {
        voxel_or_air(left, spec_index(15, spec_y(index), spec_z(index)))
    } else {
        voxel_or_air(blocks, index - 1)
    }
}

/// Id of the neighbour towards +x.
pub open spec fn spec_right_id(blocks: Seq<u8>, right: Seq<u8>, index: int) -> u8 {
    if spec_x(index) == 15 {
        voxel_or_air(right, spec_index(0, spec_y(index), spec_z(index)))
    } else {
        voxel_or_air(blocks, index + 1)
    }
}

/// Id of the neighbour towards -z.
pub open spec fn spec_front_id(blocks: Seq<u8>, front: Seq<u8>, index: int) -> u8 {
    if spec_z(index) == 0 {
        voxel_or_air(front, spec_index(spec_x(index), spec_y(index), 15))
    } else {
        voxel_or_air(blocks, index - 16)
    }
}

/// Id of the neighbour towards +z.
pub open spec fn spec_back_id(blocks: Seq<u8>, back: Seq<u8>, index: int) -> u8 {
    if spec_z(index) == 15 {
        voxel_or_air(back, spec_index(spec_x(index), spec_y(index), 0))
    } else {
        voxel_or_air(blocks, index + 16)
    }
}

/// Id of the neighbour above; above the top layer there is none, which
/// counts as air.
pub open spec fn spec_top_id(blocks: Seq<u8>, index: int) -> u8 {
    voxel_or_air(blocks, index + 256)
}

/// Id of the neighbour below; below the bottom layer there is none, which
/// counts as air.
pub open spec fn spec_bottom_id(blocks: Seq<u8>, index: int) -> u8 {
    if index < 256 {
        AIR
    } else {
        voxel_or_air(blocks, index - 256)
    }
}

/// Splitting a position into coordinates and putting them together again
/// gives the position back, and the coordinates lie inside the chunk.
pub proof fn lemma_index_of_coordinates(index: int)
    requires
        0 <= index < SIZE,
    ensures
        in_chunk(spec_x(index), spec_y(index), spec_z(index)),
        spec_index(spec_x(index), spec_y(index), spec_z(index)) == index,
{
}

/// Putting coordinates together and splitting the position again gives the
/// coordinates back, and the position lies inside the array.
pub proof fn lemma_coordinates_of_index(x: int, y: int, z: int)
    requires
        in_chunk(x, y, z),
    ensures
        0 <= spec_index(x, y, z) < SIZE,
        spec_x(spec_index(x, y, z)) == x,
        spec_y(spec_index(x, y, z)) == y,
        spec_z(spec_index(x, y, z)) == z,
{
}

impl Chunk {
    /// Voxels along x.
    pub const WIDTH: i32 = 16;

    /// Voxels along y.
    pub const HEIGHT: i32 = 256;

    /// Voxels along z.
    pub const DEPTH: i32 = 16;

    /// Voxels in a chunk.
    pub const SIZE: i32 = 65536;

    /// Position of voxel `(x, y, z)` in the flat voxel array.
    pub fn xyz_to_index(x: i32, y: i32, z: i32) -> (index: usize)
        requires
            in_chunk(x as int, y as int, z as int),
        ensures
            index == spec_index(x as int, y as int, z as int),
            index < SIZE,
    {
        (x + z * 16 + y * 256) as usize
    }

    /// Coordinates `(x, y, z)` of the voxel at position `index`.
    pub fn index_to_xyz(index: usize) -> (p: (i32, i32, i32))
        requires
            index <= i32::MAX,
        ensures
            p.0 == spec_x(index as int),
            p.1 == spec_y(index as int),
            p.2 == spec_z(index as int),
    {
        let i: i32 = index as i32;
        let x: i32 = i % 16;
        let y: i32 = i / 256;
        let z: i32 = (i / 16) % 16;
        (x, y, z)
    }

    /// Whether a face of `block` is hidden by the neighbour `other`: a solid
    /// neighbour hides it, and water hides water.
    pub fn is_hidden(block: &Block, other: &Block) -> (hidden: bool)
        ensures
            hidden == (other.material == BlockMaterial::Solid || (other.id == WATER && block.id
                == WATER)),
    {
        if other.material == BlockMaterial::Solid {
            true
        } else if other.id == WATER && block.id == WATER {
            true
        } else {
            false
        }
    }

    /// World position of the first voxel of the chunk at chunk coordinate
    /// `local_position`.
    pub fn local_to_world_position(local_position: (i32, i32)) -> (p: (i32, i32))
        requires
            valid_chunk_coord(local_position.0 as int),
            valid_chunk_coord(local_position.1 as int),
        ensures
            p.0 == local_position.0 * 16,
            p.1 == local_position.1 * 16,
    {
        (local_position.0 * 16, local_position.1 * 16)
    }
}

/// Reads position `index` of a voxel array, with air where the array does
/// not reach.
pub fn block_or_air(voxels: &Vec<u8>, index: usize) -> (id: u8)
    ensures
        id == voxel_or_air(voxels@, index as int),
{
    if index < voxels.len() {
        voxels[index]
    } else {
        AIR
    }
}

/// Whether the block with id `own` shows a face towards a neighbour with id
/// `other`.
pub fn shows_face(own: u8, other: u8) -> (visible: bool)
    ensures
        visible == !spec_hidden(own, other),
{
    let block = Block::block(own);
    let neighbour = Block::block(other);
    !Chunk::is_hidden(&block, &neighbour)
}

} // verus!
