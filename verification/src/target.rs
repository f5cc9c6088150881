//! The voxel that the observer aims at.

use vstd::prelude::*;
use crate::block_face::BlockFace;

verus! {

/// The integer coordinate of a voxel in the world.
#[derive(Debug, Clone, Copy, PartialEq, Eq, Structural)]
pub struct VoxelPos {
    pub x: i32,
    pub y: i32,
    pub z: i32,
}

impl VoxelPos {
    /// The coordinate as a triple of integers.
    pub open spec fn triple(&self) -> (int, int, int) {
        (self.x as int, self.y as int, self.z as int)
    }
}

/// The result of a ray cast: the voxel that was hit, the face through which
/// the ray entered it, and the name of the block there.
#[derive(Debug, Clone)]
pub struct Target {
    pub position: VoxelPos,
    pub face: BlockFace,
    pub name: String,
}

} // verus!
