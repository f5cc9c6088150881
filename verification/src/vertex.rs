//! The vertex of chunk geometry.

use vstd::prelude::*;

verus! {

/// One corner of an emitted face.
///
/// All fields are fixed-point integers. `x`, `y` and `z` are the world-space
/// position in tenths of a voxel; `u` and `v` are the texture coordinate in
/// atlas tiles (the atlas is sixteen tiles wide and high); `opacity` is in
/// tenths.
#[derive(Debug, Clone, Copy, PartialEq, Eq, Structural)]
pub struct Vertex {
    pub x: i64,
    pub y: i64,
    pub z: i64,
    pub u: u16,
    pub v: u16,
    pub opacity: u8,
}

} // verus!
