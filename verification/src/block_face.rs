//! The faces of a voxel, as a target names them.

use vstd::prelude::*;

verus! {

/// A face of a targeted voxel, or none.
///
/// A target names its faces by the plane that the view ray went through:
/// `Front` and `Back` are the planes of smallest and largest x, `Left` and
/// `Right` those of smallest and largest z, `Bottom` and `Top` those of
/// smallest and largest y.
#[derive(Debug, Clone, Copy, PartialEq, Eq, Structural)]
pub enum BlockFace {
    NoFace,
    Left,
    Right,
    Front,
    Back,
    Top,
    Bottom,
}

/// The number of a face.
pub open spec fn spec_code(face: BlockFace) -> u32 {
    match face {
        BlockFace::NoFace => 0,
        BlockFace::Left => 1,
        BlockFace::Right => 2,
        BlockFace::Front => 3,
        BlockFace::Back => 4,
        BlockFace::Top => 5,
        BlockFace::Bottom => 6,
    }
}

/// The face that an intersection point lies on, given which of the voxel's
/// boundary planes it is close to. The planes are tried in the order x, z,
/// y, the smaller coordinate first, and the first that is close wins; a
/// point close to none of the five is on the top.
pub open spec fn spec_face_of_contacts(x_min: bool, x_max: bool, z_min: bool, z_max: bool, y_min: bool) -> BlockFace {
    if x_min {
        BlockFace::Front
    } else if x_max {
        BlockFace::Back
    } else if z_min {
        BlockFace::Left
    } else if z_max {
        BlockFace::Right
    } else if y_min {
        BlockFace::Bottom
    } else {
        BlockFace::Top
    }
}

/// The step from a voxel to the voxel that lies across `face`, as (x, y, z).
pub open spec fn spec_step(face: BlockFace) -> (int, int, int) {
    match face {
        BlockFace::NoFace => (0, 0, 0),
        BlockFace::Left => (0, 0, -1),
        BlockFace::Right => (0, 0, 1),
        BlockFace::Front => (-1, 0, 0),
        BlockFace::Back => (1, 0, 0),
        BlockFace::Top => (0, 1, 0),
        BlockFace::Bottom => (0, -1, 0),
    }
}

impl BlockFace {
    /// The number of this face: 0 for none, then left, right, front, back,
    /// top and bottom from 1 to 6.
    pub fn code(self) -> (code: u32)
        ensures
            code == spec_code(self),
    {
        match self {
            BlockFace::NoFace => 0,
            BlockFace::Left => 1,
            BlockFace::Right => 2,
            BlockFace::Front => 3,
            BlockFace::Back => 4,
            BlockFace::Top => 5,
            BlockFace::Bottom => 6,
        }
    }

    /// The face with number `code`, if there is one.
    pub fn from_code(code: u32) -> (face: Option<BlockFace>)
        ensures
            face.is_some() <==> code <= 6,
            face.is_some() ==> spec_code(face.unwrap()) == code,
    {
        if code == 0 {
            Some(BlockFace::NoFace)
        } else if code == 1 {
            Some(BlockFace::Left)
        } else if code == 2 {
            Some(BlockFace::Right)
        } else if code == 3 {
            Some(BlockFace::Front)
        } else if code == 4 {
            Some(BlockFace::Back)
        } else if code == 5 {
            Some(BlockFace::Top)
        } else if code == 6 {
            Some(BlockFace::Bottom)
        } else {
            None
        }
    }

    /// The face that an intersection point lies on, given which of the
    /// voxel's boundary planes it is close to.
    pub fn from_contacts(x_min: bool, x_max: bool, z_min: bool, z_max: bool, y_min: bool) -> (face: BlockFace)
        ensures
            face == spec_face_of_contacts(x_min, x_max, z_min, z_max, y_min),
    {
        if x_min {
            BlockFace::Front
        } else if x_max {
            BlockFace::Back
        } else if z_min {
            BlockFace::Left
        } else if z_max {
            BlockFace::Right
        } else if y_min {
            BlockFace::Bottom
        } else {
            BlockFace::Top
        }
    }

    /// The step from a voxel to the voxel that lies across this face.
    pub fn step(self) -> (step: (i32, i32, i32))
        ensures
            (step.0 as int, step.1 as int, step.2 as int) == spec_step(self),
    {
        match self {
            BlockFace::NoFace => (0, 0, 0),
            BlockFace::Left => (0, 0, -1),
            BlockFace::Right => (0, 0, 1),
            BlockFace::Front => (-1, 0, 0),
            BlockFace::Back => (1, 0, 0),
            BlockFace::Top => (0, 1, 0),
            BlockFace::Bottom => (0, -1, 0),
        }
    }
}

} // verus!
