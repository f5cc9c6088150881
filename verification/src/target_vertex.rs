//! The outline that marks the targeted voxel.

use vstd::prelude::*;
use crate::block::Block;
use crate::faces::{spec_corner, spec_quad_index};

verus! {

/// A corner of the outline: a corner of the unit cube, each coordinate 0 or
/// 1.
#[derive(Debug, Clone, Copy, PartialEq, Eq, Structural)]
pub struct TargetVertex {
    pub x: u8,
    pub y: u8,
    pub z: u8,
}

/// Vertex `k` of the outline: corner `k % 4` of face `k / 4`.
pub open spec fn spec_outline_vertex(k: int) -> TargetVertex {
    let c = spec_corner(k / 4, k % 4);
    TargetVertex { x: c.0 as u8, y: c.1 as u8, z: c.2 as u8 }
}

/// Index `k` of the outline: corner `k % 6` of the two triangles of face
/// `k / 6`, whose four vertices start at `4 * (k / 6)`.
pub open spec fn spec_outline_index(k: int) -> u32 {
    (4 * (k / 6) + spec_quad_index(k % 6)) as u32
}

impl TargetVertex {
    /// The geometry of the outline: the six faces of the unit cube, four
    /// vertices and two triangles each.
    pub fn load() -> (out: (Vec<TargetVertex>, Vec<u32>))
        ensures
            out.0@ == Seq::new(24, |k: int| spec_outline_vertex(k)),
            out.1@ == Seq::new(36, |k: int| spec_outline_index(k)),
    {
        let mut vertices: Vec<TargetVertex> = Vec::new();
        let mut indices: Vec<u32> = Vec::new();
        let mut i_off: u32 = 0;
        let mut i: usize = 0;
        while i < 6
            invariant
                i <= 6,
                i_off == 4 * i,
                vertices@ == Seq::new(4 * i as nat, |k: int| spec_outline_vertex(k)),
                indices@ == Seq::new(6 * i as nat, |k: int| spec_outline_index(k)),
            decreases 6 - i,
        {
            let mut v: usize = 0;
            while v < 4
                invariant
                    i < 6,
                    v <= 4,
                    vertices@ == Seq::new((4 * i + v) as nat, |k: int| spec_outline_vertex(k)),
                decreases 4 - v,
            {
                let c = Block::corner(i, v);
                vertices.push(TargetVertex { x: c.0, y: c.1, z: c.2 });
                v += 1;
                assert(vertices@ =~= Seq::new((4 * i + v) as nat, |k: int| spec_outline_vertex(k)));
            }
            indices.push(i_off);
            indices.push(i_off + 1);
            indices.push(i_off + 2);
            indices.push(i_off);
            indices.push(i_off + 2);
            indices.push(i_off + 3);
            i_off += 4;
            i += 1;
            assert(indices@ =~= Seq::new(6 * i as nat, |k: int| spec_outline_index(k)));
        }
        (vertices, indices)
    }
}

} // verus!
