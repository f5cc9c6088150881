//! Geometry of one voxel: the corners of its six faces and the quads that
//! the visible ones turn into.

use vstd::prelude::*;
use crate::block::{Block, Look};
use crate::vertex::Vertex;

verus! {

/// Corner `v` of face `face` of the unit cube, as (x, y, z) with each
/// coordinate 0 or 1. Faces are in mesh order: 0 towards -z, 1 towards +z,
/// 2 towards -x, 3 towards +x, 4 towards +y, 5 towards -y.
pub open spec fn spec_corner(face: int, v: int) -> (int, int, int) {
    if face == 0 {
        if v == 0 { (0, 0, 0) } else if v == 1 { (1, 0, 0) } else if v == 2 { (1, 1, 0) } else { (0, 1, 0) }
    } else if face == 1 {
        if v == 0 { (1, 0, 1) } else if v == 1 { (0, 0, 1) } else if v == 2 { (0, 1, 1) } else { (1, 1, 1) }
    } else if face == 2 {
        if v == 0 { (0, 0, 1) } else if v == 1 { (0, 0, 0) } else if v == 2 { (0, 1, 0) } else { (0, 1, 1) }
    } else if face == 3 {
        if v == 0 { (1, 0, 0) } else if v == 1 { (1, 0, 1) } else if v == 2 { (1, 1, 1) } else { (1, 1, 0) }
    } else if face == 4 {
        if v == 0 { (0, 1, 0) } else if v == 1 { (1, 1, 0) } else if v == 2 { (1, 1, 1) } else { (0, 1, 1) }
    } else {
        if v == 0 { (0, 0, 1) } else if v == 1 { (1, 0, 1) } else if v == 2 { (1, 0, 0) } else { (0, 0, 0) }
    }
}

/// Texture corner `v` of any face, as (u, v) with each coordinate 0 or 1.
pub open spec fn spec_uv_corner(v: int) -> (int, int) {
    if v == 0 { (0, 0) } else if v == 1 { (1, 0) } else if v == 2 { (1, 1) } else { (0, 1) }
}

/// Corner `k` of the two triangles of a quad, as an offset into the quad's
/// four vertices.
pub open spec fn spec_quad_index(k: int) -> int {
    if k == 0 { 0 } else if k == 1 { 1 } else if k == 2 { 2 } else if k == 3 { 0 } else if k == 4 { 2 } else { 3 }
}

/// The vertex at corner `v` of face `face` of a block drawn at voxel
/// `(x, y, z)`: the corner scaled by the block's render scale and moved to
/// the voxel, the corner's texture coordinate moved to the face's atlas tile,
/// and the block's opacity.
pub open spec fn spec_vertex(b: Look, x: int, y: int, z: int, face: int, v: int) -> Vertex {
    let c = spec_corner(face, v);
    let t = spec_uv_corner(v);
    Vertex {
        x: (10 * x + c.0 * b.scale.0) as i64,
        y: (10 * y + c.1 * b.scale.1) as i64,
        z: (10 * z + c.2 * b.scale.2) as i64,
        u: (t.0 + b.tiles[face].0) as u16,
        v: (t.1 + b.tiles[face].1) as u16,
        opacity: b.opacity,
    }
}

/// The four vertices of face `face`.
pub open spec fn spec_quad(b: Look, x: int, y: int, z: int, face: int) -> Seq<Vertex> {
    Seq::new(4, |v: int| spec_vertex(b, x, y, z, face, v))
}

/// The six indices of a quad whose first vertex has index `base`.
pub open spec fn spec_quad_indices(base: int) -> Seq<u32> {
    Seq::new(6, |k: int| (base + spec_quad_index(k)) as u32)
}

/// How many of the first `n` flags are set.
pub open spec fn count_set(flags: Seq<bool>, n: nat) -> nat
    decreases n,
{
    if n == 0 {
        0
    } else {
        count_set(flags, (n - 1) as nat) + if flags[n - 1] { 1nat } else { 0nat }
    }
}

/// Vertices of the faces among the first `n` whose flag is set, in face order.
pub open spec fn spec_face_vertices(b: Look, x: int, y: int, z: int, flags: Seq<bool>, n: nat) -> Seq<Vertex>
    decreases n,
{
    if n == 0 {
        Seq::empty()
    } else {
        let before = spec_face_vertices(b, x, y, z, flags, (n - 1) as nat);
        if flags[n - 1] {
            before + spec_quad(b, x, y, z, n - 1)
        } else {
            before
        }
    }
}

/// Indices of the faces among the first `n` whose flag is set: each quad
/// takes the next four vertex indices, starting at `offset`.
pub open spec fn spec_face_indices(flags: Seq<bool>, offset: int, n: nat) -> Seq<u32>
    decreases n,
{
    if n == 0 {
        Seq::empty()
    } else {
        let before = spec_face_indices(flags, offset, (n - 1) as nat);
        if flags[n - 1] {
            before + spec_quad_indices(offset + 4 * count_set(flags, (n - 1) as nat))
        } else {
            before
        }
    }
}

/// The vertex list holds four vertices for every set flag, the index list six
/// indices.
pub proof fn lemma_face_lengths(b: Look, x: int, y: int, z: int, flags: Seq<bool>, offset: int, n: nat)
    ensures
        spec_face_vertices(b, x, y, z, flags, n).len() == 4 * count_set(flags, n),
        spec_face_indices(flags, offset, n).len() == 6 * count_set(flags, n),
        count_set(flags, n) <= n,
    decreases n,
{
    if n > 0 {
        lemma_face_lengths(b, x, y, z, flags, offset, (n - 1) as nat);
    }
}

/// Every index of a voxel's faces points at one of that voxel's own
/// vertices: it lies at or after `offset` and before `offset` plus the number
/// of vertices emitted.
pub proof fn lemma_face_indices_in_range(flags: Seq<bool>, offset: int, n: nat, k: int)
    requires
        0 <= offset,
        offset + 4 * count_set(flags, n) <= u32::MAX,
        0 <= k < spec_face_indices(flags, offset, n).len(),
    ensures
        offset <= spec_face_indices(flags, offset, n)[k] < offset + 4 * count_set(flags, n),
    decreases n,
{
    if n > 0 {
        let before = spec_face_indices(flags, offset, (n - 1) as nat);
        if k < before.len() {
            lemma_face_indices_in_range(flags, offset, (n - 1) as nat, k);
        }
    }
}

/// Among more flags, no fewer are set.
pub proof fn lemma_count_monotone(flags: Seq<bool>, n: nat, m: nat)
    requires
        n <= m,
    ensures
        count_set(flags, n) <= count_set(flags, m),
    decreases m,
{
    if n < m {
        lemma_count_monotone(flags, n, (m - 1) as nat);
    }
}

/// At most `n` of the first `n` flags are set.
pub proof fn lemma_count_bound(flags: Seq<bool>, n: nat)
    ensures
        count_set(flags, n) <= n,
    decreases n,
{
    if n > 0 {
        lemma_count_bound(flags, (n - 1) as nat);
    }
}

impl Block {
    /// Corner `v` of face `face` of the unit cube.
    pub fn corner(face: usize, v: usize) -> (c: (u8, u8, u8))
        requires
            face < 6,
            v < 4,
        ensures
            c.0 == spec_corner(face as int, v as int).0,
            c.1 == spec_corner(face as int, v as int).1,
            c.2 == spec_corner(face as int, v as int).2,
            c.0 <= 1 && c.1 <= 1 && c.2 <= 1,
    {
        if face == 0 {
            if v == 0 { (0, 0, 0) } else if v == 1 { (1, 0, 0) } else if v == 2 { (1, 1, 0) } else { (0, 1, 0) }
        } else if face == 1 {
            if v == 0 { (1, 0, 1) } else if v == 1 { (0, 0, 1) } else if v == 2 { (0, 1, 1) } else { (1, 1, 1) }
        } else if face == 2 {
            if v == 0 { (0, 0, 1) } else if v == 1 { (0, 0, 0) } else if v == 2 { (0, 1, 0) } else { (0, 1, 1) }
        } else if face == 3 {
            if v == 0 { (1, 0, 0) } else if v == 1 { (1, 0, 1) } else if v == 2 { (1, 1, 1) } else { (1, 1, 0) }
        } else if face == 4 {
            if v == 0 { (0, 1, 0) } else if v == 1 { (1, 1, 0) } else if v == 2 { (1, 1, 1) } else { (0, 1, 1) }
        } else {
            if v == 0 { (0, 0, 1) } else if v == 1 { (1, 0, 1) } else if v == 2 { (1, 0, 0) } else { (0, 0, 0) }
        }
    }

    /// Texture corner `v` of a face.
    pub fn uv_corner(v: usize) -> (t: (u8, u8))
        requires
            v < 4,
        ensures
            t.0 == spec_uv_corner(v as int).0,
            t.1 == spec_uv_corner(v as int).1,
            t.0 <= 1 && t.1 <= 1,
    {
        if v == 0 { (0, 0) } else if v == 1 { (1, 0) } else if v == 2 { (1, 1) } else { (0, 1) }
    }

    /// A corner coordinate (0 or 1) times a scale.
    fn scaled(c: u8, scale: u8) -> (r: i64)
        requires
            c <= 1,
        ensures
            r == c * scale,
            0 <= r <= 255,
    {
        assert(c * scale == if c == 1 { scale as int } else { 0 }) by (nonlinear_arith)
            requires
                c == 0 || c == 1,
        ;
        if c == 1 { scale as i64 } else { 0 }
    }

    /// Builds the geometry of this block at voxel `(x, y, z)`: a quad for
    /// every face whose flag in `faces` is set, in face order, with indices
    /// that start at `index_offset`.
    pub fn build_faces(&self, x: i32, y: i32, z: i32, faces: [bool; 6], index_offset: u32) -> (out: (Vec<Vertex>, Vec<u32>))
        requires
            index_offset + 4 * count_set(faces@, 6) <= u32::MAX,
        ensures
            out.0@ == spec_face_vertices(self.look(), x as int, y as int, z as int, faces@, 6),
            out.1@ == spec_face_indices(faces@, index_offset as int, 6),
    {
        let mut vertices: Vec<Vertex> = Vec::new();
        let mut indices: Vec<u32> = Vec::new();
        let mut i_off: u32 = index_offset;
        let mut i: usize = 0;
        while i < 6
            invariant
                i <= 6,
                index_offset + 4 * count_set(faces@, 6) <= u32::MAX,
                i_off == index_offset + 4 * count_set(faces@, i as nat),
                vertices@ == spec_face_vertices(self.look(), x as int, y as int, z as int, faces@, i as nat),
                indices@ == spec_face_indices(faces@, index_offset as int, i as nat),
            decreases 6 - i,
        {
            proof {
                lemma_count_monotone(faces@, (i + 1) as nat, 6);
            }
            if faces[i] {
                let ghost before = vertices@;
                let mut v: usize = 0;
                while v < 4
                    invariant
                        i < 6,
                        v <= 4,
                        vertices@ == before + spec_quad(self.look(), x as int, y as int, z as int, i as int).subrange(0, v as int),
                    decreases 4 - v,
                {
                    let c = Block::corner(i, v);
                    let t = Block::uv_corner(v);
                    let sx: i64 = Block::scaled(c.0, self.scale[0]);
                    let sy: i64 = Block::scaled(c.1, self.scale[1]);
                    let sz: i64 = Block::scaled(c.2, self.scale[2]);
                    let vertex = Vertex {
                        x: 10 * (x as i64) + sx,
                        y: 10 * (y as i64) + sy,
                        z: 10 * (z as i64) + sz,
                        u: t.0 as u16 + self.uv[i][0] as u16,
                        v: t.1 as u16 + self.uv[i][1] as u16,
                        opacity: self.opacity,
                    };
                    assert(vertex == spec_vertex(self.look(), x as int, y as int, z as int, i as int, v as int));
                    vertices.push(vertex);
                    v += 1;
                    assert(vertices@ =~= before + spec_quad(self.look(), x as int, y as int, z as int, i as int).subrange(0, v as int));
                }
                assert(spec_quad(self.look(), x as int, y as int, z as int, i as int).subrange(0, 4)
                    =~= spec_quad(self.look(), x as int, y as int, z as int, i as int));
                let ghost before_indices = indices@;
                indices.push(i_off);
                indices.push(i_off + 1);
                indices.push(i_off + 2);
                indices.push(i_off);
                indices.push(i_off + 2);
                indices.push(i_off + 3);
                assert(indices@ =~= before_indices + spec_quad_indices(i_off as int));
                i_off += 4;
            }
            i += 1;
        }
        (vertices, indices)
    }
}

} // verus!
