//! What the world hands to the renderer: the draw list, filtered by
//! visibility, and the vertex count for diagnostics.

use vstd::prelude::*;
use crate::chunk_buffer::ChunkBuffer;
use crate::world::{scanned_before, window_fits, World, WorldView, MAX_RENDER_DISTANCE};

verus! {

/// A box in world coordinates, from its smallest to its largest corner.
#[derive(Debug, Clone, Copy, PartialEq, Eq, Structural)]
pub struct ChunkBox {
    pub min_x: i64,
    pub min_y: i64,
    pub min_z: i64,
    pub max_x: i64,
    pub max_y: i64,
    pub max_z: i64,
}

/// The box that bounds the chunk at chunk coordinate `p` over the full
/// height of the build volume.
pub open spec fn spec_chunk_box(p: (int, int)) -> ChunkBox {
    ChunkBox {
        min_x: (p.0 * 16) as i64,
        min_y: 0,
        min_z: (p.1 * 16) as i64,
        max_x: (p.0 * 16 + 16) as i64,
        max_y: 256,
        max_z: (p.1 * 16 + 16) as i64,
    }
}

/// The box that bounds the chunk at chunk coordinate `(x, z)` over the full
/// height of the build volume.
pub fn chunk_bounds(x: i32, z: i32) -> (bounds: ChunkBox)
    ensures
        bounds == spec_chunk_box((x as int, z as int)),
        bounds.min_x == x * 16 && bounds.max_x == x * 16 + 16,
        bounds.min_z == z * 16 && bounds.max_z == z * 16 + 16,
{
    let x0: i64 = x as i64 * 16;
    let z0: i64 = z as i64 * 16;
    ChunkBox { min_x: x0, min_y: 0, min_z: z0, max_x: x0 + 16, max_y: 256, max_z: z0 + 16 }
}

/// Whether `cells` are the chunk coordinates of a draw list of `world`
/// under the visibility test `culled`, which is asked about each chunk's
/// bounding box: each has a buffer and was not culled, they are in scan
/// order, and every buffer that is missing from the list was culled.
pub open spec fn spec_draw_cells<H, C: Fn(ChunkBox) -> bool>(
    world: WorldView<H>,
    culled: &C,
    cells: Seq<(int, int)>,
) -> bool {
    &&& forall|i: int|
        0 <= i < cells.len() ==> world.buffers.contains_key(#[trigger] cells[i]) && call_ensures(
            *culled,
            (spec_chunk_box(cells[i]),),
            false,
        )
    &&& forall|i: int, j: int| 0 <= i < j < cells.len() ==> scanned_before(#[trigger] cells[i], #[trigger] cells[j])
    &&& forall|p: (int, int)| #[trigger]
        world.buffers.contains_key(p) && !cells.contains(p) ==> call_ensures(*culled, (spec_chunk_box(p),), true)
}

/// Whether `list` holds the buffers of `world` at `cells`, in order.
pub open spec fn spec_buffers_at<H>(world: WorldView<H>, cells: Seq<(int, int)>, list: Seq<&ChunkBuffer<H>>) -> bool {
    &&& list.len() == cells.len()
    &&& forall|i: int| 0 <= i < cells.len() ==> *(#[trigger] list[i]) == world.buffers[cells[i]]
}

/// What is counted for diagnostics.
#[derive(Debug, Clone, Copy, PartialEq, Eq, Structural)]
pub enum Count {
    /// The vertices of the opaque pass.
    Vertices,
    /// The triangles of both passes.
    Triangles,
}

/// What a buffer counts for: its opaque vertices, or the triangles that its
/// two index lists make.
pub open spec fn spec_buffer_count<H>(buffer: ChunkBuffer<H>, count: Count) -> nat {
    match count {
        Count::Vertices => buffer.vertex_count as nat,
        Count::Triangles => ((buffer.index_count + buffer.alpha_index_count) / 3) as nat,
    }
}

/// What the buffer at `p` counts for, if there is one.
pub open spec fn spec_cell_count<H>(world: WorldView<H>, p: (int, int), count: Count) -> nat {
    if world.buffers.contains_key(p) {
        spec_buffer_count(world.buffers[p], count)
    } else {
        0
    }
}

/// The count over the buffers of the first `n` chunks of row `x`, from `z0`
/// on.
pub open spec fn spec_row_count<H>(world: WorldView<H>, x: int, z0: int, n: nat, count: Count) -> nat
    decreases n,
{
    if n == 0 {
        0
    } else {
        spec_row_count(world, x, z0, (n - 1) as nat, count) + spec_cell_count(world, (x, z0 + n - 1), count)
    }
}

/// The count over the buffers of the first `m` rows from `x0` on, each
/// `side` chunks long from `z0` on.
pub open spec fn spec_rows_count<H>(world: WorldView<H>, x0: int, m: nat, z0: int, side: nat, count: Count) -> nat
    decreases m,
{
    if m == 0 {
        0
    } else {
        spec_rows_count(world, x0, (m - 1) as nat, z0, side, count) + spec_row_count(
            world,
            x0 + m - 1,
            z0,
            side,
            count,
        )
    }
}

/// The count over all buffers of the world: every buffer belongs to a
/// chunk of the window that the world streamed last.
pub open spec fn spec_total<H>(world: WorldView<H>, count: Count) -> nat {
    match world.center {
        Some(center) => {
            let r1 = world.render_distance + 1;
            spec_rows_count(world, center.0 - r1, (2 * r1) as nat, center.1 - r1, (2 * r1) as nat, count)
        },
        None => 0,
    }
}

/// A row of `n` buffers counts for at most `n` times the largest count of a
/// buffer.
pub proof fn lemma_row_bound<H>(world: WorldView<H>, x: int, z0: int, n: nat, count: Count)
    ensures
        spec_row_count(world, x, z0, n, count) <= n * 0xffff_ffff,
    decreases n,
{
    if n > 0 {
        lemma_row_bound(world, x, z0, (n - 1) as nat, count);
    }
}

/// Rows of at most 32768 buffers count for at most 2^47 each.
pub proof fn lemma_rows_bound<H>(world: WorldView<H>, x0: int, m: nat, z0: int, side: nat, count: Count)
    requires
        side <= 32768,
    ensures
        spec_rows_count(world, x0, m, z0, side, count) <= m * 0x8000_0000_0000,
    decreases m,
{
    if m > 0 {
        lemma_rows_bound(world, x0, (m - 1) as nat, z0, side, count);
        lemma_row_bound(world, x0 + m - 1, z0, side, count);
    }
}

impl<H> ChunkBuffer<H> {
    /// What this buffer counts for.
    pub fn count(&self, count: Count) -> (n: u32)
        ensures
            n == spec_buffer_count(*self, count),
    {
        match count {
            Count::Vertices => self.vertex_count,
            Count::Triangles => ((self.index_count as u64 + self.alpha_index_count as u64) / 3) as u32,
        }
    }
}

impl<H> World<H> {
    /// Number of opaque vertices in all buffers, for diagnostics.
    pub fn vertex_count(&self) -> (total: u64)
        requires
            self.wf(),
        ensures
            total == spec_total(self@, Count::Vertices),
    {
        self.total(Count::Vertices)
    }

    /// Number of triangles in all buffers, for diagnostics.
    pub fn triangle_count(&self) -> (total: u64)
        requires
            self.wf(),
        ensures
            total == spec_total(self@, Count::Triangles),
    {
        self.total(Count::Triangles)
    }

    /// The count over all buffers.
    pub fn total(&self, count: Count) -> (total: u64)
        requires
            self.wf(),
        ensures
            total == spec_total(self@, count),
    {
        proof {
            self.lemma_wf_view();
        }
        let (cx, cz) = match self.center() {
            Some(center) => center,
            None => {
                return 0;
            },
        };
        let r1: i32 = self.render_distance() + 1;
        let ghost side = (2 * r1) as nat;
        let mut total: u64 = 0;
        let mut x: i32 = cx - r1;
        while x < cx + r1
            invariant
                cx - r1 <= x <= cx + r1,
                1 <= r1 <= MAX_RENDER_DISTANCE + 1,
                side == 2 * r1,
                window_fits((cx as int, cz as int), r1 - 1),
                total == spec_rows_count(self@, cx - r1, (x - (cx - r1)) as nat, cz - r1, side, count),
            decreases cx + r1 - x,
        {
            let mut row: u64 = 0;
            let mut z: i32 = cz - r1;
            while z < cz + r1
                invariant
                    cx - r1 <= x < cx + r1,
                    cz - r1 <= z <= cz + r1,
                    1 <= r1 <= MAX_RENDER_DISTANCE + 1,
                    window_fits((cx as int, cz as int), r1 - 1),
                    row == spec_row_count(self@, x as int, cz - r1, (z - (cz - r1)) as nat, count),
                decreases cz + r1 - z,
            {
                proof {
                    lemma_row_bound(self@, x as int, cz - r1, (z - (cz - r1)) as nat, count);
                }
                match self.buffer(x, z) {
                    Some(buffer) => {
                        row = row + buffer.count(count) as u64;
                    },
                    None => {},
                }
                z += 1;
            }
            proof {
                lemma_rows_bound(self@, cx - r1, (x - (cx - r1)) as nat, cz - r1, side, count);
                lemma_row_bound(self@, x as int, cz - r1, side, count);
            }
            total = total + row;
            x += 1;
        }
        total
    }

    /// The draw list: the buffers of the resident chunks, in scan order,
    /// without those that the visibility test `culled` rejects. `culled` is
    /// asked once for each chunk that has a buffer, with the box that bounds
    /// the chunk over the full height of the build volume.
    pub fn buffers<C: Fn(ChunkBox) -> bool>(&self, culled: &C) -> (list: Vec<&ChunkBuffer<H>>)
        requires
            self.wf(),
            forall|bounds: ChunkBox| call_requires(*culled, (bounds,)),
        ensures
            exists|cells: Seq<(int, int)>| #[trigger]
                spec_draw_cells(self@, culled, cells) && spec_buffers_at(self@, cells, list@),
    {
        proof {
            self.lemma_wf_view();
        }
        let mut list: Vec<&ChunkBuffer<H>> = Vec::new();
        let ghost mut cells: Seq<(int, int)> = Seq::empty();
        let (cx, cz) = match self.center() {
            Some(center) => center,
            None => {
                assert(spec_draw_cells(self@, culled, cells) && spec_buffers_at(self@, cells, list@));
                return list;
            },
        };
        let r1: i32 = self.render_distance() + 1;
        let ghost center = (cx as int, cz as int);
        let ghost r = r1 - 1;
        let mut x: i32 = cx - r1;
        while x < cx + r1
            invariant
                cx - r1 <= x <= cx + r1,
                1 <= r1 <= MAX_RENDER_DISTANCE + 1,
                r == r1 - 1,
                center == (cx as int, cz as int),
                window_fits(center, r),
                self@.wf(),
                self@.center == Some(center),
                self@.render_distance == r,
                forall|bounds: ChunkBox| call_requires(*culled, (bounds,)),
                spec_draw_progress(self@, culled, cells, x as int, cz - r1),
                spec_buffers_at(self@, cells, list@),
            decreases cx + r1 - x,
        {
            let mut z: i32 = cz - r1;
            while z < cz + r1
                invariant
                    cx - r1 <= x < cx + r1,
                    cz - r1 <= z <= cz + r1,
                    1 <= r1 <= MAX_RENDER_DISTANCE + 1,
                    r == r1 - 1,
                    center == (cx as int, cz as int),
                    window_fits(center, r),
                    self@.wf(),
                    self@.center == Some(center),
                    self@.render_distance == r,
                    forall|bounds: ChunkBox| call_requires(*culled, (bounds,)),
                    spec_draw_progress(self@, culled, cells, x as int, z as int),
                    spec_buffers_at(self@, cells, list@),
                decreases cz + r1 - z,
            {
                let ghost earlier = cells;
                match self.buffer(x, z) {
                    Some(buffer) => {
                        let out = culled(chunk_bounds(x, z));
                        if !out {
                            list.push(buffer);
                            proof {
                                cells = cells.push((x as int, z as int));
                            }
                        }
                        proof {
                            lemma_draw_step(self@, culled, earlier, cells, x as int, z as int, out);
                        }
                    },
                    None => {
                        proof {
                            lemma_draw_skip(self@, culled, cells, x as int, z as int);
                        }
                    },
                }
                z += 1;
            }
            proof {
                lemma_draw_row(self@, culled, cells, x as int, cz + r1, cz - r1);
            }
            x += 1;
        }
        proof {
            lemma_draw_done(self@, culled, cells, center, cx + r1, cz - r1);
        }
        list
    }
}

/// Whether `cells` are the chunk coordinates of the draw list as far as the
/// scan has come when it stands at `(x, z)`.
pub open spec fn spec_draw_progress<H, C: Fn(ChunkBox) -> bool>(
    world: WorldView<H>,
    culled: &C,
    cells: Seq<(int, int)>,
    x: int,
    z: int,
) -> bool {
    &&& forall|i: int|
        0 <= i < cells.len() ==> world.buffers.contains_key(#[trigger] cells[i]) && scanned_before(
            cells[i],
            (x, z),
        ) && call_ensures(*culled, (spec_chunk_box(cells[i]),), false)
    &&& forall|i: int, j: int| 0 <= i < j < cells.len() ==> scanned_before(#[trigger] cells[i], #[trigger] cells[j])
    &&& forall|p: (int, int)| #[trigger]
        world.buffers.contains_key(p) && scanned_before(p, (x, z)) && !cells.contains(p) ==> call_ensures(
            *culled,
            (spec_chunk_box(p),),
            true,
        )
}

/// The scan of the draw list moves over a chunk with a buffer: the chunk
/// joins the list unless the test culled it.
pub proof fn lemma_draw_step<H, C: Fn(ChunkBox) -> bool>(
    world: WorldView<H>,
    culled: &C,
    earlier: Seq<(int, int)>,
    cells: Seq<(int, int)>,
    x: int,
    z: int,
    out: bool,
)
    requires
        spec_draw_progress(world, culled, earlier, x, z),
        world.buffers.contains_key((x, z)),
        i32::MIN <= x <= i32::MAX,
        i32::MIN <= z <= i32::MAX,
        call_ensures(*culled, (spec_chunk_box((x, z)),), out),
        cells == if out { earlier } else { earlier.push((x, z)) },
    ensures
        spec_draw_progress(world, culled, cells, x, z + 1),
{
    assert forall|p: (int, int)| #[trigger]
        world.buffers.contains_key(p) && scanned_before(p, (x, z + 1)) && !cells.contains(p) implies call_ensures(
        *culled,
        (spec_chunk_box(p),),
        true,
    ) by {
        if p == (x, z) {
            if !out {
                assert(cells[earlier.len() as int] == p);
            }
        } else {
            assert(scanned_before(p, (x, z)));
            if earlier.contains(p) {
                let i = choose|i: int| 0 <= i < earlier.len() && earlier[i] == p;
                assert(cells[i] == p);
            }
        }
    }
}

/// The scan of the draw list moves over a chunk without a buffer.
pub proof fn lemma_draw_skip<H, C: Fn(ChunkBox) -> bool>(
    world: WorldView<H>,
    culled: &C,
    cells: Seq<(int, int)>,
    x: int,
    z: int,
)
    requires
        spec_draw_progress(world, culled, cells, x, z),
        !world.buffers.contains_key((x, z)),
    ensures
        spec_draw_progress(world, culled, cells, x, z + 1),
{
    assert forall|p: (int, int)| #[trigger]
        world.buffers.contains_key(p) && scanned_before(p, (x, z + 1)) && !cells.contains(p) implies call_ensures(
        *culled,
        (spec_chunk_box(p),),
        true,
    ) by {
        assert(scanned_before(p, (x, z)));
    }
}

/// The scan of the draw list moves from the end of a row to the start of
/// the next: every buffer lies in a row between `z_lo` and `z_hi`.
pub proof fn lemma_draw_row<H, C: Fn(ChunkBox) -> bool>(
    world: WorldView<H>,
    culled: &C,
    cells: Seq<(int, int)>,
    x: int,
    z_hi: int,
    z_lo: int,
)
    requires
        spec_draw_progress(world, culled, cells, x, z_hi),
        forall|p: (int, int)| #[trigger] world.buffers.contains_key(p) ==> z_lo <= p.1 < z_hi,
    ensures
        spec_draw_progress(world, culled, cells, x + 1, z_lo),
{
    assert forall|p: (int, int)| #[trigger]
        world.buffers.contains_key(p) && scanned_before(p, (x + 1, z_lo)) && !cells.contains(p) implies call_ensures(
        *culled,
        (spec_chunk_box(p),),
        true,
    ) by {
        assert(scanned_before(p, (x, z_hi)));
    }
}

/// The scan of the draw list has gone through the window, and with it
/// through every buffer.
pub proof fn lemma_draw_done<H, C: Fn(ChunkBox) -> bool>(
    world: WorldView<H>,
    culled: &C,
    cells: Seq<(int, int)>,
    center: (int, int),
    x_hi: int,
    z_lo: int,
)
    requires
        world.wf(),
        world.center == Some(center),
        x_hi == center.0 + world.render_distance + 1,
        spec_draw_progress(world, culled, cells, x_hi, z_lo),
    ensures
        spec_draw_cells(world, culled, cells),
{
    assert forall|p: (int, int)| #[trigger] world.buffers.contains_key(p) && !cells.contains(p) implies call_ensures(
        *culled,
        (spec_chunk_box(p),),
        true,
    ) by {
        assert(world.chunks.contains_key(p));
        assert(world.streamed(p));
        assert(scanned_before(p, (x_hi, z_lo)));
    }
}

} // verus!
