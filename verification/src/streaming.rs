//! What an update tick does: the rule for each chunk coordinate of the
//! streaming window, and why a tick that goes through the window one
//! coordinate at a time satisfies it everywhere.

use vstd::prelude::*;
use crate::chunk::{spec_generated, ChunkView, MeshState};
use crate::chunk_buffer::ChunkBuffer;
use crate::chunk_mesh::{ChunkMesh, MeshView};
use crate::world::{
    in_window, scanned_before, spec_blocks_at, spec_lookup, spec_reached, window_fits, WorldView,
};

verus! {

/// The voxels that the chunk at `p` can copy from its sibling at `s` while
/// a tick is at `p`: those of a chunk that was resident before the tick, or
/// of one that the tick created before it came to `p`.
pub open spec fn spec_source<H>(
    before: WorldView<H>,
    after: Map<(int, int), ChunkView>,
    center: (int, int),
    p: (int, int),
    s: (int, int),
) -> Option<Seq<u8>> {
    if before.chunks.contains_key(s) {
        Some(before.chunks[s].blocks)
    } else if in_window(center, before.render_distance, s) && scanned_before(s, p) {
        Some(after[s].blocks)
    } else {
        None
    }
}

/// A chunk after at most one missing snapshot was resolved: the first one
/// that is missing, in the order left, right, front, back, is filled from
/// its source if the source exists. A missing snapshot without a source
/// stops the search.
pub open spec fn spec_resolved(
    chunk: ChunkView,
    left: Option<Seq<u8>>,
    right: Option<Seq<u8>>,
    front: Option<Seq<u8>>,
    back: Option<Seq<u8>>,
) -> ChunkView {
    if chunk.left.is_none() {
        match left {
            Some(voxels) => ChunkView { left: Some(voxels), ..chunk.invalidate() },
            None => chunk,
        }
    } else if chunk.right.is_none() {
        match right {
            Some(voxels) => ChunkView { right: Some(voxels), ..chunk.invalidate() },
            None => chunk,
        }
    } else if chunk.front.is_none() {
        match front {
            Some(voxels) => ChunkView { front: Some(voxels), ..chunk.invalidate() },
            None => chunk,
        }
    } else if chunk.back.is_none() {
        match back {
            Some(voxels) => ChunkView { back: Some(voxels), ..chunk.invalidate() },
            None => chunk,
        }
    } else {
        chunk
    }
}

/// Whether a tick makes a new buffer for a chunk: its mesh was replaced
/// since the last buffer was made, or it has a current mesh and no buffer.
pub open spec fn spec_rebuilds(chunk: ChunkView, had_buffer: bool) -> bool {
    chunk.needs_buffer || (!had_buffer && chunk.state == MeshState::Built)
}

/// What a tick leaves of one chunk, given the delivery that its build
/// protocol saw: the chunk has made its step and wants no buffer; its
/// buffer was made anew of the mesh that it then held, or is the one that
/// it had.
pub open spec fn spec_cell_outcome<H, U: Fn(&ChunkMesh) -> H>(
    upload: &U,
    resolved: ChunkView,
    had: Option<ChunkBuffer<H>>,
    delivered: Option<MeshView>,
    chunk_after: ChunkView,
    buffer_after: Option<ChunkBuffer<H>>,
) -> bool {
    let stepped = resolved.advance(delivered);
    &&& delivered.is_some() ==> delivered.unwrap().wf()
    &&& chunk_after == ChunkView { needs_buffer: false, ..stepped }
    &&& if spec_rebuilds(stepped, had.is_some()) {
        buffer_after.is_some() && buffer_after.unwrap().made_of(upload, stepped.mesh)
    } else {
        buffer_after == had
    }
}

/// The chunk that a tick starts from at `p`: the resident one, or where
/// there is none a fresh one with the voxels `blocks`.
pub open spec fn spec_start(entering: Option<ChunkView>, p: (int, int), blocks: Seq<u8>) -> ChunkView {
    match entering {
        Some(chunk) => chunk,
        None => ChunkView::fresh(p, blocks),
    }
}

/// What a tick does to the chunk coordinate `p` of its window.
///
/// `entering` is the chunk that was resident there, `had` its buffer, and
/// `left` to `back` the voxels that the four siblings offer. A missing chunk
/// is created with the terrain that `height` gives. Then at most one
/// snapshot is resolved, the build protocol makes one step for some
/// delivery, and the buffer is reconciled.
pub open spec fn spec_cell_rule<H, F: Fn(i32, i32) -> i32, U: Fn(&ChunkMesh) -> H>(
    height: &F,
    upload: &U,
    p: (int, int),
    entering: Option<ChunkView>,
    had: Option<ChunkBuffer<H>>,
    left: Option<Seq<u8>>,
    right: Option<Seq<u8>>,
    front: Option<Seq<u8>>,
    back: Option<Seq<u8>>,
    chunk_after: ChunkView,
    buffer_after: Option<ChunkBuffer<H>>,
) -> bool {
    &&& entering.is_none() ==> spec_generated(height, (p.0 * 16, p.1 * 16), chunk_after.blocks)
    &&& exists|delivered: Option<MeshView>| #[trigger]
        spec_cell_outcome(
            upload,
            spec_resolved(spec_start(entering, p, chunk_after.blocks), left, right, front, back),
            had,
            delivered,
            chunk_after,
            buffer_after,
        )
}

/// The rule of a cell holds where its outcome holds for one delivery.
pub proof fn lemma_cell_rule<H, F: Fn(i32, i32) -> i32, U: Fn(&ChunkMesh) -> H>(
    height: &F,
    upload: &U,
    p: (int, int),
    entering: Option<ChunkView>,
    had: Option<ChunkBuffer<H>>,
    left: Option<Seq<u8>>,
    right: Option<Seq<u8>>,
    front: Option<Seq<u8>>,
    back: Option<Seq<u8>>,
    chunk_after: ChunkView,
    buffer_after: Option<ChunkBuffer<H>>,
    delivered: Option<MeshView>,
)
    requires
        entering.is_none() ==> spec_generated(height, (p.0 * 16, p.1 * 16), chunk_after.blocks),
        spec_cell_outcome(
            upload,
            spec_resolved(spec_start(entering, p, chunk_after.blocks), left, right, front, back),
            had,
            delivered,
            chunk_after,
            buffer_after,
        ),
    ensures
        spec_cell_rule(
            height,
            upload,
            p,
            entering,
            had,
            left,
            right,
            front,
            back,
            chunk_after,
            buffer_after,
        ),
{
}

/// What a tick around `center` has done to the chunk coordinate `p` of its
/// window, between the world `before` it and the chunks and buffers
/// `after` it.
pub open spec fn spec_cell_ticked<H, F: Fn(i32, i32) -> i32, U: Fn(&ChunkMesh) -> H>(
    before: WorldView<H>,
    center: (int, int),
    height: &F,
    upload: &U,
    chunks: Map<(int, int), ChunkView>,
    buffers: Map<(int, int), ChunkBuffer<H>>,
    p: (int, int),
) -> bool {
    &&& chunks.contains_key(p)
    &&& spec_cell_rule(
        height,
        upload,
        p,
        spec_lookup(before.chunks, p),
        spec_lookup(before.buffers, p),
        spec_source(before, chunks, center, p, (p.0 - 1, p.1)),
        spec_source(before, chunks, center, p, (p.0 + 1, p.1)),
        spec_source(before, chunks, center, p, (p.0, p.1 - 1)),
        spec_source(before, chunks, center, p, (p.0, p.1 + 1)),
        chunks[p],
        spec_lookup(buffers, p),
    )
}

/// How far a tick around `center` has come when it stands at `(x, z)`,
/// between the world `before` it and the world `now`: the coordinates that
/// it has reached hold a chunk and satisfy the rule of the tick; all others
/// are as they were.
pub open spec fn spec_tick_progress<H, F: Fn(i32, i32) -> i32, U: Fn(&ChunkMesh) -> H>(
    before: WorldView<H>,
    now: WorldView<H>,
    center: (int, int),
    height: &F,
    upload: &U,
    x: int,
    z: int,
) -> bool {
    let r = before.render_distance;
    &&& now.render_distance == r
    &&& now.center == before.center
    &&& now.terrain == before.terrain
    &&& forall|p: (int, int)| #[trigger]
        now.chunks.contains_key(p) <==> before.chunks.contains_key(p) || spec_reached(center, r, x, z, p)
    &&& forall|p: (int, int)| #[trigger]
        before.chunks.contains_key(p) ==> now.chunks[p].blocks == before.chunks[p].blocks
    &&& forall|p: (int, int)|
        !spec_reached(center, r, x, z, p) ==> #[trigger] spec_lookup(now.chunks, p) == spec_lookup(
            before.chunks,
            p,
        )
    &&& forall|p: (int, int)|
        !spec_reached(center, r, x, z, p) ==> #[trigger] spec_lookup(now.buffers, p) == spec_lookup(
            before.buffers,
            p,
        )
    &&& forall|p: (int, int)|
        spec_reached(center, r, x, z, p) ==> #[trigger] spec_cell_ticked(
            before,
            center,
            height,
            upload,
            now.chunks,
            now.buffers,
            p,
        )
}

/// A tick keeps the voxels of a chunk that was resident.
pub proof fn lemma_cell_rule_keeps_voxels<H, F: Fn(i32, i32) -> i32, U: Fn(&ChunkMesh) -> H>(
    height: &F,
    upload: &U,
    p: (int, int),
    entering: Option<ChunkView>,
    had: Option<ChunkBuffer<H>>,
    left: Option<Seq<u8>>,
    right: Option<Seq<u8>>,
    front: Option<Seq<u8>>,
    back: Option<Seq<u8>>,
    chunk_after: ChunkView,
    buffer_after: Option<ChunkBuffer<H>>,
)
    requires
        spec_cell_rule(
            height,
            upload,
            p,
            entering,
            had,
            left,
            right,
            front,
            back,
            chunk_after,
            buffer_after,
        ),
    ensures
        entering.is_some() ==> chunk_after.blocks == entering.unwrap().blocks,
        entering.is_some() ==> chunk_after.local_position == entering.unwrap().local_position,
{
    let resolved = spec_resolved(spec_start(entering, p, chunk_after.blocks), left, right, front, back);
    let delivered = choose|delivered: Option<MeshView>| #[trigger]
        spec_cell_outcome(upload, resolved, had, delivered, chunk_after, buffer_after);
    assert(spec_cell_outcome(upload, resolved, had, delivered, chunk_after, buffer_after));
}

/// The tick moves on by one chunk coordinate: where the world `next` differs
/// from `now` at `(x, z)` alone, and `(x, z)` satisfies the rule of the
/// tick against `now`, the tick has come to `(x, z + 1)`.
pub proof fn lemma_tick_step<H, F: Fn(i32, i32) -> i32, U: Fn(&ChunkMesh) -> H>(
    before: WorldView<H>,
    now: WorldView<H>,
    next: WorldView<H>,
    center: (int, int),
    height: &F,
    upload: &U,
    x: int,
    z: int,
)
    requires
        spec_tick_progress(before, now, center, height, upload, x, z),
        in_window(center, before.render_distance, (x, z)),
        next.render_distance == now.render_distance,
        next.center == now.center,
        next.terrain == now.terrain,
        next.chunks.contains_key((x, z)),
        next.chunks == now.chunks.insert((x, z), next.chunks[(x, z)]),
        next.buffers.remove((x, z)) == now.buffers.remove((x, z)),
        spec_cell_rule(
            height,
            upload,
            (x, z),
            spec_lookup(now.chunks, (x, z)),
            spec_lookup(now.buffers, (x, z)),
            spec_blocks_at(now.chunks, (x - 1, z)),
            spec_blocks_at(now.chunks, (x + 1, z)),
            spec_blocks_at(now.chunks, (x, z - 1)),
            spec_blocks_at(now.chunks, (x, z + 1)),
            next.chunks[(x, z)],
            spec_lookup(next.buffers, (x, z)),
        ),
    ensures
        spec_tick_progress(before, next, center, height, upload, x, z + 1),
{
    let r = before.render_distance;
    let q = (x, z);
    assert(!spec_reached(center, r, x, z, q));
    assert(spec_lookup(now.chunks, q) == spec_lookup(before.chunks, q));
    assert(spec_lookup(now.buffers, q) == spec_lookup(before.buffers, q));
    lemma_cell_rule_keeps_voxels(
        height,
        upload,
        q,
        spec_lookup(now.chunks, q),
        spec_lookup(now.buffers, q),
        spec_blocks_at(now.chunks, (x - 1, z)),
        spec_blocks_at(now.chunks, (x + 1, z)),
        spec_blocks_at(now.chunks, (x, z - 1)),
        spec_blocks_at(now.chunks, (x, z + 1)),
        next.chunks[q],
        spec_lookup(next.buffers, q),
    );
    assert forall|p: (int, int)| p != q implies spec_lookup(next.buffers, p) == spec_lookup(now.buffers, p) by {
        assert(next.buffers.remove(q).contains_key(p) == now.buffers.remove(q).contains_key(p));
        assert(next.buffers.remove(q)[p] == now.buffers.remove(q)[p]);
    }
    assert forall|p: (int, int)| p != q implies spec_lookup(next.chunks, p) == spec_lookup(now.chunks, p) by {}
    assert forall|s: (int, int)| s != q implies #[trigger] spec_source(before, next.chunks, center, q, s)
        == spec_blocks_at(now.chunks, s) by {
        if before.chunks.contains_key(s) {
            assert(now.chunks.contains_key(s));
        } else if in_window(center, r, s) && scanned_before(s, q) {
            assert(spec_reached(center, r, x, z, s));
            assert(now.chunks.contains_key(s));
        } else {
            assert(!spec_reached(center, r, x, z, s));
            assert(!now.chunks.contains_key(s));
        }
    }
    assert(spec_source(before, next.chunks, center, q, (x - 1, z)) == spec_blocks_at(now.chunks, (x - 1, z)));
    assert(spec_source(before, next.chunks, center, q, (x + 1, z)) == spec_blocks_at(now.chunks, (x + 1, z)));
    assert(spec_source(before, next.chunks, center, q, (x, z - 1)) == spec_blocks_at(now.chunks, (x, z - 1)));
    assert(spec_source(before, next.chunks, center, q, (x, z + 1)) == spec_blocks_at(now.chunks, (x, z + 1)));
    assert(spec_cell_ticked(before, center, height, upload, next.chunks, next.buffers, q));
    assert forall|p: (int, int)| spec_reached(center, r, x, z + 1, p) implies #[trigger] spec_cell_ticked(
        before,
        center,
        height,
        upload,
        next.chunks,
        next.buffers,
        p,
    ) by {
        if p != q {
            assert(spec_reached(center, r, x, z, p));
            assert(spec_cell_ticked(before, center, height, upload, now.chunks, now.buffers, p));
            lemma_ticked_stable(before, center, height, upload, now.chunks, now.buffers, next.chunks, next.buffers, p);
        }
    }
    assert forall|p: (int, int)| #[trigger] before.chunks.contains_key(p) implies next.chunks[p].blocks
        == before.chunks[p].blocks by {
        if p != q {
            assert(now.chunks[p].blocks == before.chunks[p].blocks);
        }
    }
    assert forall|p: (int, int)| #[trigger]
        next.chunks.contains_key(p) <==> before.chunks.contains_key(p) || spec_reached(center, r, x, z + 1, p) by {
        if p != q {
            assert(now.chunks.contains_key(p) <==> before.chunks.contains_key(p) || spec_reached(
                center,
                r,
                x,
                z,
                p,
            ));
        }
    }
    assert forall|p: (int, int)| !spec_reached(center, r, x, z + 1, p) implies #[trigger] spec_lookup(
        next.chunks,
        p,
    ) == spec_lookup(before.chunks, p) by {
        assert(p != q);
        assert(!spec_reached(center, r, x, z, p));
        assert(spec_lookup(now.chunks, p) == spec_lookup(before.chunks, p));
    }
    assert forall|p: (int, int)| !spec_reached(center, r, x, z + 1, p) implies #[trigger] spec_lookup(
        next.buffers,
        p,
    ) == spec_lookup(before.buffers, p) by {
        assert(p != q);
        assert(!spec_reached(center, r, x, z, p));
        assert(spec_lookup(now.buffers, p) == spec_lookup(before.buffers, p));
    }
}

/// Whether the world `now` is the world `before` without the chunks and
/// buffers that an eviction from the window around `old_center` to the
/// window around `center` has dropped when it stands at `(x, z)`.
pub open spec fn spec_evicted<H>(
    before: WorldView<H>,
    now: WorldView<H>,
    old_center: (int, int),
    center: (int, int),
    x: int,
    z: int,
) -> bool {
    let r = before.render_distance;
    &&& forall|p: (int, int)| #[trigger]
        now.chunks.contains_key(p) <==> before.chunks.contains_key(p) && !(spec_reached(old_center, r, x, z, p)
            && !in_window(center, r, p))
    &&& forall|p: (int, int)| #[trigger] now.chunks.contains_key(p) ==> now.chunks[p] == before.chunks[p]
    &&& forall|p: (int, int)| #[trigger]
        now.buffers.contains_key(p) <==> before.buffers.contains_key(p) && !(spec_reached(old_center, r, x, z, p)
            && !in_window(center, r, p))
    &&& forall|p: (int, int)| #[trigger] now.buffers.contains_key(p) ==> now.buffers[p] == before.buffers[p]
}

/// A tick that has gone through a row of the window stands at the start of
/// the next row.
pub proof fn lemma_tick_row<H, F: Fn(i32, i32) -> i32, U: Fn(&ChunkMesh) -> H>(
    before: WorldView<H>,
    now: WorldView<H>,
    center: (int, int),
    height: &F,
    upload: &U,
    x: int,
)
    requires
        spec_tick_progress(
            before,
            now,
            center,
            height,
            upload,
            x,
            center.1 + before.render_distance + 1,
        ),
    ensures
        spec_tick_progress(
            before,
            now,
            center,
            height,
            upload,
            x + 1,
            center.1 - (before.render_distance + 1),
        ),
{
    let r = before.render_distance;
    assert forall|p: (int, int)| #[trigger]
        spec_reached(center, r, x, center.1 + r + 1, p) == spec_reached(center, r, x + 1, center.1 - (r + 1), p) by {}
    assert forall|p: (int, int)|
        spec_reached(center, r, x, center.1 + r + 1, p) == #[trigger] spec_reached(
            center,
            r,
            x + 1,
            center.1 - (r + 1),
            p,
        ) by {}
}

/// The end of a tick: after the window has been gone through and the
/// chunks outside it have been dropped, the resident chunks are exactly
/// those of the window, and each satisfies the rule of the tick.
pub proof fn lemma_tick_done<H, F: Fn(i32, i32) -> i32, U: Fn(&ChunkMesh) -> H>(
    before: WorldView<H>,
    swept: WorldView<H>,
    after: WorldView<H>,
    center: (int, int),
    height: &F,
    upload: &U,
)
    requires
        before.wf(),
        after.coherent(),
        after.render_distance == before.render_distance,
        after.center == Some(center),
        window_fits(center, before.render_distance),
        spec_tick_progress(
            before,
            swept,
            center,
            height,
            upload,
            center.0 + before.render_distance + 1,
            center.1 - (before.render_distance + 1),
        ),
        match before.center {
            Some(old_center) => spec_evicted(
                swept,
                after,
                old_center,
                center,
                old_center.0 + before.render_distance + 1,
                old_center.1 - (before.render_distance + 1),
            ),
            None => after.chunks == swept.chunks && after.buffers == swept.buffers,
        },
    ensures
        after.wf(),
        forall|p: (int, int)| #[trigger] after.resident(p) <==> in_window(center, before.render_distance, p),
        forall|p: (int, int)|
            in_window(center, before.render_distance, p) ==> #[trigger] spec_cell_ticked(
                before,
                center,
                height,
                upload,
                after.chunks,
                after.buffers,
                p,
            ),
{
    let r = before.render_distance;
    let x = center.0 + r + 1;
    let z = center.1 - (r + 1);
    assert forall|p: (int, int)| #[trigger] spec_reached(center, r, x, z, p) == in_window(center, r, p) by {}
    assert forall|p: (int, int)| #[trigger] after.chunks.contains_key(p) <==> in_window(center, r, p) by {
        assert(swept.chunks.contains_key(p) <==> before.chunks.contains_key(p) || spec_reached(center, r, x, z, p));
        assert(before.chunks.contains_key(p) <==> before.streamed(p));
        match before.center {
            Some(old_center) => {
                let ox = old_center.0 + r + 1;
                let oz = old_center.1 - (r + 1);
                assert(spec_reached(old_center, r, ox, oz, p) == in_window(old_center, r, p));
            },
            None => {},
        }
    }
    assert forall|p: (int, int)| in_window(center, r, p) implies #[trigger] spec_cell_ticked(
        before,
        center,
        height,
        upload,
        after.chunks,
        after.buffers,
        p,
    ) by {
        assert(spec_reached(center, r, x, z, p));
        assert(spec_cell_ticked(before, center, height, upload, swept.chunks, swept.buffers, p));
        assert forall|s: (int, int)| in_window(center, r, s) && swept.chunks.contains_key(s) implies #[trigger] after.chunks.contains_key(
            s,
        ) && after.chunks[s] == swept.chunks[s] by {}
        assert(after.chunks.contains_key(p));
        lemma_ticked_stable(before, center, height, upload, swept.chunks, swept.buffers, after.chunks, after.buffers, p);
    }
}

/// What the tick has done at `p` stays done while chunks and buffers
/// change elsewhere: the rule reads `p` itself and the voxels of siblings
/// that the tick reached before `p`.
pub proof fn lemma_ticked_stable<H, F: Fn(i32, i32) -> i32, U: Fn(&ChunkMesh) -> H>(
    before: WorldView<H>,
    center: (int, int),
    height: &F,
    upload: &U,
    chunks: Map<(int, int), ChunkView>,
    buffers: Map<(int, int), ChunkBuffer<H>>,
    chunks2: Map<(int, int), ChunkView>,
    buffers2: Map<(int, int), ChunkBuffer<H>>,
    p: (int, int),
)
    requires
        spec_cell_ticked(before, center, height, upload, chunks, buffers, p),
        spec_lookup(chunks2, p) == spec_lookup(chunks, p),
        spec_lookup(buffers2, p) == spec_lookup(buffers, p),
        forall|s: (int, int)|
            in_window(center, before.render_distance, s) && scanned_before(s, p) && chunks.contains_key(s)
                ==> #[trigger] chunks2.contains_key(s) && chunks2[s].blocks == chunks[s].blocks,
        forall|s: (int, int)|
            in_window(center, before.render_distance, s) && scanned_before(s, p) ==> #[trigger] chunks.contains_key(s)
                || before.chunks.contains_key(s),
    ensures
        spec_cell_ticked(before, center, height, upload, chunks2, buffers2, p),
{
    assert forall|s: (int, int)| #[trigger]
        spec_source(before, chunks2, center, p, s) == spec_source(before, chunks, center, p, s) by {
        if !before.chunks.contains_key(s) && in_window(center, before.render_distance, s) && scanned_before(s, p) {
            assert(chunks.contains_key(s));
            assert(chunks2.contains_key(s));
        }
    }
    assert(spec_source(before, chunks2, center, p, (p.0 - 1, p.1)) == spec_source(before, chunks, center, p, (p.0 - 1, p.1)));
    assert(spec_source(before, chunks2, center, p, (p.0 + 1, p.1)) == spec_source(before, chunks, center, p, (p.0 + 1, p.1)));
    assert(spec_source(before, chunks2, center, p, (p.0, p.1 - 1)) == spec_source(before, chunks, center, p, (p.0, p.1 - 1)));
    assert(spec_source(before, chunks2, center, p, (p.0, p.1 + 1)) == spec_source(before, chunks, center, p, (p.0, p.1 + 1)));
    assert(chunks2[p] == chunks[p]);
}

} // verus!
