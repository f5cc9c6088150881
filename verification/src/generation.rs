//! What the initial generation leaves: fresh chunks, each linked to the
//! chunks around it.

use vstd::prelude::*;
use crate::chunk::{lemma_generation_deterministic, spec_generated, ChunkView};
use crate::world::{in_window, spec_blocks_at, spec_reached};

verus! {

/// A chunk as the initial generation leaves it: fresh, with a snapshot of
/// each of the four chunks around it that exists. Towards a side where
/// there is no chunk the snapshot is absent, so that the chunk is not meshed
/// before that neighbour exists.
pub open spec fn spec_linked(chunks: Map<(int, int), ChunkView>, p: (int, int), blocks: Seq<u8>) -> ChunkView {
    ChunkView {
        left: spec_blocks_at(chunks, (p.0 - 1, p.1)),
        right: spec_blocks_at(chunks, (p.0 + 1, p.1)),
        front: spec_blocks_at(chunks, (p.0, p.1 - 1)),
        back: spec_blocks_at(chunks, (p.0, p.1 + 1)),
        ..ChunkView::fresh(p, blocks)
    }
}

/// Whether the chunk at `p` is as the initial generation leaves it: its
/// voxels are the terrain that `height` gives, and it is linked to the
/// chunks around it.
pub open spec fn spec_cell_generated<F: Fn(i32, i32) -> i32>(
    height: &F,
    chunks: Map<(int, int), ChunkView>,
    p: (int, int),
) -> bool {
    &&& chunks.contains_key(p)
    &&& spec_generated(height, (p.0 * 16, p.1 * 16), chunks[p].blocks)
    &&& chunks[p] == spec_linked(chunks, p, chunks[p].blocks)
}

/// After the initial generation a chunk has a snapshot towards a side
/// exactly where the window holds a chunk on that side. So a chunk is ready
/// to be meshed if and only if all four chunks around it are in the window;
/// the chunks of the outer ring are not.
pub proof fn lemma_generated_snapshots<F: Fn(i32, i32) -> i32>(
    height: &F,
    chunks: Map<(int, int), ChunkView>,
    center: (int, int),
    r: int,
    p: (int, int),
)
    requires
        forall|q: (int, int)| #[trigger] chunks.contains_key(q) <==> in_window(center, r, q),
        spec_cell_generated(height, chunks, p),
    ensures
        chunks[p].left.is_some() <==> in_window(center, r, (p.0 - 1, p.1)),
        chunks[p].right.is_some() <==> in_window(center, r, (p.0 + 1, p.1)),
        chunks[p].front.is_some() <==> in_window(center, r, (p.0, p.1 - 1)),
        chunks[p].back.is_some() <==> in_window(center, r, (p.0, p.1 + 1)),
        chunks[p].left.is_some() ==> chunks[p].left == Some(chunks[(p.0 - 1, p.1)].blocks),
        chunks[p].ready() <==> in_window(center, r, (p.0 - 1, p.1)) && in_window(center, r, (p.0 + 1, p.1))
            && in_window(center, r, (p.0, p.1 - 1)) && in_window(center, r, (p.0, p.1 + 1)),
{
    assert(chunks.contains_key((p.0 - 1, p.1)) <==> in_window(center, r, (p.0 - 1, p.1)));
    assert(chunks.contains_key((p.0 + 1, p.1)) <==> in_window(center, r, (p.0 + 1, p.1)));
    assert(chunks.contains_key((p.0, p.1 - 1)) <==> in_window(center, r, (p.0, p.1 - 1)));
    assert(chunks.contains_key((p.0, p.1 + 1)) <==> in_window(center, r, (p.0, p.1 + 1)));
}

/// Determinism of generation: where the height function gives one height
/// for each column, two generations leave the same voxels at every chunk
/// coordinate that both hold.
pub proof fn lemma_generations_agree<F: Fn(i32, i32) -> i32>(
    height: &F,
    first: Map<(int, int), ChunkView>,
    second: Map<(int, int), ChunkView>,
    p: (int, int),
)
    requires
        spec_cell_generated(height, first, p),
        spec_cell_generated(height, second, p),
        forall|x: i32, z: i32, h1: i32, h2: i32|
            #[trigger] call_ensures(*height, (x, z), h1) && #[trigger] call_ensures(*height, (x, z), h2) ==> h1
                == h2,
    ensures
        first[p].blocks == second[p].blocks,
{
    lemma_generation_deterministic(height, (p.0 * 16, p.1 * 16), first[p].blocks, second[p].blocks);
}

/// Whether the chunk at `p` is as it was created: fresh, with the terrain
/// that `height` gives.
pub open spec fn spec_cell_created<F: Fn(i32, i32) -> i32>(
    height: &F,
    chunks: Map<(int, int), ChunkView>,
    p: (int, int),
) -> bool {
    &&& chunks.contains_key(p)
    &&& spec_generated(height, (p.0 * 16, p.1 * 16), chunks[p].blocks)
    &&& chunks[p] == ChunkView::fresh(p, chunks[p].blocks)
}

/// How far the linking of freshly made chunks has come when it stands at
/// `(x, z)`: the chunks that it has reached are linked, the others are as
/// they were made.
#[verifier::opaque]
pub open spec fn spec_link_progress(
    made: Map<(int, int), ChunkView>,
    now: Map<(int, int), ChunkView>,
    center: (int, int),
    r: int,
    x: int,
    z: int,
) -> bool {
    &&& forall|p: (int, int)| #[trigger] now.contains_key(p) <==> made.contains_key(p)
    &&& forall|p: (int, int)| #[trigger] now.contains_key(p) ==> now[p].blocks == made[p].blocks
    &&& forall|p: (int, int)| #[trigger]
        now.contains_key(p) ==> now[p] == spec_link_state(made, center, r, x, z, p)
}

/// The chunk at `p` while the linking stands at `(x, z)`: linked if the
/// linking has reached it, else as it was made.
pub open spec fn spec_link_state(
    made: Map<(int, int), ChunkView>,
    center: (int, int),
    r: int,
    x: int,
    z: int,
    p: (int, int),
) -> ChunkView {
    if spec_reached(center, r, x, z, p) {
        spec_linked(made, p, made[p].blocks)
    } else {
        made[p]
    }
}

/// The linking moves on by one chunk coordinate.
pub proof fn lemma_link_step(
    made: Map<(int, int), ChunkView>,
    now: Map<(int, int), ChunkView>,
    next: Map<(int, int), ChunkView>,
    center: (int, int),
    r: int,
    x: int,
    z: int,
)
    requires
        spec_link_progress(made, now, center, r, x, z),
        in_window(center, r, (x, z)),
        now.contains_key((x, z)),
        next == now.insert((x, z), spec_linked(now, (x, z), now[(x, z)].blocks)),
    ensures
        spec_link_progress(made, next, center, r, x, z + 1),
{
    reveal(spec_link_progress);
    let q = (x, z);
    lemma_linked_same(now, made, q);
    assert(!spec_reached(center, r, x, z, q));
    assert(now[q] == spec_link_state(made, center, r, x, z, q));
    assert(now[q] == made[q]);
    assert forall|p: (int, int)| #[trigger] next.contains_key(p) implies next[p] == spec_link_state(
        made,
        center,
        r,
        x,
        z + 1,
        p,
    ) by {
        if p != q {
            assert(now.contains_key(p));
            assert(now[p] == spec_link_state(made, center, r, x, z, p));
            assert(spec_reached(center, r, x, z + 1, p) == spec_reached(center, r, x, z, p));
        }
    }
    assert forall|p: (int, int)| #[trigger] next.contains_key(p) implies next[p].blocks == made[p].blocks by {
        if p != q {
            assert(now.contains_key(p));
        }
    }
}

/// Whether `made` holds a fresh chunk at every chunk coordinate of the
/// window around `center`, and nothing else.
#[verifier::opaque]
pub open spec fn spec_made(made: Map<(int, int), ChunkView>, center: (int, int), r: int) -> bool {
    &&& forall|p: (int, int)| #[trigger] made.contains_key(p) <==> in_window(center, r, p)
    &&& forall|p: (int, int)| #[trigger] made.contains_key(p) ==> made[p] == ChunkView::fresh(p, made[p].blocks)
}

/// Before the linking has reached any chunk, the chunks are as they were
/// made.
pub proof fn lemma_link_start(made: Map<(int, int), ChunkView>, center: (int, int), r: int)
    ensures
        spec_link_progress(made, made, center, r, center.0 - (r + 1), center.1 - (r + 1)),
{
    let x = center.0 - (r + 1);
    let z = center.1 - (r + 1);
    assert forall|p: (int, int)| !#[trigger] spec_reached(center, r, x, z, p) by {}
    assert forall|p: (int, int)| #[trigger] made.contains_key(p) implies made[p] == spec_link_state(
        made,
        center,
        r,
        x,
        z,
        p,
    ) by {
        assert(!spec_reached(center, r, x, z, p));
    }
    reveal(spec_link_progress);
}

/// When the linking has gone through the window, every chunk is linked.
pub proof fn lemma_link_done(
    made: Map<(int, int), ChunkView>,
    done: Map<(int, int), ChunkView>,
    center: (int, int),
    r: int,
)
    requires
        spec_made(made, center, r),
        spec_link_progress(made, done, center, r, center.0 + r + 1, center.1 - (r + 1)),
    ensures
        forall|p: (int, int)| #[trigger] done.contains_key(p) <==> made.contains_key(p),
        forall|p: (int, int)| #[trigger]
            done.contains_key(p) ==> done[p] == spec_linked(made, p, made[p].blocks),
{
    reveal(spec_link_progress);
    reveal(spec_made);
    assert forall|p: (int, int)| #[trigger] done.contains_key(p) implies done[p] == spec_linked(
        made,
        p,
        made[p].blocks,
    ) by {
        assert(made.contains_key(p));
        assert(spec_reached(center, r, center.0 + r + 1, center.1 - (r + 1), p));
        assert(done[p] == spec_link_state(made, center, r, center.0 + r + 1, center.1 - (r + 1), p));
    }
}

/// A linking that has gone through a row of the window stands at the start
/// of the next row.
pub proof fn lemma_link_row(
    made: Map<(int, int), ChunkView>,
    now: Map<(int, int), ChunkView>,
    center: (int, int),
    r: int,
    x: int,
)
    requires
        spec_link_progress(made, now, center, r, x, center.1 + r + 1),
    ensures
        spec_link_progress(made, now, center, r, x + 1, center.1 - (r + 1)),
{
    reveal(spec_link_progress);
    assert forall|p: (int, int)| #[trigger] now.contains_key(p) implies now[p] == spec_link_state(
        made,
        center,
        r,
        x + 1,
        center.1 - (r + 1),
        p,
    ) by {
        assert(now[p] == spec_link_state(made, center, r, x, center.1 + r + 1, p));
        assert(spec_reached(center, r, x, center.1 + r + 1, p) == spec_reached(
            center,
            r,
            x + 1,
            center.1 - (r + 1),
            p,
        ));
    }
}

/// Linking reads the voxels of the chunks around a chunk and nothing else:
/// two sets of chunks that hold the same coordinates with the same voxels
/// link alike.
pub proof fn lemma_linked_same(
    chunks: Map<(int, int), ChunkView>,
    others: Map<(int, int), ChunkView>,
    p: (int, int),
)
    requires
        forall|s: (int, int)| #[trigger] chunks.contains_key(s) <==> others.contains_key(s),
        forall|s: (int, int)| #[trigger] chunks.contains_key(s) ==> chunks[s].blocks == others[s].blocks,
    ensures
        forall|blocks: Seq<u8>| #[trigger] spec_linked(chunks, p, blocks) == spec_linked(others, p, blocks),
{
    assert(chunks.contains_key((p.0 - 1, p.1)) <==> others.contains_key((p.0 - 1, p.1)));
    assert(chunks.contains_key((p.0 + 1, p.1)) <==> others.contains_key((p.0 + 1, p.1)));
    assert(chunks.contains_key((p.0, p.1 - 1)) <==> others.contains_key((p.0, p.1 - 1)));
    assert(chunks.contains_key((p.0, p.1 + 1)) <==> others.contains_key((p.0, p.1 + 1)));
}

} // verus!
