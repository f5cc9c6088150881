//! What an edit does to the world: the voxel that changes, the chunk that
//! is marked for remeshing, and the one neighbour whose snapshot is
//! invalidated.

use vstd::prelude::*;
use crate::block::{AIR, STONE};
use crate::block_face::{spec_step, BlockFace};
use crate::chunk::{spec_block_at, spec_with_block, ChunkView};
use crate::registry::is_coord;
use crate::world::{spec_chunk_coord, spec_owner, WorldView};

verus! {

/// The block that placing puts into the world.
pub const PLACED_BLOCK: u8 = STONE;

/// One of the four snapshots of a chunk.
#[derive(Debug, Clone, Copy, PartialEq, Eq, Structural)]
pub enum Edge {
    Left,
    Right,
    Front,
    Back,
}

/// A chunk after its snapshot at `edge` was invalidated: the snapshot is
/// gone and the change is on record, so that the snapshot is fetched again
/// and the chunk remeshed.
pub open spec fn spec_cleared(chunk: ChunkView, edge: Edge) -> ChunkView {
    match edge {
        Edge::Left => ChunkView { left: None, ..chunk.invalidate() },
        Edge::Right => ChunkView { right: None, ..chunk.invalidate() },
        Edge::Front => ChunkView { front: None, ..chunk.invalidate() },
        Edge::Back => ChunkView { back: None, ..chunk.invalidate() },
    }
}

/// The chunk whose snapshot an edit at world position `spot` invalidates,
/// and which snapshot: the neighbour across the chunk boundary that the
/// edited voxel lies on. A boundary in x counts before one in z; a voxel
/// inside the chunk touches no neighbour.
pub open spec fn spec_touched(spot: (int, int, int)) -> Option<((int, int), Edge)> {
    let cx = spec_chunk_coord(spot.0);
    let cz = spec_chunk_coord(spot.2);
    let lx = spot.0 - 16 * cx;
    let lz = spot.2 - 16 * cz;
    if lx == 0 {
        Some(((cx - 1, cz), Edge::Right))
    } else if lx == 15 {
        Some(((cx + 1, cz), Edge::Left))
    } else if lz == 0 {
        Some(((cx, cz - 1), Edge::Back))
    } else if lz == 15 {
        Some(((cx, cz + 1), Edge::Front))
    } else {
        None
    }
}

/// Whether an edit at world position `spot` changes the world: the chunk
/// that owns the position is resident and the position is inside the build
/// volume.
pub open spec fn spec_editable<H>(world: WorldView<H>, spot: (int, int, int)) -> bool {
    world.chunks.contains_key((spec_chunk_coord(spot.0), spec_chunk_coord(spot.2))) && 0 <= spot.1 < 256
}

/// The chunks after a snapshot was invalidated at `touched`, if a chunk is
/// there.
pub open spec fn spec_touch(chunks: Map<(int, int), ChunkView>, touched: Option<((int, int), Edge)>) -> Map<
    (int, int),
    ChunkView,
> {
    match touched {
        Some((n, edge)) => if chunks.contains_key(n) {
            chunks.insert(n, spec_cleared(chunks[n], edge))
        } else {
            chunks
        },
        None => chunks,
    }
}

/// The world after the block `id` was put at world position `spot`: the
/// owning chunk holds the block and is marked for remeshing, and the
/// neighbour that the edit touches has lost its snapshot of the owning
/// chunk. Where the edit changes nothing, the world is as before.
pub open spec fn spec_edit<H>(world: WorldView<H>, spot: (int, int, int), id: u8) -> WorldView<H> {
    let c = (spec_chunk_coord(spot.0), spec_chunk_coord(spot.2));
    if spec_editable(world, spot) {
        WorldView {
            chunks: spec_touch(
                world.chunks.insert(c, spec_with_block(world.chunks[c], spot, id)),
                spec_touched(spot),
            ),
            ..world
        }
    } else {
        world
    }
}

/// The world position next to `position` across `face`, if `face` is a face
/// and the position exists.
pub open spec fn spec_spot(position: (int, int, int), face: BlockFace) -> Option<(int, int, int)> {
    let step = spec_step(face);
    let spot = (position.0 + step.0, position.1 + step.1, position.2 + step.2);
    if face != BlockFace::NoFace && is_coord(spot.0) && is_coord(spot.1) && is_coord(spot.2) {
        Some(spot)
    } else {
        None
    }
}

/// Scope of an edit: it changes the owning chunk and at most the one
/// neighbour that it touches. No chunk comes or goes, no other chunk
/// changes, and no buffer does.
pub proof fn lemma_edit_scope<H>(world: WorldView<H>, spot: (int, int, int), id: u8)
    requires
        world.wf(),
    ensures
        spec_edit(world, spot, id).buffers == world.buffers,
        forall|q: (int, int)| #[trigger]
            spec_edit(world, spot, id).chunks.contains_key(q) == world.chunks.contains_key(q),
        forall|q: (int, int)|
            q != spec_owner(spot) && (spec_touched(spot).is_none() || q != spec_touched(spot).unwrap().0)
                ==> #[trigger] spec_edit(world, spot, id).chunks[q] == world.chunks[q],
{
}

/// An edit on the chunk boundary at local x = 0 invalidates the right
/// snapshot of the neighbour at (cx - 1, cz), and nothing else of any
/// chunk but the owner: the neighbour keeps its voxels and its three other
/// snapshots, and every other chunk stays as it is.
pub proof fn lemma_edit_at_left_boundary<H>(world: WorldView<H>, spot: (int, int, int), id: u8)
    requires
        world.wf(),
        spec_editable(world, spot),
        spot.0 - 16 * spec_chunk_coord(spot.0) == 0,
    ensures
        spec_touched(spot) == Some(((spec_owner(spot).0 - 1, spec_owner(spot).1), Edge::Right)),
        world.chunks.contains_key((spec_owner(spot).0 - 1, spec_owner(spot).1)) ==> spec_edit(
            world,
            spot,
            id,
        ).chunks[(spec_owner(spot).0 - 1, spec_owner(spot).1)] == (ChunkView {
            right: None,
            ..world.chunks[(spec_owner(spot).0 - 1, spec_owner(spot).1)].invalidate()
        }),
        forall|q: (int, int)|
            q != spec_owner(spot) && q != (spec_owner(spot).0 - 1, spec_owner(spot).1)
                ==> #[trigger] spec_edit(world, spot, id).chunks[q] == world.chunks[q],
        spec_edit(world, spot, id).chunks[spec_owner(spot)] == spec_with_block(
            world.chunks[spec_owner(spot)],
            spot,
            id,
        ),
{
}

/// An edit inside a chunk, away from its four boundaries, invalidates no
/// neighbour: every chunk but the owner stays as it is.
pub proof fn lemma_interior_edit<H>(world: WorldView<H>, spot: (int, int, int), id: u8)
    requires
        world.wf(),
        0 < spot.0 - 16 * spec_chunk_coord(spot.0) < 15,
        0 < spot.2 - 16 * spec_chunk_coord(spot.2) < 15,
    ensures
        spec_touched(spot).is_none(),
        forall|q: (int, int)| q != spec_owner(spot) ==> #[trigger] spec_edit(world, spot, id).chunks[q]
            == world.chunks[q],
{
}

/// Every edit that changes the world puts the block at the position and
/// leaves the owning chunk in need of a remesh; so does it leave the
/// neighbour that it touches.
pub proof fn lemma_edit_marks_for_remesh<H>(world: WorldView<H>, spot: (int, int, int), id: u8)
    requires
        world.wf(),
        spec_editable(world, spot),
    ensures
        spec_block_at(spec_edit(world, spot, id).chunks[spec_owner(spot)], spot) == Some(id),
        spec_edit(world, spot, id).chunks[spec_owner(spot)].needs_remesh(),
        spec_touched(spot).is_some() && world.chunks.contains_key(spec_touched(spot).unwrap().0)
            ==> spec_edit(world, spot, id).chunks[spec_touched(spot).unwrap().0].needs_remesh(),
        spec_edit(world, spot, id).wf(),
        spec_editable(spec_edit(world, spot, id), spot),
{
}

/// Round trip: placing a block into an air voxel and removing it again
/// gives every chunk its voxels back. Each of the two edits leaves the
/// owning chunk in need of a remesh, and both touch the same neighbour, if
/// any.
pub proof fn lemma_place_then_remove<H>(world: WorldView<H>, spot: (int, int, int))
    requires
        world.wf(),
        spec_editable(world, spot),
        spec_block_at(world.chunks[spec_owner(spot)], spot) == Some(AIR),
    ensures
        forall|q: (int, int)| #[trigger]
            world.chunks.contains_key(q) ==> spec_edit(
                spec_edit(world, spot, PLACED_BLOCK),
                spot,
                AIR,
            ).chunks[q].blocks == world.chunks[q].blocks,
        spec_block_at(spec_edit(world, spot, PLACED_BLOCK).chunks[spec_owner(spot)], spot) == Some(
            PLACED_BLOCK,
        ),
        spec_edit(world, spot, PLACED_BLOCK).chunks[spec_owner(spot)].needs_remesh(),
        spec_edit(spec_edit(world, spot, PLACED_BLOCK), spot, AIR).chunks[spec_owner(spot)].needs_remesh(),
{
    let c = spec_owner(spot);
    let placed = spec_edit(world, spot, PLACED_BLOCK);
    let removed = spec_edit(placed, spot, AIR);
    lemma_edit_marks_for_remesh(world, spot, PLACED_BLOCK);
    lemma_edit_marks_for_remesh(placed, spot, AIR);
    assert forall|q: (int, int)| #[trigger] world.chunks.contains_key(q) implies removed.chunks[q].blocks
        == world.chunks[q].blocks by {
        if q == c {
            assert(removed.chunks[c].blocks =~= world.chunks[c].blocks);
        }
    }
}

} // verus!
