//! The world: the registry of resident chunks and of their buffers, with
//! streaming around the observer, the initial generation, and edits.

use vstd::prelude::*;
use crate::block::AIR;
use crate::block_face::BlockFace;
use crate::build_queue::start_workers;
use crate::chunk::{spec_block_at, spec_generated, spec_with_block, valid_chunk_coord, Chunk, ChunkView};
use crate::chunk_buffer::ChunkBuffer;
use crate::chunk_mesh::{ChunkMesh, MeshView};
use crate::edits::{spec_edit, spec_spot, spec_touch, Edge, PLACED_BLOCK};
use crate::generation::{
    lemma_link_done, lemma_link_row, lemma_link_start, lemma_link_step, lemma_linked_same,
    spec_cell_created, spec_cell_generated, spec_link_progress, spec_link_state, spec_linked, spec_made,
};
use crate::registry::{is_coord, Registry};
use crate::voxels::SIZE;
use crate::streaming::{
    lemma_cell_rule, lemma_tick_done, lemma_tick_row, lemma_tick_step, spec_cell_outcome, spec_cell_rule,
    spec_cell_ticked, spec_evicted, spec_rebuilds, spec_resolved, spec_start, spec_tick_progress,
};
use crate::target::Target;
use crate::terrain::{spec_standard_terrain, Terrain};

verus! {

/// Largest render distance that a world can have.
pub const MAX_RENDER_DISTANCE: i32 = 16383;

/// Number of worker threads that build meshes.
pub const WORKERS: usize = 16;

/// The streaming voxel world.
///
/// `H` is whatever the renderer keeps for uploaded geometry.
pub struct World<H> {
    pub(crate) chunks: Registry<Chunk>,
    pub(crate) buffers: Registry<ChunkBuffer<H>>,
    pub(crate) pool: threadpool::ThreadPool,
    pub(crate) render_distance: i32,
    pub(crate) center: Option<(i32, i32)>,
    pub(crate) terrain: Terrain,
}

/// What a world holds.
pub ghost struct WorldView<H> {
    /// The resident chunks by chunk coordinate.
    pub chunks: Map<(int, int), ChunkView>,
    /// The buffers of the resident chunks that have one.
    pub buffers: Map<(int, int), ChunkBuffer<H>>,
    /// Radius, in chunks, that is kept meshed around the observer.
    pub render_distance: int,
    /// Chunk coordinate of the observer at the last update, if there was
    /// one.
    pub center: Option<(int, int)>,
    /// The parameters of the terrain that the world is generated with.
    pub terrain: Terrain,
}

/// Floor of `v / 16`: the chunk coordinate of world coordinate `v`.
pub open spec fn spec_chunk_coord(v: int) -> int {
    v / 16
}

/// Whether chunk coordinate `p` lies in the streaming window of an observer
/// in chunk `center` with render distance `r`: the square of side `2r + 2`
/// from `center - (r + 1)` up to, not including, `center + (r + 1)`.
pub open spec fn in_window(center: (int, int), r: int, p: (int, int)) -> bool {
    &&& center.0 - (r + 1) <= p.0 < center.0 + (r + 1)
    &&& center.1 - (r + 1) <= p.1 < center.1 + (r + 1)
}

/// Whether the streaming window around `center` holds valid chunk
/// coordinates only.
pub open spec fn window_fits(center: (int, int), r: int) -> bool {
    &&& valid_chunk_coord(center.0 - (r + 1))
    &&& valid_chunk_coord(center.0 + r)
    &&& valid_chunk_coord(center.1 - (r + 1))
    &&& valid_chunk_coord(center.1 + r)
}

/// What a map holds at `p`, if anything.
pub open spec fn spec_lookup<V>(m: Map<(int, int), V>, p: (int, int)) -> Option<V> {
    if m.contains_key(p) {
        Some(m[p])
    } else {
        None
    }
}

/// The voxels of the chunk at `p`, if the map holds one.
pub open spec fn spec_blocks_at(chunks: Map<(int, int), ChunkView>, p: (int, int)) -> Option<Seq<u8>> {
    if chunks.contains_key(p) {
        Some(chunks[p].blocks)
    } else {
        None
    }
}

/// Whether chunk coordinate `s` comes before `p` in the order in which a
/// tick goes through the window: by x, then by z.
pub open spec fn scanned_before(s: (int, int), p: (int, int)) -> bool {
    s.0 < p.0 || (s.0 == p.0 && s.1 < p.1)
}

/// The id of the voxel at world position `position`: that of the resident
/// chunk that owns the position, air above and below the build volume, and
/// nothing where no chunk is resident.
pub open spec fn spec_block<H>(world: WorldView<H>, position: (int, int, int)) -> Option<u8> {
    let c = (spec_chunk_coord(position.0), spec_chunk_coord(position.2));
    if !world.chunks.contains_key(c) {
        None
    } else if 0 <= position.1 < 256 {
        spec_block_at(world.chunks[c], position)
    } else {
        Some(AIR)
    }
}

/// The chunk coordinate of the chunk that owns world position `spot`.
pub open spec fn spec_owner(spot: (int, int, int)) -> (int, int) {
    (spec_chunk_coord(spot.0), spec_chunk_coord(spot.2))
}

/// Whether a tick around `center` that has come to `(x, z)` has reached
/// chunk coordinate `p`.
pub open spec fn spec_reached(center: (int, int), r: int, x: int, z: int, p: (int, int)) -> bool {
    in_window(center, r, p) && scanned_before(p, (x, z))
}

impl<H> WorldView<H> {
    /// Whether the chunks are valid, each is stored under its own
    /// coordinate, and only chunks that are stored have buffers.
    pub open spec fn coherent(&self) -> bool {
        &&& 0 <= self.render_distance <= MAX_RENDER_DISTANCE
        &&& forall|p: (int, int)| #[trigger]
            self.chunks.contains_key(p) ==> self.chunks[p].wf() && self.chunks[p].local_position == p
        &&& forall|p: (int, int)| #[trigger] self.buffers.contains_key(p) ==> self.chunks.contains_key(p)
    }

    /// Whether chunk coordinate `p` is resident.
    pub open spec fn resident(&self, p: (int, int)) -> bool {
        self.chunks.contains_key(p)
    }

    /// Whether chunk coordinate `p` lies in the window that the world
    /// streamed last.
    pub open spec fn streamed(&self, p: (int, int)) -> bool {
        match self.center {
            Some(center) => in_window(center, self.render_distance, p),
            None => false,
        }
    }

    /// Whether the world is in a valid state: the resident chunks are
    /// exactly those of the window streamed last, each is valid and stored
    /// under its own coordinate, and only resident chunks have buffers.
    pub open spec fn wf(&self) -> bool {
        &&& self.coherent()
        &&& match self.center {
            Some(center) => window_fits(center, self.render_distance),
            None => true,
        }
        &&& forall|p: (int, int)| #[trigger] self.chunks.contains_key(p) <==> self.streamed(p)
    }
}

impl<H> View for World<H> {
    type V = WorldView<H>;

    closed spec fn view(&self) -> WorldView<H> {
        WorldView {
            chunks: self.chunks@.map_values(|chunk: Chunk| chunk@),
            buffers: self.buffers@,
            render_distance: self.render_distance as int,
            center: match self.center {
                Some(center) => Some((center.0 as int, center.1 as int)),
                None => None,
            },
            terrain: self.terrain,
        }
    }
}

impl<H> World<H> {
    /// Whether the world is in a valid state.
    pub closed spec fn wf(&self) -> bool {
        &&& self@.wf()
        &&& self.coherent()
    }

    /// Whether the stored chunks are valid and coherent with the buffers.
    pub closed spec fn coherent(&self) -> bool {
        &&& self@.coherent()
        &&& self.valid_chunks()
    }

    /// Whether every stored chunk is valid and stored under its own
    /// coordinate.
    pub closed spec fn valid_chunks(&self) -> bool {
        forall|p: (int, int)| #[trigger]
            self.chunks@.contains_key(p) ==> self.chunks@[p].wf() && self.chunks@[p]@.wf()
                && self.chunks@[p]@.local_position == p
    }

    /// Valid chunks are valid in the view.
    proof fn lemma_valid_view(&self)
        requires
            self.valid_chunks(),
        ensures
            forall|p: (int, int)| #[trigger]
                self@.chunks.contains_key(p) ==> self@.chunks[p].wf() && self@.chunks[p].local_position == p,
    {
        assert forall|p: (int, int)| #[trigger] self@.chunks.contains_key(p) implies self@.chunks[p].wf()
            && self@.chunks[p].local_position == p by {
            assert(self.chunks@.contains_key(p));
        }
    }

    /// A world that differs from a coherent one at the chunk coordinate `p`
    /// alone, or by chunks that it holds in addition, is coherent if its
    /// chunks are valid and a buffer at `p` has its chunk.
    proof fn lemma_coherent(&self, before: WorldView<H>, p: (int, int))
        requires
            before.coherent(),
            self.valid_chunks(),
            self@.render_distance == before.render_distance,
            self@.buffers.contains_key(p) ==> self@.chunks.contains_key(p),
            forall|q: (int, int)| q != p && #[trigger] self@.buffers.contains_key(q) ==> before.buffers.contains_key(q),
            forall|q: (int, int)| q != p && #[trigger] before.chunks.contains_key(q) ==> self@.chunks.contains_key(q),
        ensures
            self.coherent(),
    {
        self.lemma_valid_view();
        assert forall|q: (int, int)| #[trigger] self@.buffers.contains_key(q) implies self@.chunks.contains_key(
            q,
        ) by {
            if q != p {
                assert(before.buffers.contains_key(q));
                assert(before.chunks.contains_key(q));
            }
        }
    }

    /// Takes the chunk at `(x, z)` out of the registry, if one is stored
    /// there.
    fn take(&mut self, x: i32, z: i32) -> (chunk: Option<Chunk>)
        requires
            old(self).valid_chunks(),
        ensures
            final(self).valid_chunks(),
            final(self).buffers == old(self).buffers,
            final(self).render_distance == old(self).render_distance,
            final(self).center == old(self).center,
            final(self).terrain == old(self).terrain,
            final(self)@.chunks == old(self)@.chunks.remove((x as int, z as int)),
            chunk.is_some() == old(self)@.chunks.contains_key((x as int, z as int)),
            chunk.is_some() ==> chunk.unwrap().wf() && chunk.unwrap()@ == old(self)@.chunks[(x as int, z as int)],
            chunk.is_some() ==> chunk.unwrap()@.wf() && chunk.unwrap()@.local_position == (x as int, z as int),
    {
        let ghost stored = self.chunks@;
        let chunk = self.chunks.remove(x, z);
        proof {
            assert(self@.chunks =~= old(self)@.chunks.remove((x as int, z as int)));
            assert forall|q: (int, int)| #[trigger] self.chunks@.contains_key(q) implies self.chunks@[q].wf()
                && self.chunks@[q]@.wf() && self.chunks@[q]@.local_position == q by {
                assert(stored.contains_key(q));
            }
        }
        chunk
    }

    /// Stores `chunk` at `(x, z)`, its own coordinate.
    fn put(&mut self, x: i32, z: i32, chunk: Chunk)
        requires
            old(self).valid_chunks(),
            chunk.wf(),
            chunk@.local_position == (x as int, z as int),
        ensures
            final(self).valid_chunks(),
            final(self).buffers == old(self).buffers,
            final(self).render_distance == old(self).render_distance,
            final(self).center == old(self).center,
            final(self).terrain == old(self).terrain,
            final(self)@.chunks == old(self)@.chunks.insert((x as int, z as int), chunk@),
    {
        let ghost stored = self.chunks@;
        proof {
            chunk.lemma_wf_view();
        }
        self.chunks.insert(x, z, chunk);
        proof {
            assert(self@.chunks =~= old(self)@.chunks.insert((x as int, z as int), chunk@));
            assert forall|q: (int, int)| #[trigger] self.chunks@.contains_key(q) implies self.chunks@[q].wf()
                && self.chunks@[q]@.wf() && self.chunks@[q]@.local_position == q by {
                if q != (x as int, z as int) {
                    assert(stored.contains_key(q));
                }
            }
        }
    }

    /// A valid world has a valid view.
    pub proof fn lemma_wf_view(&self)
        requires
            self.wf(),
        ensures
            self@.wf(),
    {
    }

    /// Creates a world without chunks that will stream `render_distance`
    /// chunks around the observer.
    pub fn new(render_distance: i32) -> (world: World<H>)
        requires
            0 <= render_distance <= MAX_RENDER_DISTANCE,
        ensures
            world.wf(),
            world@.render_distance == render_distance,
            world@.center.is_none(),
            world@.terrain == spec_standard_terrain(),
            world@.chunks == Map::<(int, int), ChunkView>::empty(),
            world@.buffers == Map::<(int, int), ChunkBuffer<H>>::empty(),
    {
        let world = World {
            chunks: Registry::new(),
            buffers: Registry::new(),
            pool: start_workers(WORKERS),
            render_distance,
            center: None,
            terrain: Terrain::standard(),
        };
        assert(world@.chunks =~= Map::<(int, int), ChunkView>::empty());
        world
    }

    /// The parameters of the terrain that the world is generated with.
    pub fn terrain(&self) -> (terrain: Terrain)
        ensures
            terrain == self@.terrain,
    {
        self.terrain
    }

    /// The render distance.
    pub fn render_distance(&self) -> (r: i32)
        ensures
            r == self@.render_distance,
    {
        self.render_distance
    }

    /// Chunk coordinate of the observer at the last update or generation.
    pub fn center(&self) -> (center: Option<(i32, i32)>)
        ensures
            match center {
                Some(c) => self@.center == Some((c.0 as int, c.1 as int)),
                None => self@.center.is_none(),
            },
    {
        self.center
    }

    /// Chunk coordinate of the chunk that holds world position `(x, z)`:
    /// each coordinate divided by the chunk's width, rounded down.
    pub fn to_local_position(x: i32, z: i32) -> (p: (i32, i32))
        ensures
            p.0 == spec_chunk_coord(x as int),
            p.1 == spec_chunk_coord(z as int),
            valid_chunk_coord(p.0 as int),
            valid_chunk_coord(p.1 as int),
    {
        (floor_sixteenth(x), floor_sixteenth(z))
    }

    /// Whether the world can stream around an observer at world position
    /// `position`: whether every chunk of the window around the observer's
    /// chunk has world coordinates.
    pub fn can_stream(&self, position: (i32, i32)) -> (fits: bool)
        ensures
            fits == window_fits(
                (spec_chunk_coord(position.0 as int), spec_chunk_coord(position.1 as int)),
                self@.render_distance,
            ),
    {
        let (cx, cz) = Self::to_local_position(position.0, position.1);
        let r: i64 = self.render_distance as i64;
        in_chunk_range(cx as i64 - (r + 1)) && in_chunk_range(cx as i64 + r) && in_chunk_range(
            cz as i64 - (r + 1),
        ) && in_chunk_range(cz as i64 + r)
    }

    /// The chunk that holds world position `(x, y, z)`, if it is resident.
    pub fn get_chunk(&self, x: i32, y: i32, z: i32) -> (chunk: Option<&Chunk>)
        requires
            self.wf(),
        ensures
            chunk.is_some() == self@.resident((spec_chunk_coord(x as int), spec_chunk_coord(z as int))),
            chunk.is_some() ==> chunk.unwrap().wf() && chunk.unwrap()@ == self@.chunks[(
                spec_chunk_coord(x as int),
                spec_chunk_coord(z as int),
            )],
    {
        let (cx, cz) = Self::to_local_position(x, z);
        self.chunks.get(cx, cz)
    }

    /// The id of the voxel at world position `(x, y, z)`. Above and below
    /// the build volume every voxel is air; where no chunk is resident
    /// there is no voxel.
    pub fn get_block(&self, x: i32, y: i32, z: i32) -> (id: Option<u8>)
        requires
            self.wf(),
        ensures
            id == spec_block(self@, (x as int, y as int, z as int)),
            self@.resident((spec_chunk_coord(x as int), spec_chunk_coord(z as int))) ==> id.is_some(),
    {
        match self.get_chunk(x, y, z) {
            Some(chunk) => {
                if 0 <= y && y < Chunk::HEIGHT {
                    chunk.block_at_world_position((x, y, z))
                } else {
                    Some(AIR)
                }
            },
            None => None,
        }
    }

    /// The buffer of the chunk at chunk coordinate `(x, z)`, if it has one.
    pub fn buffer(&self, x: i32, z: i32) -> (buffer: Option<&ChunkBuffer<H>>)
        ensures
            buffer.is_some() == self@.buffers.contains_key((x as int, z as int)),
            buffer.is_some() ==> *buffer.unwrap() == self@.buffers[(x as int, z as int)],
    {
        self.buffers.get(x, z)
    }

    /// One update tick for an observer at world position `position` (x and
    /// z, rounded down to whole voxels).
    ///
    /// The tick goes through the streaming window around the observer's
    /// chunk, by x and then by z. At each chunk coordinate it creates the
    /// chunk if it is missing, with the terrain that `height` gives; resolves
    /// at most one missing snapshot from a sibling that exists at that
    /// moment; lets the chunk make one step of its build protocol; and
    /// reconciles the chunk's buffer, made by `upload`. At the end it drops
    /// every chunk outside the window, with its buffer.
    pub fn update<F: Fn(i32, i32) -> i32, U: Fn(&ChunkMesh) -> H>(&mut self, position: (i32, i32), height: &F, upload: &U)
        requires
            old(self).wf(),
            window_fits(
                (spec_chunk_coord(position.0 as int), spec_chunk_coord(position.1 as int)),
                old(self)@.render_distance,
            ),
            forall|wx: i32, wz: i32| call_requires(*height, (wx, wz)),
            forall|mesh: ChunkMesh| call_requires(*upload, (&mesh,)),
        ensures
            final(self).wf(),
            final(self)@.render_distance == old(self)@.render_distance,
            final(self)@.terrain == old(self)@.terrain,
            final(self)@.center == Some(
                (spec_chunk_coord(position.0 as int), spec_chunk_coord(position.1 as int)),
            ),
            forall|p: (int, int)| #[trigger]
                final(self)@.resident(p) <==> in_window(
                    (spec_chunk_coord(position.0 as int), spec_chunk_coord(position.1 as int)),
                    old(self)@.render_distance,
                    p,
                ),
            forall|p: (int, int)|
                in_window(
                    (spec_chunk_coord(position.0 as int), spec_chunk_coord(position.1 as int)),
                    old(self)@.render_distance,
                    p,
                ) ==> #[trigger] spec_cell_ticked(
                    old(self)@,
                    (spec_chunk_coord(position.0 as int), spec_chunk_coord(position.1 as int)),
                    height,
                    upload,
                    final(self)@.chunks,
                    final(self)@.buffers,
                    p,
                ),
    {
        let (cx, cz) = Self::to_local_position(position.0, position.1);
        let r1: i32 = self.render_distance + 1;
        let ghost before = self@;
        let ghost center = (cx as int, cz as int);
        let ghost r = before.render_distance;
        let previous = self.center;
        let mut x: i32 = cx - r1;
        while x < cx + r1
            invariant
                cx - r1 <= x <= cx + r1,
                r1 == r + 1,
                r == self.render_distance,
                center == (cx as int, cz as int),
                window_fits(center, r),
                before.wf(),
                self.coherent(),
                spec_tick_progress(before, self@, center, height, upload, x as int, cz - r1),
                forall|wx: i32, wz: i32| call_requires(*height, (wx, wz)),
                forall|mesh: ChunkMesh| call_requires(*upload, (&mesh,)),
            decreases cx + r1 - x,
        {
            let mut z: i32 = cz - r1;
            while z < cz + r1
                invariant
                    cx - r1 <= x < cx + r1,
                    cz - r1 <= z <= cz + r1,
                    r1 == r + 1,
                    r == self.render_distance,
                    center == (cx as int, cz as int),
                    window_fits(center, r),
                    before.wf(),
                    self.coherent(),
                    spec_tick_progress(before, self@, center, height, upload, x as int, z as int),
                    forall|wx: i32, wz: i32| call_requires(*height, (wx, wz)),
                    forall|mesh: ChunkMesh| call_requires(*upload, (&mesh,)),
                decreases cz + r1 - z,
            {
                let ghost now = self@;
                self.tick_cell(x, z, height, upload);
                proof {
                    lemma_tick_step(before, now, self@, center, height, upload, x as int, z as int);
                }
                z += 1;
            }
            proof {
                lemma_tick_row(before, self@, center, height, upload, x as int);
            }
            x += 1;
        }
        let ghost swept = self@;
        match previous {
            Some(old_center) => {
                self.evict(old_center, (cx, cz));
            },
            None => {},
        }
        let ghost kept = self@;
        let ghost stored = self.chunks@;
        self.center = Some((cx, cz));
        proof {
            assert(self@.chunks == kept.chunks && self@.buffers == kept.buffers);
            assert(self.chunks@ == stored);
            assert(self@.coherent());
            lemma_tick_done(before, swept, self@, center, height, upload);
        }
    }

    /// Makes the tick's step for the chunk coordinate `(x, z)`: creates the
    /// chunk if it is missing, resolves at most one snapshot, drives the
    /// build protocol and reconciles the buffer.
    fn tick_cell<F: Fn(i32, i32) -> i32, U: Fn(&ChunkMesh) -> H>(&mut self, x: i32, z: i32, height: &F, upload: &U)
        requires
            old(self).coherent(),
            valid_chunk_coord(x as int),
            valid_chunk_coord(z as int),
            forall|wx: i32, wz: i32| call_requires(*height, (wx, wz)),
            forall|mesh: ChunkMesh| call_requires(*upload, (&mesh,)),
        ensures
            final(self).coherent(),
            final(self)@.render_distance == old(self)@.render_distance,
            final(self)@.center == old(self)@.center,
            final(self)@.terrain == old(self)@.terrain,
            final(self)@.chunks.contains_key((x as int, z as int)),
            final(self)@.chunks == old(self)@.chunks.insert(
                (x as int, z as int),
                final(self)@.chunks[(x as int, z as int)],
            ),
            final(self)@.buffers.remove((x as int, z as int)) == old(self)@.buffers.remove(
                (x as int, z as int),
            ),
            spec_cell_rule(
                height,
                upload,
                (x as int, z as int),
                spec_lookup(old(self)@.chunks, (x as int, z as int)),
                spec_lookup(old(self)@.buffers, (x as int, z as int)),
                spec_blocks_at(old(self)@.chunks, (x - 1, z as int)),
                spec_blocks_at(old(self)@.chunks, (x + 1, z as int)),
                spec_blocks_at(old(self)@.chunks, (x as int, z - 1)),
                spec_blocks_at(old(self)@.chunks, (x as int, z + 1)),
                final(self)@.chunks[(x as int, z as int)],
                spec_lookup(final(self)@.buffers, (x as int, z as int)),
            ),
    {
        let ghost p = (x as int, z as int);
        let ghost before = self@;
        let taken = self.take(x, z);
        let mut chunk = match taken {
            Some(chunk) => chunk,
            None => Chunk::new((x, z), height),
        };
        proof {
            chunk.lemma_wf_view();
        }
        let ghost start = chunk@;
        assert(start == spec_start(spec_lookup(before.chunks, p), p, start.blocks));
        self.resolve_snapshot(&mut chunk, x, z);
        let ghost resolved = chunk@;
        assert(resolved == spec_resolved(
            start,
            spec_blocks_at(before.chunks, (x - 1, z as int)),
            spec_blocks_at(before.chunks, (x + 1, z as int)),
            spec_blocks_at(before.chunks, (x as int, z - 1)),
            spec_blocks_at(before.chunks, (x as int, z + 1)),
        ));
        chunk.update(&mut self.pool);
        let ghost stepped = chunk@;
        let ghost delivered = choose|delivered: Option<MeshView>|
            (delivered.is_some() ==> delivered.unwrap().wf()) && #[trigger] resolved.advance(delivered)
                == stepped;
        assert(stepped.blocks == start.blocks && stepped.local_position == p);
        self.reconcile(&mut chunk, x, z, upload);
        let ghost after = chunk@;
        assert(spec_cell_outcome(
            upload,
            resolved,
            spec_lookup(before.buffers, p),
            delivered,
            after,
            spec_lookup(self@.buffers, p),
        ));
        self.put(x, z, chunk);
        proof {
            assert forall|q: (int, int)| q != p && #[trigger] self@.buffers.contains_key(q) implies before.buffers.contains_key(
                q,
            ) by {
                assert(self@.buffers.remove(p).contains_key(q));
                assert(before.buffers.remove(p).contains_key(q));
            }
            self.lemma_coherent(before, p);
            let entering = spec_lookup(before.chunks, p);
            assert(after.blocks == start.blocks);
            assert(spec_start(entering, p, after.blocks) == start);
            assert(entering.is_none() ==> spec_generated(height, (p.0 * 16, p.1 * 16), after.blocks));
            lemma_cell_rule(
                height,
                upload,
                p,
                entering,
                spec_lookup(before.buffers, p),
                spec_blocks_at(before.chunks, (x - 1, z as int)),
                spec_blocks_at(before.chunks, (x + 1, z as int)),
                spec_blocks_at(before.chunks, (x as int, z - 1)),
                spec_blocks_at(before.chunks, (x as int, z + 1)),
                after,
                spec_lookup(self@.buffers, p),
                delivered,
            );
        }
    }

    /// Resolves at most one missing snapshot of `chunk`, the chunk at
    /// `(x, z)`, from the stored siblings.
    fn resolve_snapshot(&self, chunk: &mut Chunk, x: i32, z: i32)
        requires
            self.valid_chunks(),
            old(chunk).wf(),
            valid_chunk_coord(x as int),
            valid_chunk_coord(z as int),
        ensures
            final(chunk).wf(),
            final(chunk)@ == spec_resolved(
                old(chunk)@,
                spec_blocks_at(self@.chunks, (x - 1, z as int)),
                spec_blocks_at(self@.chunks, (x + 1, z as int)),
                spec_blocks_at(self@.chunks, (x as int, z - 1)),
                spec_blocks_at(self@.chunks, (x as int, z + 1)),
            ),
    {
        if chunk.left().is_none() {
            match self.voxels_of(x - 1, z) {
                Some(voxels) => {
                    chunk.set_left(voxels);
                },
                None => {},
            }
        } else if chunk.right().is_none() {
            match self.voxels_of(x + 1, z) {
                Some(voxels) => {
                    chunk.set_right(voxels);
                },
                None => {},
            }
        } else if chunk.front().is_none() {
            match self.voxels_of(x, z - 1) {
                Some(voxels) => {
                    chunk.set_front(voxels);
                },
                None => {},
            }
        } else if chunk.back().is_none() {
            match self.voxels_of(x, z + 1) {
                Some(voxels) => {
                    chunk.set_back(voxels);
                },
                None => {},
            }
        }
    }

    /// The voxels of the chunk at `(x, z)`, if one is stored there: a full
    /// voxel array.
    fn voxels_of(&self, x: i32, z: i32) -> (voxels: Option<&Vec<u8>>)
        requires
            self.valid_chunks(),
        ensures
            voxels.is_some() == self@.chunks.contains_key((x as int, z as int)),
            voxels.is_some() ==> voxels.unwrap()@ == self@.chunks[(x as int, z as int)].blocks
                && voxels.unwrap()@.len() == SIZE,
    {
        match self.chunks.get(x, z) {
            Some(chunk) => Some(chunk.blocks()),
            None => None,
        }
    }

    /// Reconciles the buffer of `chunk`, the chunk at `(x, z)`: makes a new
    /// one of the chunk's mesh if the mesh was replaced, or if the chunk has
    /// a current mesh and no buffer; else keeps the one that is there.
    fn reconcile<U: Fn(&ChunkMesh) -> H>(&mut self, chunk: &mut Chunk, x: i32, z: i32, upload: &U)
        requires
            old(chunk).wf(),
            forall|mesh: ChunkMesh| call_requires(*upload, (&mesh,)),
        ensures
            final(chunk).wf(),
            final(chunk)@ == (ChunkView { needs_buffer: false, ..old(chunk)@ }),
            final(self).chunks == old(self).chunks,
            final(self).render_distance == old(self).render_distance,
            final(self).center == old(self).center,
            final(self).terrain == old(self).terrain,
            final(self)@.buffers.remove((x as int, z as int)) == old(self)@.buffers.remove(
                (x as int, z as int),
            ),
            if spec_rebuilds(old(chunk)@, old(self)@.buffers.contains_key((x as int, z as int))) {
                final(self)@.buffers.contains_key((x as int, z as int)) && final(self)@.buffers[(
                    x as int,
                    z as int,
                )].made_of(upload, old(chunk)@.mesh)
            } else {
                spec_lookup(final(self)@.buffers, (x as int, z as int)) == spec_lookup(
                    old(self)@.buffers,
                    (x as int, z as int),
                )
            },
    {
        let ghost p = (x as int, z as int);
        let ghost before = self@.buffers;
        let had = self.buffers.remove(x, z);
        let rebuild = chunk.needs_buffer() || (had.is_none() && chunk.has_mesh());
        if rebuild {
            let buffer = ChunkBuffer::new(upload, chunk.mesh());
            self.buffers.insert(x, z, buffer);
        } else {
            match had {
                Some(buffer) => {
                    self.buffers.insert(x, z, buffer);
                },
                None => {},
            }
        }
        chunk.set_needs_buffer(false);
        assert(self@.buffers.remove(p) =~= before.remove(p));
    }

    /// Drops every chunk of the window around `old_center` that is not in
    /// the window around `center`, with its buffer.
    fn evict(&mut self, old_center: (i32, i32), center: (i32, i32))
        requires
            old(self).coherent(),
            window_fits((old_center.0 as int, old_center.1 as int), old(self)@.render_distance),
            window_fits((center.0 as int, center.1 as int), old(self)@.render_distance),
        ensures
            final(self).coherent(),
            final(self)@.render_distance == old(self)@.render_distance,
            final(self)@.center == old(self)@.center,
            final(self)@.terrain == old(self)@.terrain,
            spec_evicted(
                old(self)@,
                final(self)@,
                (old_center.0 as int, old_center.1 as int),
                (center.0 as int, center.1 as int),
                old_center.0 + old(self)@.render_distance + 1,
                old_center.1 - (old(self)@.render_distance + 1),
            ),
    {
        let r1: i32 = self.render_distance + 1;
        let ghost before = self@;
        let ghost r = before.render_distance;
        let ghost oc = (old_center.0 as int, old_center.1 as int);
        let ghost c = (center.0 as int, center.1 as int);
        let mut x: i32 = old_center.0 - r1;
        while x < old_center.0 + r1
            invariant
                old_center.0 - r1 <= x <= old_center.0 + r1,
                r1 == r + 1,
                r == self.render_distance,
                oc == (old_center.0 as int, old_center.1 as int),
                c == (center.0 as int, center.1 as int),
                window_fits(oc, r),
                window_fits(c, r),
                self.coherent(),
                self@.render_distance == before.render_distance,
                self@.center == before.center,
                self@.terrain == before.terrain,
                spec_evicted(before, self@, oc, c, x as int, old_center.1 - r1),
            decreases old_center.0 + r1 - x,
        {
            let mut z: i32 = old_center.1 - r1;
            while z < old_center.1 + r1
                invariant
                    old_center.0 - r1 <= x < old_center.0 + r1,
                    old_center.1 - r1 <= z <= old_center.1 + r1,
                    r1 == r + 1,
                    r == self.render_distance,
                    oc == (old_center.0 as int, old_center.1 as int),
                    c == (center.0 as int, center.1 as int),
                    window_fits(oc, r),
                    window_fits(c, r),
                    self.coherent(),
                    self@.render_distance == before.render_distance,
                    self@.center == before.center,
                    self@.terrain == before.terrain,
                    spec_evicted(before, self@, oc, c, x as int, z as int),
                decreases old_center.1 + r1 - z,
            {
                let inside = center.0 - r1 <= x && x < center.0 + r1 && center.1 - r1 <= z && z < center.1 + r1;
                if !inside {
                    self.drop_cell(x, z);
                }
                z += 1;
            }
            x += 1;
        }
    }

    /// Drops the chunk at `(x, z)` and its buffer.
    fn drop_cell(&mut self, x: i32, z: i32)
        requires
            old(self).coherent(),
        ensures
            final(self).coherent(),
            final(self)@.render_distance == old(self)@.render_distance,
            final(self)@.center == old(self)@.center,
            final(self)@.terrain == old(self)@.terrain,
            final(self)@.chunks == old(self)@.chunks.remove((x as int, z as int)),
            final(self)@.buffers == old(self)@.buffers.remove((x as int, z as int)),
    {
        let ghost before = self@;
        self.take(x, z);
        self.buffers.remove(x, z);
        proof {
            self.lemma_coherent(before, (x as int, z as int));
        }
    }

    /// Generates the world around an observer at world position `position`
    /// from nothing: whatever was resident is dropped, every chunk of the
    /// streaming window is created with the terrain that `height` gives, and
    /// each gets a snapshot of every neighbour in the window at once. A
    /// chunk inside the window can so be meshed at the next tick; a chunk of
    /// the outer ring has no snapshot towards the outside and waits. No
    /// buffer exists afterwards.
    pub fn generate<F: Fn(i32, i32) -> i32>(&mut self, position: (i32, i32), height: &F)
        requires
            old(self).wf(),
            window_fits(
                (spec_chunk_coord(position.0 as int), spec_chunk_coord(position.1 as int)),
                old(self)@.render_distance,
            ),
            forall|wx: i32, wz: i32| call_requires(*height, (wx, wz)),
        ensures
            final(self).wf(),
            final(self)@.render_distance == old(self)@.render_distance,
            final(self)@.terrain == old(self)@.terrain,
            final(self)@.center == Some(
                (spec_chunk_coord(position.0 as int), spec_chunk_coord(position.1 as int)),
            ),
            final(self)@.buffers == Map::<(int, int), ChunkBuffer<H>>::empty(),
            forall|p: (int, int)| #[trigger]
                final(self)@.resident(p) <==> in_window(
                    (spec_chunk_coord(position.0 as int), spec_chunk_coord(position.1 as int)),
                    old(self)@.render_distance,
                    p,
                ),
            forall|p: (int, int)|
                in_window(
                    (spec_chunk_coord(position.0 as int), spec_chunk_coord(position.1 as int)),
                    old(self)@.render_distance,
                    p,
                ) ==> #[trigger] spec_cell_generated(height, final(self)@.chunks, p),
    {
        let (cx, cz) = Self::to_local_position(position.0, position.1);
        let ghost center = (cx as int, cz as int);
        let ghost r = self.render_distance as int;
        self.chunks = Registry::new();
        self.buffers = Registry::new();
        self.center = Some((cx, cz));
        assert(self@.chunks =~= Map::<(int, int), ChunkView>::empty());
        self.create_window(cx, cz, height);
        let ghost made = self@.chunks;
        self.link_window(cx, cz);
        proof {
            let done = self@.chunks;
            assert forall|p: (int, int)| in_window(center, r, p) implies #[trigger] spec_cell_generated(
                height,
                done,
                p,
            ) by {
                assert(made.contains_key(p));
                assert(spec_cell_created(height, made, p));
                assert(done.contains_key(p));
                assert(done[p] == spec_linked(made, p, made[p].blocks));
                lemma_linked_same(made, done, p);
            }
            assert forall|p: (int, int)| #[trigger] self@.chunks.contains_key(p) <==> self@.streamed(p) by {
                assert(made.contains_key(p) <==> in_window(center, r, p));
                assert(done.contains_key(p) <==> made.contains_key(p));
            }
        }
    }

    /// Creates every chunk of the window around `(cx, cz)`.
    fn create_window<F: Fn(i32, i32) -> i32>(&mut self, cx: i32, cz: i32, height: &F)
        requires
            old(self).coherent(),
            window_fits((cx as int, cz as int), old(self)@.render_distance),
            old(self)@.chunks == Map::<(int, int), ChunkView>::empty(),
            forall|wx: i32, wz: i32| call_requires(*height, (wx, wz)),
        ensures
            final(self).coherent(),
            final(self)@.render_distance == old(self)@.render_distance,
            final(self)@.center == old(self)@.center,
            final(self)@.terrain == old(self)@.terrain,
            final(self)@.buffers == old(self)@.buffers,
            forall|p: (int, int)| #[trigger]
                final(self)@.chunks.contains_key(p) <==> in_window(
                    (cx as int, cz as int),
                    old(self)@.render_distance,
                    p,
                ),
            forall|p: (int, int)| #[trigger]
                final(self)@.chunks.contains_key(p) ==> spec_cell_created(height, final(self)@.chunks, p),
    {
        let r1: i32 = self.render_distance + 1;
        let ghost center = (cx as int, cz as int);
        let ghost r = self.render_distance as int;
        let ghost before = self@;
        let mut x: i32 = cx - r1;
        while x < cx + r1
            invariant
                cx - r1 <= x <= cx + r1,
                r1 == r + 1,
                r == self.render_distance,
                center == (cx as int, cz as int),
                window_fits(center, r),
                self@.center == before.center,
                self@.terrain == before.terrain,
                self@.buffers == before.buffers,
                self.coherent(),
                forall|p: (int, int)| #[trigger]
                    self@.chunks.contains_key(p) <==> spec_reached(center, r, x as int, cz - r1, p),
                forall|p: (int, int)| #[trigger]
                    self@.chunks.contains_key(p) ==> spec_cell_created(height, self@.chunks, p),
                forall|wx: i32, wz: i32| call_requires(*height, (wx, wz)),
            decreases cx + r1 - x,
        {
            let mut z: i32 = cz - r1;
            while z < cz + r1
                invariant
                    cx - r1 <= x < cx + r1,
                    cz - r1 <= z <= cz + r1,
                    r1 == r + 1,
                    r == self.render_distance,
                    center == (cx as int, cz as int),
                    window_fits(center, r),
                    self@.center == before.center,
                    self@.terrain == before.terrain,
                    self@.buffers == before.buffers,
                    self.coherent(),
                    forall|p: (int, int)| #[trigger]
                        self@.chunks.contains_key(p) <==> spec_reached(center, r, x as int, z as int, p),
                    forall|p: (int, int)| #[trigger]
                        self@.chunks.contains_key(p) ==> spec_cell_created(height, self@.chunks, p),
                    forall|wx: i32, wz: i32| call_requires(*height, (wx, wz)),
                decreases cz + r1 - z,
            {
                let ghost now = self@.chunks;
                self.create_cell(x, z, height);
                proof {
                    assert forall|p: (int, int)| #[trigger]
                        self@.chunks.contains_key(p) <==> spec_reached(center, r, x as int, z + 1, p) by {
                        if p != (x as int, z as int) {
                            assert(now.contains_key(p) <==> spec_reached(center, r, x as int, z as int, p));
                        }
                    }
                }
                z += 1;
            }
            proof {
                assert forall|p: (int, int)| #[trigger]
                    self@.chunks.contains_key(p) <==> spec_reached(center, r, x + 1, cz - r1, p) by {
                    assert(self@.chunks.contains_key(p) <==> spec_reached(center, r, x as int, cz + r1, p));
                }
            }
            x += 1;
        }
        proof {
            assert forall|p: (int, int)| #[trigger] self@.chunks.contains_key(p) <==> in_window(center, r, p) by {
                assert(self@.chunks.contains_key(p) <==> spec_reached(center, r, cx + r1, cz - r1, p));
            }
        }
    }

    /// Creates the chunk at `(x, z)` with the terrain that `height` gives.
    fn create_cell<F: Fn(i32, i32) -> i32>(&mut self, x: i32, z: i32, height: &F)
        requires
            old(self).coherent(),
            valid_chunk_coord(x as int),
            valid_chunk_coord(z as int),
            forall|wx: i32, wz: i32| call_requires(*height, (wx, wz)),
            forall|p: (int, int)| #[trigger]
                old(self)@.chunks.contains_key(p) ==> spec_cell_created(height, old(self)@.chunks, p),
        ensures
            final(self).coherent(),
            final(self)@.render_distance == old(self)@.render_distance,
            final(self)@.center == old(self)@.center,
            final(self)@.terrain == old(self)@.terrain,
            final(self)@.buffers == old(self)@.buffers,
            final(self)@.chunks == old(self)@.chunks.insert(
                (x as int, z as int),
                final(self)@.chunks[(x as int, z as int)],
            ),
            forall|p: (int, int)| #[trigger]
                final(self)@.chunks.contains_key(p) ==> spec_cell_created(height, final(self)@.chunks, p),
    {
        let ghost p = (x as int, z as int);
        let ghost before = self@;
        let chunk = Chunk::new((x, z), height);
        self.put(x, z, chunk);
        proof {
            assert forall|q: (int, int)| #[trigger] self@.chunks.contains_key(q) implies spec_cell_created(
                height,
                self@.chunks,
                q,
            ) by {
                if q != p {
                    assert(before.chunks.contains_key(q));
                    assert(spec_cell_created(height, before.chunks, q));
                }
            }
            assert(before.buffers.contains_key(p) ==> before.chunks.contains_key(p));
            self.lemma_coherent(before, p);
        }
    }

    /// Links every chunk of the window around `(cx, cz)` to the chunks
    /// around it.
    fn link_window(&mut self, cx: i32, cz: i32)
        requires
            old(self).coherent(),
            window_fits((cx as int, cz as int), old(self)@.render_distance),
            forall|p: (int, int)| #[trigger]
                old(self)@.chunks.contains_key(p) <==> in_window(
                    (cx as int, cz as int),
                    old(self)@.render_distance,
                    p,
                ),
            forall|p: (int, int)| #[trigger]
                old(self)@.chunks.contains_key(p) ==> old(self)@.chunks[p] == ChunkView::fresh(
                    p,
                    old(self)@.chunks[p].blocks,
                ),
        ensures
            final(self).coherent(),
            final(self)@.render_distance == old(self)@.render_distance,
            final(self)@.center == old(self)@.center,
            final(self)@.terrain == old(self)@.terrain,
            final(self)@.buffers == old(self)@.buffers,
            forall|p: (int, int)| #[trigger]
                final(self)@.chunks.contains_key(p) <==> old(self)@.chunks.contains_key(p),
            forall|p: (int, int)| #[trigger]
                final(self)@.chunks.contains_key(p) ==> final(self)@.chunks[p] == spec_linked(
                    old(self)@.chunks,
                    p,
                    old(self)@.chunks[p].blocks,
                ),
    {
        let r1: i32 = self.render_distance + 1;
        let ghost center = (cx as int, cz as int);
        let ghost r = self.render_distance as int;
        let ghost before = self@;
        let ghost made = self@.chunks;
        proof {
            reveal(spec_made);
            assert(spec_made(made, center, r));
            lemma_link_start(made, center, r);
        }
        let mut x: i32 = cx - r1;
        while x < cx + r1
            invariant
                cx - r1 <= x <= cx + r1,
                r1 == r + 1,
                r == self.render_distance,
                center == (cx as int, cz as int),
                window_fits(center, r),
                self@.center == before.center,
                self@.terrain == before.terrain,
                self@.buffers == before.buffers,
                self.coherent(),
                spec_made(made, center, r),
                spec_link_progress(made, self@.chunks, center, r, x as int, cz - r1),
            decreases cx + r1 - x,
        {
            let mut z: i32 = cz - r1;
            while z < cz + r1
                invariant
                    cx - r1 <= x < cx + r1,
                    cz - r1 <= z <= cz + r1,
                    r1 == r + 1,
                    r == self.render_distance,
                    center == (cx as int, cz as int),
                    window_fits(center, r),
                    self@.center == before.center,
                    self@.terrain == before.terrain,
                    self@.buffers == before.buffers,
                    self.coherent(),
                    spec_made(made, center, r),
                    spec_link_progress(made, self@.chunks, center, r, x as int, z as int),
                decreases cz + r1 - z,
            {
                self.link_step(x, z, cx, cz, Ghost(made));
                z += 1;
            }
            proof {
                lemma_link_row(made, self@.chunks, center, r, x as int);
            }
            x += 1;
        }
        proof {
            lemma_link_done(made, self@.chunks, center, r);
        }
    }

    /// Links the chunk at `(x, z)` while the linking of the window around
    /// `(cx, cz)` stands there.
    fn link_step(&mut self, x: i32, z: i32, cx: i32, cz: i32, Ghost(made): Ghost<Map<(int, int), ChunkView>>)
        requires
            old(self).coherent(),
            window_fits((cx as int, cz as int), old(self)@.render_distance),
            in_window((cx as int, cz as int), old(self)@.render_distance, (x as int, z as int)),
            spec_made(made, (cx as int, cz as int), old(self)@.render_distance as int),
            spec_link_progress(
                made,
                old(self)@.chunks,
                (cx as int, cz as int),
                old(self)@.render_distance,
                x as int,
                z as int,
            ),
        ensures
            final(self).coherent(),
            final(self)@.render_distance == old(self)@.render_distance,
            final(self)@.center == old(self)@.center,
            final(self)@.terrain == old(self)@.terrain,
            final(self)@.buffers == old(self)@.buffers,
            spec_link_progress(
                made,
                final(self)@.chunks,
                (cx as int, cz as int),
                old(self)@.render_distance,
                x as int,
                z + 1,
            ),
    {
        let ghost center = (cx as int, cz as int);
        let ghost r = self.render_distance as int;
        let ghost now = self@.chunks;
        proof {
            reveal(spec_link_progress);
            reveal(spec_made);
            let q = (x as int, z as int);
            assert(made.contains_key(q));
            assert(now.contains_key(q));
            assert(!spec_reached(center, r, x as int, z as int, q));
            assert(now[q] == spec_link_state(made, center, r, x as int, z as int, q));
            assert(now[q] == made[q]);
        }
        self.link_cell(x, z);
        proof {
            lemma_link_step(made, now, self@.chunks, center, r, x as int, z as int);
        }
    }

    /// Gives the fresh chunk at `(x, z)` its snapshots: a copy of the voxels
    /// of each of the four chunks around it that is stored. Towards a side
    /// where no chunk is stored the snapshot stays absent.
    fn link_cell(&mut self, x: i32, z: i32)
        requires
            old(self).coherent(),
            valid_chunk_coord(x as int),
            valid_chunk_coord(z as int),
            old(self)@.chunks.contains_key((x as int, z as int)),
            old(self)@.chunks[(x as int, z as int)] == ChunkView::fresh(
                (x as int, z as int),
                old(self)@.chunks[(x as int, z as int)].blocks,
            ),
        ensures
            final(self).coherent(),
            final(self)@.render_distance == old(self)@.render_distance,
            final(self)@.center == old(self)@.center,
            final(self)@.terrain == old(self)@.terrain,
            final(self)@.buffers == old(self)@.buffers,
            final(self)@.chunks == old(self)@.chunks.insert(
                (x as int, z as int),
                spec_linked(
                    old(self)@.chunks,
                    (x as int, z as int),
                    old(self)@.chunks[(x as int, z as int)].blocks,
                ),
            ),
    {
        let ghost p = (x as int, z as int);
        let ghost before = self@;
        match self.take(x, z) {
            Some(mut chunk) => {
                let ghost start = chunk@;
                match self.voxels_of(x - 1, z) {
                    Some(voxels) => {
                        chunk.set_left(voxels);
                    },
                    None => {},
                }
                match self.voxels_of(x + 1, z) {
                    Some(voxels) => {
                        chunk.set_right(voxels);
                    },
                    None => {},
                }
                match self.voxels_of(x, z - 1) {
                    Some(voxels) => {
                        chunk.set_front(voxels);
                    },
                    None => {},
                }
                match self.voxels_of(x, z + 1) {
                    Some(voxels) => {
                        chunk.set_back(voxels);
                    },
                    None => {},
                }
                proof {
                    chunk.lemma_wf_view();
                }
                assert(chunk@ == spec_linked(before.chunks, p, start.blocks));
                self.put(x, z, chunk);
                proof {
                    self.lemma_coherent(before, p);
                }
            },
            None => {},
        }
    }

    /// Puts the placed block next to the target, across the face that the
    /// target names. Without a target, with a target that names no face, or
    /// where the voxel next to it is not in a resident chunk, nothing
    /// changes.
    pub fn place_block(&mut self, target: Option<&Target>)
        requires
            old(self).wf(),
        ensures
            final(self).wf(),
            final(self)@ == (match target {
                Some(t) => match spec_spot(t.position.triple(), t.face) {
                    Some(spot) => spec_edit(old(self)@, spot, PLACED_BLOCK),
                    None => old(self)@,
                },
                None => old(self)@,
            }),
    {
        match target {
            Some(t) => {
                if t.face == BlockFace::NoFace {
                    return;
                }
                let step = t.face.step();
                let x: i64 = t.position.x as i64 + step.0 as i64;
                let y: i64 = t.position.y as i64 + step.1 as i64;
                let z: i64 = t.position.z as i64 + step.2 as i64;
                if in_i32(x) && in_i32(y) && in_i32(z) {
                    self.edit((x as i32, y as i32, z as i32), PLACED_BLOCK);
                }
            },
            None => {},
        }
    }

    /// Removes the block at the target: the voxel becomes air. Without a
    /// target nothing changes.
    pub fn remove_block(&mut self, target: Option<&Target>)
        requires
            old(self).wf(),
        ensures
            final(self).wf(),
            final(self)@ == (match target {
                Some(t) => spec_edit(old(self)@, t.position.triple(), AIR),
                None => old(self)@,
            }),
    {
        match target {
            Some(t) => {
                self.edit((t.position.x, t.position.y, t.position.z), AIR);
            },
            None => {},
        }
    }

    /// Puts the block `id` at world position `spot` and invalidates the
    /// snapshot of the neighbour that the edit touches.
    fn edit(&mut self, spot: (i32, i32, i32), id: u8)
        requires
            old(self).wf(),
        ensures
            final(self).wf(),
            final(self)@ == spec_edit(old(self)@, (spot.0 as int, spot.1 as int, spot.2 as int), id),
    {
        let ghost before = self@;
        let ghost at = (spot.0 as int, spot.1 as int, spot.2 as int);
        let (cx, cz) = Self::to_local_position(spot.0, spot.2);
        if spot.1 < 0 || spot.1 >= 256 {
            return;
        }
        if !self.chunks.contains(cx, cz) {
            return;
        }
        self.set_block(cx, cz, spot, id);
        let lx: i32 = spot.0 - cx * 16;
        let lz: i32 = spot.2 - cz * 16;
        if lx == 0 {
            self.clear_snapshot(cx - 1, cz, Edge::Right);
        } else if lx == Chunk::WIDTH - 1 {
            self.clear_snapshot(cx + 1, cz, Edge::Left);
        } else if lz == 0 {
            self.clear_snapshot(cx, cz - 1, Edge::Back);
        } else if lz == Chunk::DEPTH - 1 {
            self.clear_snapshot(cx, cz + 1, Edge::Front);
        }
        assert(self@.chunks == spec_edit(before, at, id).chunks);
    }

    /// Puts the block `id` at world position `spot` of the resident chunk
    /// at `(x, z)`.
    fn set_block(&mut self, x: i32, z: i32, spot: (i32, i32, i32), id: u8)
        requires
            old(self).wf(),
            old(self)@.chunks.contains_key((x as int, z as int)),
        ensures
            final(self).wf(),
            final(self)@ == (WorldView {
                chunks: old(self)@.chunks.insert(
                    (x as int, z as int),
                    spec_with_block(
                        old(self)@.chunks[(x as int, z as int)],
                        (spot.0 as int, spot.1 as int, spot.2 as int),
                        id,
                    ),
                ),
                ..old(self)@
            }),
    {
        let ghost p = (x as int, z as int);
        let ghost before = self@;
        match self.take(x, z) {
            Some(mut chunk) => {
                chunk.set_block_at_world_position(spot, id);
                let ghost after = chunk@;
                self.put(x, z, chunk);
                proof {
                    assert(self@.chunks =~= before.chunks.insert(p, after));
                    self.lemma_kept(before, p);
                }
            },
            None => {},
        }
    }

    /// Invalidates the snapshot at `edge` of the chunk at `(x, z)`, if one is
    /// resident there.
    fn clear_snapshot(&mut self, x: i32, z: i32, edge: Edge)
        requires
            old(self).wf(),
        ensures
            final(self).wf(),
            final(self)@ == (WorldView {
                chunks: spec_touch(old(self)@.chunks, Some(((x as int, z as int), edge))),
                ..old(self)@
            }),
    {
        let ghost p = (x as int, z as int);
        let ghost before = self@;
        match self.take(x, z) {
            Some(mut chunk) => {
                match edge {
                    Edge::Left => {
                        chunk.clear_left();
                    },
                    Edge::Right => {
                        chunk.clear_right();
                    },
                    Edge::Front => {
                        chunk.clear_front();
                    },
                    Edge::Back => {
                        chunk.clear_back();
                    },
                }
                let ghost after = chunk@;
                self.put(x, z, chunk);
                proof {
                    assert(self@.chunks =~= before.chunks.insert(p, after));
                    self.lemma_kept(before, p);
                }
            },
            None => {
                assert(self@.chunks =~= before.chunks);
            },
        }
    }

    /// A world that holds valid chunks at the coordinates of a valid world,
    /// with that world's buffers, window and render distance, is valid;
    /// `p` is the coordinate whose chunk was replaced.
    proof fn lemma_kept(&self, before: WorldView<H>, p: (int, int))
        requires
            before.wf(),
            self.valid_chunks(),
            self@.buffers == before.buffers,
            self@.render_distance == before.render_distance,
            self@.center == before.center,
            self@.terrain == before.terrain,
            forall|q: (int, int)| #[trigger] self@.chunks.contains_key(q) <==> before.chunks.contains_key(q),
        ensures
            self.wf(),
    {
        assert forall|q: (int, int)| #[trigger] self@.chunks.contains_key(q) <==> self@.streamed(q) by {
            assert(before.chunks.contains_key(q) <==> before.streamed(q));
        }
        assert(before.buffers.contains_key(p) ==> before.chunks.contains_key(p));
        self.lemma_coherent(before, p);
    }
}

/// Whether `v` is a valid chunk coordinate.
fn in_chunk_range(v: i64) -> (valid: bool)
    ensures
        valid == valid_chunk_coord(v as int),
{
    -0x800_0000 <= v && v <= 0x7ff_ffff
}

/// Whether `v` fits a 32-bit signed integer.
fn in_i32(v: i64) -> (fits: bool)
    ensures
        fits == is_coord(v as int),
{
    -0x8000_0000 <= v && v <= 0x7fff_ffff
}

/// Floor of `v / 16`.
fn floor_sixteenth(v: i32) -> (q: i32)
    ensures
        q == v as int / 16,
        valid_chunk_coord(q as int),
{
    if v >= 0 {
        v / 16
    } else {
        -((-(v + 1)) / 16) - 1
    }
}

} // verus!
