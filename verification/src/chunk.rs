//! A chunk: a fixed-size column of voxels with cached copies of its four
//! neighbours' voxels, its mesh, and the state of its mesh build.

use vstd::prelude::*;
use crate::block::{AIR, GRASS, WATER};
use crate::build_queue::{open_delivery, submit, take_delivered};
use crate::chunk_mesh::{ChunkMesh, MeshView};
use crate::mesher::{MeshJob, Surround};
use crate::vectors::copy_of;
use crate::voxels::{
    in_chunk, lemma_coordinates_of_index, lemma_index_of_coordinates, spec_index, spec_x, spec_y, spec_z,
    SIZE,
};

verus! {

/// Where a chunk stands with its mesh.
#[derive(Debug, Clone, Copy, PartialEq, Eq, Structural)]
pub enum MeshState {
    /// No mesh of the current voxels exists and none is being built.
    NotBuilt,
    /// A build has been handed to a worker and its result is awaited.
    Building,
    /// The installed mesh was built from the current voxels and snapshots.
    Built,
}

/// A fixed-size column of voxels, the unit of streaming and meshing.
pub struct Chunk {
    pub(crate) local_position: (i32, i32),
    pub(crate) world_position: (i32, i32),
    pub(crate) blocks: Vec<u8>,
    pub(crate) mesh: ChunkMesh,
    pub(crate) state: MeshState,
    pub(crate) invalidated: bool,
    pub(crate) needs_buffer: bool,
    pub(crate) sender: crossbeam::channel::Sender<ChunkMesh>,
    pub(crate) receiver: crossbeam::channel::Receiver<ChunkMesh>,
    pub(crate) left: Option<Vec<u8>>,
    pub(crate) right: Option<Vec<u8>>,
    pub(crate) front: Option<Vec<u8>>,
    pub(crate) back: Option<Vec<u8>>,
}

/// What a chunk holds, apart from the ends of its delivery channel.
pub ghost struct ChunkView {
    /// Chunk coordinate (chunk-x, chunk-z).
    pub local_position: (int, int),
    /// The voxel array.
    pub blocks: Seq<u8>,
    /// Snapshot of the neighbour towards -x, if cached.
    pub left: Option<Seq<u8>>,
    /// Snapshot of the neighbour towards +x, if cached.
    pub right: Option<Seq<u8>>,
    /// Snapshot of the neighbour towards -z, if cached.
    pub front: Option<Seq<u8>>,
    /// Snapshot of the neighbour towards +z, if cached.
    pub back: Option<Seq<u8>>,
    /// The installed mesh.
    pub mesh: MeshView,
    /// State of the mesh build.
    pub state: MeshState,
    /// Whether the voxels or a snapshot changed while the build in flight
    /// was under way.
    pub invalidated: bool,
    /// Whether the installed mesh has not been turned into a buffer yet.
    pub needs_buffer: bool,
}

/// The view of an optional voxel array.
pub open spec fn snapshot_view(snapshot: Option<Vec<u8>>) -> Option<Seq<u8>> {
    match snapshot {
        Some(voxels) => Some(voxels@),
        None => None,
    }
}

/// Whether a snapshot is a full copy of a voxel array, or absent.
pub open spec fn full_or_absent(snapshot: Option<Seq<u8>>) -> bool {
    match snapshot {
        Some(voxels) => voxels.len() == SIZE,
        None => true,
    }
}

/// Smallest chunk coordinate whose voxels have world coordinates.
pub const MIN_CHUNK: i32 = -0x800_0000;

/// Largest chunk coordinate whose voxels have world coordinates.
pub const MAX_CHUNK: i32 = 0x7ff_ffff;

/// Height of the sea: terrain below it is under water.
pub const SEA_LEVEL: i32 = 60;

/// Whether `c` is a chunk coordinate whose voxels have world coordinates
/// that fit a 32-bit integer.
pub open spec fn valid_chunk_coord(c: int) -> bool {
    MIN_CHUNK <= c <= MAX_CHUNK
}

/// The id at height `y` of a column whose terrain height is `height`: ground
/// at and below the terrain height, water from there up to the sea level,
/// air above both.
pub open spec fn spec_column_id(height: int, y: int) -> u8 {
    if y <= height {
        GRASS
    } else if y <= SEA_LEVEL {
        WATER
    } else {
        AIR
    }
}

/// Whether column `(x, z)` of a voxel array is the fill of terrain height
/// `height`.
pub open spec fn spec_column_filled(blocks: Seq<u8>, x: int, z: int, height: int) -> bool {
    forall|y: int| 0 <= y < 256 ==> #[trigger] blocks[spec_index(x, y, z)] == spec_column_id(height, y)
}

/// Whether a voxel array is the terrain of the chunk whose first voxel is
/// at world position `origin`, for the height function `height`: every
/// column is the fill of a height that `height` gives for the column's world
/// coordinates.
pub open spec fn spec_generated<F: Fn(i32, i32) -> i32>(height: &F, origin: (int, int), blocks: Seq<u8>) -> bool {
    &&& blocks.len() == SIZE
    &&& forall|x: int, z: int|
        0 <= x < 16 && 0 <= z < 16 ==> #[trigger] spec_column_generated(height, origin, blocks, x, z)
}

/// Whether column `(x, z)` of a voxel array is the fill of a height that
/// `height` gives for the column's world coordinates.
pub open spec fn spec_column_generated<F: Fn(i32, i32) -> i32>(
    height: &F,
    origin: (int, int),
    blocks: Seq<u8>,
    x: int,
    z: int,
) -> bool {
    exists|h: i32|
        #[trigger] call_ensures(*height, ((x + origin.0) as i32, (z + origin.1) as i32), h)
            && spec_column_filled(blocks, x, z, h as int)
}

/// Determinism of terrain: where the height function gives one height for
/// each column, the voxels of a chunk are determined; two generations of the
/// same chunk hold the same voxels.
pub proof fn lemma_generation_deterministic<F: Fn(i32, i32) -> i32>(
    height: &F,
    origin: (int, int),
    first: Seq<u8>,
    second: Seq<u8>,
)
    requires
        spec_generated(height, origin, first),
        spec_generated(height, origin, second),
        forall|x: i32, z: i32, h1: i32, h2: i32|
            #[trigger] call_ensures(*height, (x, z), h1) && #[trigger] call_ensures(*height, (x, z), h2) ==> h1
                == h2,
    ensures
        first == second,
{
    assert forall|i: int| 0 <= i < SIZE implies first[i] == second[i] by {
        let x = spec_x(i);
        let y = spec_y(i);
        let z = spec_z(i);
        lemma_index_of_coordinates(i);
        assert(spec_column_generated(height, origin, first, x, z));
        assert(spec_column_generated(height, origin, second, x, z));
        let h1 = choose|h: i32|
            #[trigger] call_ensures(*height, ((x + origin.0) as i32, (z + origin.1) as i32), h)
                && spec_column_filled(first, x, z, h as int);
        let h2 = choose|h: i32|
            #[trigger] call_ensures(*height, ((x + origin.0) as i32, (z + origin.1) as i32), h)
                && spec_column_filled(second, x, z, h as int);
        assert(h1 == h2);
        assert(first[spec_index(x, y, z)] == spec_column_id(h1 as int, y));
        assert(second[spec_index(x, y, z)] == spec_column_id(h2 as int, y));
    }
    assert(first =~= second);
}

impl ChunkView {
    /// A chunk as it is created: the given voxels, no snapshot, no mesh,
    /// no build under way.
    pub open spec fn fresh(local_position: (int, int), blocks: Seq<u8>) -> ChunkView {
        ChunkView {
            local_position: local_position,
            blocks: blocks,
            left: None,
            right: None,
            front: None,
            back: None,
            mesh: MeshView::empty(),
            state: MeshState::NotBuilt,
            invalidated: false,
            needs_buffer: false,
        }
    }

    /// Whether all four neighbour snapshots are cached.
    pub open spec fn has_neighbours(&self) -> bool {
        self.left.is_some() && self.right.is_some() && self.front.is_some() && self.back.is_some()
    }

    /// World position of the chunk's first voxel.
    pub open spec fn origin(&self) -> (int, int) {
        (self.local_position.0 * 16, self.local_position.1 * 16)
    }

    /// Whether the chunk is in a valid state: a full voxel array at a valid
    /// coordinate, snapshots that are full voxel arrays where they are
    /// cached, an index-local mesh, and an invalidation on record only while
    /// a build is in flight.
    pub open spec fn wf(&self) -> bool {
        &&& self.blocks.len() == SIZE
        &&& valid_chunk_coord(self.local_position.0)
        &&& valid_chunk_coord(self.local_position.1)
        &&& full_or_absent(self.left)
        &&& full_or_absent(self.right)
        &&& full_or_absent(self.front)
        &&& full_or_absent(self.back)
        &&& self.invalidated ==> self.state == MeshState::Building
        &&& self.mesh.wf()
    }

    /// Whether a build can be submitted: none is in flight, the installed
    /// mesh is not current, and all four snapshots are cached.
    pub open spec fn ready(&self) -> bool {
        self.state == MeshState::NotBuilt && self.has_neighbours()
    }

    /// Whether a build is outstanding.
    pub open spec fn in_flight(&self) -> bool {
        self.state == MeshState::Building
    }

    /// Whether the installed mesh falls short of the current voxels and
    /// snapshots, so that a build is owed.
    pub open spec fn needs_remesh(&self) -> bool {
        self.state == MeshState::NotBuilt || (self.state == MeshState::Building && self.invalidated)
    }

    /// The voxels that a build of this chunk reads.
    pub open spec fn surround(&self) -> Surround
        recommends
            self.has_neighbours(),
    {
        Surround {
            blocks: self.blocks,
            left: self.left.unwrap(),
            right: self.right.unwrap(),
            front: self.front.unwrap(),
            back: self.back.unwrap(),
        }
    }

    /// The chunk after its voxels or one of its snapshots changed: a
    /// current mesh is current no more, and a build in flight is marked as
    /// stale.
    pub open spec fn invalidate(self) -> ChunkView {
        ChunkView {
            state: if self.state == MeshState::Built { MeshState::NotBuilt } else { self.state },
            invalidated: self.state == MeshState::Building,
            ..self
        }
    }

    /// The chunk after `mesh` was delivered: the mesh replaces the
    /// installed one and wants a buffer. The build that was in flight is
    /// over; its mesh is current unless the chunk was invalidated meanwhile.
    pub open spec fn install(self, mesh: MeshView) -> ChunkView {
        ChunkView {
            mesh: mesh,
            needs_buffer: true,
            state: if self.state == MeshState::Building {
                if self.invalidated { MeshState::NotBuilt } else { MeshState::Built }
            } else {
                self.state
            },
            invalidated: false,
            ..self
        }
    }

    /// The chunk after it was given the chance to submit a build: it does
    /// so if and only if it is ready.
    pub open spec fn submit(self) -> ChunkView {
        if self.ready() {
            ChunkView { state: MeshState::Building, invalidated: false, ..self }
        } else {
            self
        }
    }

    /// One step of the build protocol: a delivered mesh, if any, is
    /// installed, then a build is submitted if the chunk is ready.
    pub open spec fn advance(self, delivered: Option<MeshView>) -> ChunkView {
        match delivered {
            Some(mesh) => self.install(mesh).submit(),
            None => self.submit(),
        }
    }
}

impl View for Chunk {
    type V = ChunkView;

    closed spec fn view(&self) -> ChunkView {
        ChunkView {
            local_position: (self.local_position.0 as int, self.local_position.1 as int),
            blocks: self.blocks@,
            left: snapshot_view(self.left),
            right: snapshot_view(self.right),
            front: snapshot_view(self.front),
            back: snapshot_view(self.back),
            mesh: self.mesh@,
            state: self.state,
            invalidated: self.invalidated,
            needs_buffer: self.needs_buffer,
        }
    }
}

/// Single in-flight build: while a build is outstanding, a step of the
/// protocol without a delivery submits nothing and changes nothing.
pub proof fn lemma_single_build_in_flight(chunk: ChunkView)
    requires
        chunk.in_flight(),
    ensures
        !chunk.ready(),
        chunk.advance(None) == chunk,
{
}

/// A submission is made only by a chunk without an outstanding build, and
/// leaves it with exactly one.
pub proof fn lemma_submission_starts_single_build(chunk: ChunkView)
    requires
        chunk.ready(),
    ensures
        !chunk.in_flight(),
        chunk.submit().in_flight(),
        !chunk.submit().ready(),
{
}

/// A stale result is followed by a fresh submission: when a mesh arrives
/// for a chunk that was invalidated while the build was under way, the mesh
/// is installed and, where all four snapshots are cached, the same step
/// submits the next build.
pub proof fn lemma_stale_result_resubmits(chunk: ChunkView, mesh: MeshView)
    requires
        chunk.in_flight(),
        chunk.invalidated,
    ensures
        chunk.advance(Some(mesh)).mesh == mesh,
        chunk.advance(Some(mesh)).needs_buffer,
        chunk.install(mesh).ready() == chunk.has_neighbours(),
        chunk.has_neighbours() ==> chunk.advance(Some(mesh)).in_flight(),
        !chunk.has_neighbours() ==> chunk.advance(Some(mesh)).needs_remesh(),
{
}

/// What happens to a chunk between two of its states.
pub ghost enum ChunkEvent {
    /// A step of the build protocol that saw the given delivery.
    Step(Option<MeshView>),
    /// A change of the voxels or of a snapshot: an edit, a snapshot that is
    /// cached or one that is dropped.
    Change,
    /// The mark that the mesh wants a buffer is set or cleared.
    Mark,
}

/// Whether `after` is the state that `event` leaves of the state `before`.
/// A step sees a delivery only while a build is outstanding: nothing but a
/// submitted build puts a mesh into the chunk's channel.
pub open spec fn spec_follows(before: ChunkView, event: ChunkEvent, after: ChunkView) -> bool {
    match event {
        ChunkEvent::Step(delivered) => (delivered.is_some() ==> before.in_flight()) && after
            == before.advance(delivered),
        ChunkEvent::Change => after == (ChunkView {
            blocks: after.blocks,
            left: after.left,
            right: after.right,
            front: after.front,
            back: after.back,
            ..before.invalidate()
        }),
        ChunkEvent::Mark => after == (ChunkView { needs_buffer: after.needs_buffer, ..before }),
    }
}

/// Whether `event` submits a build when it happens in the state `before`.
pub open spec fn spec_submits(before: ChunkView, event: ChunkEvent) -> bool {
    match event {
        ChunkEvent::Step(Some(mesh)) => before.install(mesh).ready(),
        ChunkEvent::Step(None) => before.ready(),
        _ => false,
    }
}

/// Whether `event` installs a delivered mesh.
pub open spec fn spec_installs(event: ChunkEvent) -> bool {
    event matches ChunkEvent::Step(Some(_))
}

/// Whether `states` and `events` are a history of a chunk: it starts
/// without a build outstanding, and each event leads from one state to the
/// next.
pub open spec fn spec_history(states: Seq<ChunkView>, events: Seq<ChunkEvent>) -> bool {
    &&& states.len() == events.len() + 1
    &&& !states[0].in_flight()
    &&& forall|i: int| 0 <= i < events.len() ==> spec_follows(states[i], #[trigger] events[i], states[i + 1])
}

/// Number of builds that the first `n` events of a history submit.
pub open spec fn spec_submitted(states: Seq<ChunkView>, events: Seq<ChunkEvent>, n: nat) -> nat
    decreases n,
{
    if n == 0 {
        0
    } else {
        spec_submitted(states, events, (n - 1) as nat) + if spec_submits(states[n - 1], events[n - 1]) {
            1nat
        } else {
            0nat
        }
    }
}

/// Number of meshes that the first `n` events of a history install.
pub open spec fn spec_installed(events: Seq<ChunkEvent>, n: nat) -> nat
    decreases n,
{
    if n == 0 {
        0
    } else {
        spec_installed(events, (n - 1) as nat) + if spec_installs(events[n - 1]) { 1nat } else { 0nat }
    }
}

/// Single in-flight build over a whole history: after any number of steps,
/// edits and snapshot changes, the builds submitted so far are the meshes
/// installed so far, and one more exactly while a build is in flight. So no
/// two builds are ever outstanding, and every mesh that is installed is that
/// of the one build submitted last.
pub proof fn lemma_history_single_build(states: Seq<ChunkView>, events: Seq<ChunkEvent>, n: nat)
    requires
        spec_history(states, events),
        n <= events.len(),
    ensures
        spec_submitted(states, events, n) == spec_installed(events, n) + if states[n as int].in_flight() {
            1nat
        } else {
            0nat
        },
    decreases n,
{
    if n > 0 {
        lemma_history_single_build(states, events, (n - 1) as nat);
        assert(spec_follows(states[n - 1], events[n - 1], states[n as int]));
    }
}

/// A result that is still current ends the build: the chunk is built and
/// submits nothing.
pub proof fn lemma_current_result_completes(chunk: ChunkView, mesh: MeshView)
    requires
        chunk.in_flight(),
        !chunk.invalidated,
    ensures
        chunk.advance(Some(mesh)).state == MeshState::Built,
        chunk.advance(Some(mesh)).mesh == mesh,
        chunk.advance(Some(mesh)).needs_buffer,
{
}

/// The protocol keeps a chunk valid.
pub proof fn lemma_advance_keeps_wf(chunk: ChunkView, delivered: Option<MeshView>)
    requires
        chunk.wf(),
        delivered.is_some() ==> delivered.unwrap().wf(),
    ensures
        chunk.advance(delivered).wf(),
        chunk.invalidate().wf(),
{
}

/// The view of an optional mesh.
pub open spec fn spec_delivery(delivered: Option<ChunkMesh>) -> Option<MeshView> {
    match delivered {
        Some(mesh) => Some(mesh@),
        None => None,
    }
}

impl Chunk {
    /// Whether the chunk is in a valid state.
    pub closed spec fn wf(&self) -> bool {
        &&& self@.wf()
        &&& self.world_position.0 == self.local_position.0 * 16
        &&& self.world_position.1 == self.local_position.1 * 16
    }

    /// A valid chunk has a valid view.
    pub proof fn lemma_wf_view(&self)
        requires
            self.wf(),
        ensures
            self@.wf(),
    {
    }

    /// Creates the chunk at chunk coordinate `local_position` and fills it
    /// with the terrain that `height` gives. The chunk starts without
    /// snapshots and without a mesh.
    pub fn new<F: Fn(i32, i32) -> i32>(local_position: (i32, i32), height: &F) -> (chunk: Chunk)
        requires
            valid_chunk_coord(local_position.0 as int),
            valid_chunk_coord(local_position.1 as int),
            forall|x: i32, z: i32| call_requires(*height, (x, z)),
        ensures
            chunk.wf(),
            chunk@ == ChunkView::fresh((local_position.0 as int, local_position.1 as int), chunk@.blocks),
            spec_generated(height, chunk@.origin(), chunk@.blocks),
    {
        let (sender, receiver) = open_delivery();
        let mut blocks: Vec<u8> = Vec::with_capacity(SIZE);
        let mut k: usize = 0;
        while k < SIZE
            invariant
                k <= SIZE,
                blocks@.len() == k,
            decreases SIZE - k,
        {
            blocks.push(AIR);
            k += 1;
        }
        let mesh = ChunkMesh::empty();
        proof {
            use_type_invariant(&mesh);
        }
        let mut chunk = Chunk {
            local_position,
            world_position: Self::local_to_world_position(local_position),
            blocks,
            mesh,
            state: MeshState::NotBuilt,
            invalidated: false,
            needs_buffer: false,
            sender,
            receiver,
            left: None,
            right: None,
            front: None,
            back: None,
        };
        chunk.generate_blocks(height);
        chunk
    }

    /// Fills the voxel array with the terrain that `height` gives: one call
    /// of `height` for each column, at the column's world coordinates.
    fn generate_blocks<F: Fn(i32, i32) -> i32>(&mut self, height: &F)
        requires
            old(self).wf(),
            forall|x: i32, z: i32| call_requires(*height, (x, z)),
        ensures
            final(self).wf(),
            spec_generated(height, final(self)@.origin(), final(self)@.blocks),
            final(self)@ == (ChunkView { blocks: final(self)@.blocks, ..old(self)@ }),
    {
        let ghost origin = self@.origin();
        let mut x: i32 = 0;
        while x < 16
            invariant
                0 <= x <= 16,
                self.wf(),
                origin == self@.origin(),
                self@ == (ChunkView { blocks: self@.blocks, ..old(self)@ }),
                forall|x: i32, z: i32| call_requires(*height, (x, z)),
                forall|cx: int, cz: int|
                    0 <= cx < x && 0 <= cz < 16 ==> #[trigger] spec_column_generated(
                        height,
                        origin,
                        self@.blocks,
                        cx,
                        cz,
                    ),
            decreases 16 - x,
        {
            let mut z: i32 = 0;
            while z < 16
                invariant
                    0 <= x < 16,
                    0 <= z <= 16,
                    self.wf(),
                    origin == self@.origin(),
                    self@ == (ChunkView { blocks: self@.blocks, ..old(self)@ }),
                    forall|x: i32, z: i32| call_requires(*height, (x, z)),
                    forall|cx: int, cz: int|
                        (0 <= cx < x && 0 <= cz < 16) || (cx == x && 0 <= cz < z)
                            ==> #[trigger] spec_column_generated(height, origin, self@.blocks, cx, cz),
                decreases 16 - z,
            {
                let h: i32 = height(x + self.world_position.0, z + self.world_position.1);
                let ghost before = self@.blocks;
                let mut y: i32 = 0;
                while y < 256
                    invariant
                        0 <= x < 16,
                        0 <= z < 16,
                        0 <= y <= 256,
                        self.wf(),
                        origin == self@.origin(),
                        self@ == (ChunkView { blocks: self@.blocks, ..old(self)@ }),
                        forall|i: int|
                            0 <= i < SIZE && !(exists|cy: int|
                                0 <= cy < y && i == spec_index(x as int, cy, z as int))
                                ==> self@.blocks[i] == before[i],
                        forall|cy: int|
                            0 <= cy < y ==> #[trigger] self@.blocks[spec_index(x as int, cy, z as int)]
                                == spec_column_id(h as int, cy),
                    decreases 256 - y,
                {
                    let id: u8 = if y <= h {
                        GRASS
                    } else if y <= SEA_LEVEL {
                        WATER
                    } else {
                        AIR
                    };
                    let index = Self::xyz_to_index(x, y, z);
                    self.blocks.set(index, id);
                    y += 1;
                }
                proof {
                    assert(spec_column_filled(self@.blocks, x as int, z as int, h as int));
                    assert forall|cx: int, cz: int|
                        (0 <= cx < x && 0 <= cz < 16) || (cx == x && 0 <= cz < z + 1)
                            implies #[trigger] spec_column_generated(height, origin, self@.blocks, cx, cz) by {
                        if cx == x && cz == z {
                            assert(call_ensures(
                                *height,
                                ((cx + origin.0) as i32, (cz + origin.1) as i32),
                                h,
                            ));
                        } else {
                            assert(spec_column_generated(height, origin, before, cx, cz));
                            let h2 = choose|h2: i32|
                                #[trigger] call_ensures(
                                    *height,
                                    ((cx + origin.0) as i32, (cz + origin.1) as i32),
                                    h2,
                                ) && spec_column_filled(before, cx, cz, h2 as int);
                            assert forall|cy: int| 0 <= cy < 256 implies #[trigger] self@.blocks[spec_index(
                                cx,
                                cy,
                                cz,
                            )] == spec_column_id(h2 as int, cy) by {
                                lemma_coordinates_of_index(cx, cy, cz);
                                assert(before[spec_index(cx, cy, cz)] == spec_column_id(h2 as int, cy));
                            }
                        }
                    }
                }
                z += 1;
            }
            x += 1;
        }
    }
}

impl Chunk {
    /// Records that the voxels or a snapshot changed.
    fn invalidate(&mut self)
        requires
            old(self).wf(),
        ensures
            final(self).wf(),
            final(self)@ == old(self)@.invalidate(),
    {
        match self.state {
            MeshState::Built => {
                self.state = MeshState::NotBuilt;
                self.invalidated = false;
            },
            MeshState::Building => {
                self.invalidated = true;
            },
            MeshState::NotBuilt => {
                self.invalidated = false;
            },
        }
    }

    /// Installs a delivered mesh. It replaces the installed one whatever
    /// the state, and wants a buffer.
    pub fn install(&mut self, mesh: ChunkMesh)
        requires
            old(self).wf(),
        ensures
            final(self).wf(),
            final(self)@ == old(self)@.install(mesh@),
    {
        proof {
            use_type_invariant(&mesh);
        }
        self.mesh = mesh;
        self.needs_buffer = true;
        if self.state == MeshState::Building {
            self.state = if self.invalidated { MeshState::NotBuilt } else { MeshState::Built };
        }
        self.invalidated = false;
    }

    /// Takes the snapshot for the next build, if the chunk is ready for
    /// one: copies of its voxels and of the four neighbour snapshots. The
    /// chunk then counts the build as in flight.
    pub fn next_job(&mut self) -> (job: Option<MeshJob>)
        requires
            old(self).wf(),
        ensures
            final(self).wf(),
            final(self)@ == old(self)@.submit(),
            job.is_some() <==> old(self)@.ready(),
            job.is_some() ==> job.unwrap().wf() && job.unwrap().surround() == old(self)@.surround()
                && job.unwrap().origin() == old(self)@.origin(),
    {
        if self.state != MeshState::NotBuilt {
            return None;
        }
        let job = match (&self.left, &self.right, &self.front, &self.back) {
            (Some(left), Some(right), Some(front), Some(back)) => MeshJob {
                blocks: copy_of(&self.blocks),
                left: copy_of(left),
                right: copy_of(right),
                front: copy_of(front),
                back: copy_of(back),
                world_position: self.world_position,
            },
            _ => {
                return None;
            },
        };
        self.state = MeshState::Building;
        self.invalidated = false;
        Some(job)
    }

    /// Submits a build to the pool if the chunk is ready for one.
    fn generate_mesh(&mut self, pool: &mut threadpool::ThreadPool)
        requires
            old(self).wf(),
        ensures
            final(self).wf(),
            final(self)@ == old(self)@.submit(),
    {
        match self.next_job() {
            Some(job) => {
                submit(pool, &self.sender, job);
            },
            None => {},
        }
    }

    /// One step of the build protocol with a known delivery: installs the
    /// delivered mesh, if any, and returns the next build if the chunk is
    /// then ready for one.
    pub fn advance(&mut self, delivered: Option<ChunkMesh>) -> (job: Option<MeshJob>)
        requires
            old(self).wf(),
        ensures
            final(self).wf(),
            final(self)@ == old(self)@.advance(spec_delivery(delivered)),
            job.is_some() <==> (match delivered {
                Some(mesh) => old(self)@.install(mesh@).ready(),
                None => old(self)@.ready(),
            }),
            job.is_some() ==> job.unwrap().wf() && job.unwrap().surround() == final(self)@.surround()
                && job.unwrap().origin() == final(self)@.origin(),
    {
        match delivered {
            Some(mesh) => {
                self.install(mesh);
            },
            None => {},
        }
        self.next_job()
    }

    /// One step of the build protocol: takes a finished mesh from the
    /// delivery channel without blocking, installs it if there is one, and
    /// submits the next build to the pool if the chunk is then ready.
    ///
    /// Whether a mesh has arrived depends on the workers, so the outcome is
    /// a step of the protocol for some delivery.
    pub fn update(&mut self, pool: &mut threadpool::ThreadPool)
        requires
            old(self).wf(),
        ensures
            final(self).wf(),
            exists|delivered: Option<MeshView>|
                (delivered.is_some() ==> delivered.unwrap().wf()) && #[trigger] old(self)@.advance(
                    delivered,
                ) == final(self)@,
    {
        let delivered = take_delivered(&self.receiver);
        let ghost seen: Option<MeshView> = spec_delivery(delivered);
        match delivered {
            Some(mesh) => {
                proof {
                    use_type_invariant(&mesh);
                }
                self.install(mesh);
            },
            None => {},
        }
        self.generate_mesh(pool);
        assert(old(self)@.advance(seen) == self@);
    }

    /// The chunk coordinate.
    pub fn local_position(&self) -> (p: (i32, i32))
        ensures
            (p.0 as int, p.1 as int) == self@.local_position,
    {
        self.local_position
    }

    /// World position of the chunk's first voxel.
    pub fn world_position(&self) -> (p: (i32, i32))
        requires
            self.wf(),
        ensures
            (p.0 as int, p.1 as int) == self@.origin(),
    {
        self.world_position
    }

    /// The voxel array.
    pub fn blocks(&self) -> (blocks: &Vec<u8>)
        ensures
            blocks@ == self@.blocks,
    {
        &self.blocks
    }

    /// The snapshot of the neighbour towards -x.
    pub fn left(&self) -> (snapshot: &Option<Vec<u8>>)
        ensures
            snapshot_view(*snapshot) == self@.left,
    {
        &self.left
    }

    /// Caches a copy of `left`, a full voxel array, as the snapshot of the
    /// neighbour towards -x, and records the change.
    pub fn set_left(&mut self, left: &Vec<u8>)
        requires
            old(self).wf(),
            left@.len() == SIZE,
        ensures
            final(self).wf(),
            final(self)@ == (ChunkView { left: Some(left@), ..old(self)@.invalidate() }),
    {
        self.left = Some(copy_of(left));
        self.invalidate();
    }

    /// The snapshot of the neighbour towards +x.
    pub fn right(&self) -> (snapshot: &Option<Vec<u8>>)
        ensures
            snapshot_view(*snapshot) == self@.right,
    {
        &self.right
    }

    /// Caches a copy of `right`, a full voxel array, as the snapshot of the
    /// neighbour towards +x, and records the change.
    pub fn set_right(&mut self, right: &Vec<u8>)
        requires
            old(self).wf(),
            right@.len() == SIZE,
        ensures
            final(self).wf(),
            final(self)@ == (ChunkView { right: Some(right@), ..old(self)@.invalidate() }),
    {
        self.right = Some(copy_of(right));
        self.invalidate();
    }

    /// The snapshot of the neighbour towards -z.
    pub fn front(&self) -> (snapshot: &Option<Vec<u8>>)
        ensures
            snapshot_view(*snapshot) == self@.front,
    {
        &self.front
    }

    /// Caches a copy of `front`, a full voxel array, as the snapshot of the
    /// neighbour towards -z, and records the change.
    pub fn set_front(&mut self, front: &Vec<u8>)
        requires
            old(self).wf(),
            front@.len() == SIZE,
        ensures
            final(self).wf(),
            final(self)@ == (ChunkView { front: Some(front@), ..old(self)@.invalidate() }),
    {
        self.front = Some(copy_of(front));
        self.invalidate();
    }

    /// The snapshot of the neighbour towards +z.
    pub fn back(&self) -> (snapshot: &Option<Vec<u8>>)
        ensures
            snapshot_view(*snapshot) == self@.back,
    {
        &self.back
    }

    /// Caches a copy of `back`, a full voxel array, as the snapshot of the
    /// neighbour towards +z, and records the change.
    pub fn set_back(&mut self, back: &Vec<u8>)
        requires
            old(self).wf(),
            back@.len() == SIZE,
        ensures
            final(self).wf(),
            final(self)@ == (ChunkView { back: Some(back@), ..old(self)@.invalidate() }),
    {
        self.back = Some(copy_of(back));
        self.invalidate();
    }

    /// Drops the snapshot of the neighbour towards -x and records the
    /// change, so that the snapshot is fetched again and the chunk remeshed.
    pub fn clear_left(&mut self)
        requires
            old(self).wf(),
        ensures
            final(self).wf(),
            final(self)@ == (ChunkView { left: None, ..old(self)@.invalidate() }),
    {
        self.left = None;
        self.invalidate();
    }

    /// Drops the snapshot of the neighbour towards +x and records the
    /// change.
    pub fn clear_right(&mut self)
        requires
            old(self).wf(),
        ensures
            final(self).wf(),
            final(self)@ == (ChunkView { right: None, ..old(self)@.invalidate() }),
    {
        self.right = None;
        self.invalidate();
    }

    /// Drops the snapshot of the neighbour towards -z and records the
    /// change.
    pub fn clear_front(&mut self)
        requires
            old(self).wf(),
        ensures
            final(self).wf(),
            final(self)@ == (ChunkView { front: None, ..old(self)@.invalidate() }),
    {
        self.front = None;
        self.invalidate();
    }

    /// Drops the snapshot of the neighbour towards +z and records the
    /// change.
    pub fn clear_back(&mut self)
        requires
            old(self).wf(),
        ensures
            final(self).wf(),
            final(self)@ == (ChunkView { back: None, ..old(self)@.invalidate() }),
    {
        self.back = None;
        self.invalidate();
    }

    /// The installed mesh.
    pub fn mesh(&self) -> (mesh: &ChunkMesh)
        ensures
            mesh@ == self@.mesh,
    {
        &self.mesh
    }

    /// Whether the installed mesh is current.
    pub fn has_mesh(&self) -> (built: bool)
        ensures
            built == (self@.state == MeshState::Built),
    {
        self.state == MeshState::Built
    }

    /// Whether a build is in flight.
    pub fn is_building(&self) -> (building: bool)
        ensures
            building == self@.in_flight(),
    {
        self.state == MeshState::Building
    }

    /// Whether the installed mesh has not been turned into a buffer yet.
    pub fn needs_buffer(&self) -> (needed: bool)
        ensures
            needed == self@.needs_buffer,
    {
        self.needs_buffer
    }

    /// Sets or clears the mark that the installed mesh wants a buffer.
    pub fn set_needs_buffer(&mut self, needed: bool)
        ensures
            final(self)@ == (ChunkView { needs_buffer: needed, ..old(self)@ }),
            old(self).wf() ==> final(self).wf(),
    {
        self.needs_buffer = needed;
    }

    /// The id of the voxel at world position `position`, if that position
    /// lies in this chunk.
    pub fn block_at_world_position(&self, position: (i32, i32, i32)) -> (id: Option<u8>)
        requires
            self.wf(),
        ensures
            id == spec_block_at(self@, (position.0 as int, position.1 as int, position.2 as int)),
    {
        let x: i64 = position.0 as i64 - self.world_position.0 as i64;
        let z: i64 = position.2 as i64 - self.world_position.1 as i64;
        let y: i32 = position.1;
        if 0 <= x && x < 16 && 0 <= z && z < 16 && 0 <= y && y < 256 {
            let index = Self::xyz_to_index(x as i32, y, z as i32);
            Some(self.blocks[index])
        } else {
            None
        }
    }

    /// Puts the block `id` at world position `position`, if that position
    /// lies in this chunk, and records the change. Says whether it did.
    pub fn set_block_at_world_position(&mut self, position: (i32, i32, i32), id: u8) -> (changed: bool)
        requires
            old(self).wf(),
        ensures
            final(self).wf(),
            changed == spec_block_at(
                old(self)@,
                (position.0 as int, position.1 as int, position.2 as int),
            ).is_some(),
            final(self)@ == spec_with_block(
                old(self)@,
                (position.0 as int, position.1 as int, position.2 as int),
                id,
            ),
    {
        let x: i64 = position.0 as i64 - self.world_position.0 as i64;
        let z: i64 = position.2 as i64 - self.world_position.1 as i64;
        let y: i32 = position.1;
        if 0 <= x && x < 16 && 0 <= z && z < 16 && 0 <= y && y < 256 {
            let index = Self::xyz_to_index(x as i32, y, z as i32);
            self.blocks.set(index, id);
            self.invalidate();
            true
        } else {
            false
        }
    }
}

/// Position in a chunk's voxel array of world position `position`, if the
/// position lies in the chunk.
pub open spec fn spec_local_index(chunk: ChunkView, position: (int, int, int)) -> Option<int> {
    let x = position.0 - chunk.origin().0;
    let z = position.2 - chunk.origin().1;
    if in_chunk(x, position.1, z) {
        Some(spec_index(x, position.1, z))
    } else {
        None
    }
}

/// The id that a chunk holds at world position `position`, if the position
/// lies in the chunk.
pub open spec fn spec_block_at(chunk: ChunkView, position: (int, int, int)) -> Option<u8> {
    match spec_local_index(chunk, position) {
        Some(index) => Some(chunk.blocks[index]),
        None => None,
    }
}

/// The chunk after the block `id` was put at world position `position`:
/// that voxel holds `id` and the change is on record. A position outside the
/// chunk leaves it as it is.
pub open spec fn spec_with_block(chunk: ChunkView, position: (int, int, int), id: u8) -> ChunkView {
    match spec_local_index(chunk, position) {
        Some(index) => ChunkView { blocks: chunk.blocks.update(index, id), ..chunk.invalidate() },
        None => chunk,
    }
}

} // verus!
