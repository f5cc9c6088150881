//! Target picking: which voxels the view ray is tried against, and which of
//! the voxels that it hits is the target.

use vstd::prelude::*;
use crate::block::{spec_name, spec_resolve, Block, AIR, WATER};
use crate::block_face::{spec_face_of_contacts, BlockFace};
use crate::registry::is_coord;
use crate::target::{Target, VoxelPos};
use crate::world::{spec_block, World, WorldView};

verus! {

/// Number of voxels in the cube that is scanned.
pub const CUBE: usize = 1728;

/// What the ray cast found at one voxel that the ray goes through.
#[derive(Debug, Clone, Copy, PartialEq, Eq, Structural)]
pub struct Contact {
    /// How far the intersection is from the point that the observer looks
    /// at, in any unit that orders the contacts: the smaller, the nearer.
    pub distance: u32,
    /// Whether the intersection point is close to the voxel's plane of
    /// smallest x.
    pub x_min: bool,
    /// Whether it is close to the plane of largest x.
    pub x_max: bool,
    /// Whether it is close to the plane of smallest z.
    pub z_min: bool,
    /// Whether it is close to the plane of largest z.
    pub z_max: bool,
    /// Whether it is close to the plane of smallest y.
    pub y_min: bool,
}

impl Contact {
    /// The face that the intersection point lies on: the planes are tried
    /// in the order x, z, y, and the first that the point is close to wins.
    pub open spec fn face(&self) -> BlockFace {
        spec_face_of_contacts(self.x_min, self.x_max, self.z_min, self.z_max, self.y_min)
    }
}

/// A voxel that the ray goes through, with what the ray cast found there.
#[derive(Debug, Clone, Copy, PartialEq, Eq, Structural)]
pub struct Hit {
    pub position: VoxelPos,
    pub contact: Contact,
}

/// Voxel number `i` of the cube around `origin`, as (x, y, z): the cube
/// reaches from `origin - 6` up to, not including, `origin + 6` along each
/// axis and is scanned by x, then y, then z.
pub open spec fn spec_cube_cell(origin: (int, int, int), i: int) -> (int, int, int) {
    (origin.0 - 6 + i / 144, origin.1 - 6 + (i / 12) % 12, origin.2 - 6 + i % 12)
}

/// Whether the voxel at `position` can be a target: it exists and is
/// neither air nor water.
pub open spec fn spec_pickable<H>(world: WorldView<H>, position: (int, int, int)) -> bool {
    &&& is_coord(position.0) && is_coord(position.1) && is_coord(position.2)
    &&& match spec_block(world, position) {
        Some(id) => spec_resolve(id) != AIR && spec_resolve(id) != WATER,
        None => false,
    }
}

/// The voxel at `position`.
pub open spec fn spec_voxel(position: (int, int, int)) -> VoxelPos {
    VoxelPos { x: position.0 as i32, y: position.1 as i32, z: position.2 as i32 }
}

/// The candidates among the first `n` voxels of the cube around `origin`,
/// in scan order.
pub open spec fn spec_candidates<H>(world: WorldView<H>, origin: (int, int, int), n: nat) -> Seq<VoxelPos>
    decreases n,
{
    if n == 0 {
        Seq::empty()
    } else {
        let before = spec_candidates(world, origin, (n - 1) as nat);
        let cell = spec_cube_cell(origin, n - 1);
        if spec_pickable(world, cell) {
            before.push(spec_voxel(cell))
        } else {
            before
        }
    }
}

/// Whether hit `j` is the nearest of `hits`: no hit is nearer, and none
/// that is as near comes before it.
pub open spec fn spec_nearest(hits: Seq<Hit>, j: int) -> bool {
    &&& 0 <= j < hits.len()
    &&& forall|k: int|
        0 <= k < hits.len() ==> hits[j].contact.distance < (#[trigger] hits[k]).contact.distance || (
        hits[j].contact.distance == hits[k].contact.distance && j <= k)
}

/// Display name of the block at `position`; a voxel that does not exist
/// counts as air.
pub open spec fn spec_name_at<H>(world: WorldView<H>, position: (int, int, int)) -> Seq<char> {
    match spec_block(world, position) {
        Some(id) => spec_name(spec_resolve(id)),
        None => spec_name(AIR),
    }
}

/// Whether `target` is the pick among `hits`: no target where nothing was
/// hit, else the voxel of the nearest hit, the face that its intersection
/// point lies on, and the name of the block there.
pub open spec fn spec_picked<H>(world: WorldView<H>, hits: Seq<Hit>, target: Option<Target>) -> bool {
    match target {
        None => hits.len() == 0,
        Some(t) => exists|j: int|
            #[trigger] spec_nearest(hits, j) && t.position == hits[j].position && t.face
                == hits[j].contact.face() && t.name@ == spec_name_at(world, hits[j].position.triple()),
    }
}

/// The hits among the first `n` candidates, given what the ray cast found
/// at each: the candidates at which it found something, in order.
pub open spec fn spec_hits(candidates: Seq<VoxelPos>, found: Seq<Option<Contact>>, n: nat) -> Seq<Hit>
    decreases n,
{
    if n == 0 {
        Seq::empty()
    } else {
        let before = spec_hits(candidates, found, (n - 1) as nat);
        match found[n - 1] {
            Some(contact) => before.push(Hit { position: candidates[n - 1], contact: contact }),
            None => before,
        }
    }
}

/// At most one hit is the nearest.
pub proof fn lemma_nearest_unique(hits: Seq<Hit>, i: int, j: int)
    requires
        spec_nearest(hits, i),
        spec_nearest(hits, j),
    ensures
        i == j,
{
    assert(hits[i].contact.distance <= hits[j].contact.distance);
    assert(hits[j].contact.distance <= hits[i].contact.distance);
}

impl<H> World<H> {
    /// The voxels that the view ray of an observer in voxel `origin` is
    /// tried against: every voxel of the cube around `origin` that is
    /// neither air nor water, in scan order.
    pub fn target_candidates(&self, origin: VoxelPos) -> (candidates: Vec<VoxelPos>)
        requires
            self.wf(),
        ensures
            candidates@ == spec_candidates(self@, origin.triple(), CUBE as nat),
    {
        let mut candidates: Vec<VoxelPos> = Vec::new();
        let mut i: usize = 0;
        while i < CUBE
            invariant
                i <= CUBE,
                self.wf(),
                candidates@ == spec_candidates(self@, origin.triple(), i as nat),
            decreases CUBE - i,
        {
            let x: i64 = origin.x as i64 - 6 + (i / 144) as i64;
            let y: i64 = origin.y as i64 - 6 + ((i / 12) % 12) as i64;
            let z: i64 = origin.z as i64 - 6 + (i % 12) as i64;
            if fits(x) && fits(y) && fits(z) {
                let id = match self.get_block(x as i32, y as i32, z as i32) {
                    Some(id) => id,
                    None => AIR,
                };
                let block = Block::block(id);
                if block.id != AIR && block.id != WATER {
                    candidates.push(VoxelPos { x: x as i32, y: y as i32, z: z as i32 });
                }
            }
            i += 1;
        }
        candidates
    }

    /// Picks the target among the voxels that the view ray hit: the
    /// nearest one, and of several that are as near the first.
    pub fn pick(&self, hits: &Vec<Hit>) -> (target: Option<Target>)
        requires
            self.wf(),
        ensures
            spec_picked(self@, hits@, target),
    {
        if hits.len() == 0 {
            return None;
        }
        let mut best: usize = 0;
        let mut k: usize = 1;
        while k < hits.len()
            invariant
                1 <= k <= hits.len(),
                best < k,
                forall|m: int|
                    0 <= m < k ==> hits@[best as int].contact.distance < (#[trigger] hits@[m]).contact.distance
                        || (hits@[best as int].contact.distance == hits@[m].contact.distance && best <= m),
            decreases hits.len() - k,
        {
            if hits[k].contact.distance < hits[best].contact.distance {
                best = k;
            }
            k += 1;
        }
        let hit = hits[best];
        let id = match self.get_block(hit.position.x, hit.position.y, hit.position.z) {
            Some(id) => id,
            None => AIR,
        };
        let target = Target {
            position: hit.position,
            face: BlockFace::from_contacts(
                hit.contact.x_min,
                hit.contact.x_max,
                hit.contact.z_min,
                hit.contact.z_max,
                hit.contact.y_min,
            ),
            name: Block::block(id).name.to_owned(),
        };
        assert(spec_nearest(hits@, best as int));
        Some(target)
    }

    /// Finds the voxel that the observer aims at.
    ///
    /// `origin` is the voxel that the observer is in. `probe` casts the
    /// view ray against one voxel and says what it found there, if the ray
    /// goes through the voxel. It is called once for each candidate, in scan
    /// order, and the nearest of the hits is the target.
    pub fn get_target<P: Fn(VoxelPos) -> Option<Contact>>(&self, origin: VoxelPos, probe: &P) -> (target: Option<Target>)
        requires
            self.wf(),
            forall|position: VoxelPos| call_requires(*probe, (position,)),
        ensures
            exists|found: Seq<Option<Contact>>| #[trigger]
                spec_probed(probe, spec_candidates(self@, origin.triple(), CUBE as nat), found)
                    && spec_picked(
                    self@,
                    spec_hits(
                        spec_candidates(self@, origin.triple(), CUBE as nat),
                        found,
                        found.len(),
                    ),
                    target,
                ),
    {
        let candidates = self.target_candidates(origin);
        let mut hits: Vec<Hit> = Vec::new();
        let ghost mut found: Seq<Option<Contact>> = Seq::empty();
        let mut i: usize = 0;
        while i < candidates.len()
            invariant
                i <= candidates.len(),
                found.len() == i,
                forall|position: VoxelPos| call_requires(*probe, (position,)),
                forall|m: int| 0 <= m < i ==> call_ensures(*probe, (candidates@[m],), #[trigger] found[m]),
                hits@ == spec_hits(candidates@, found, i as nat),
            decreases candidates.len() - i,
        {
            let seen = probe(candidates[i]);
            proof {
                let ghost earlier = found;
                found = found.push(seen);
                lemma_hits_prefix(candidates@, earlier, found, i as nat);
            }
            match seen {
                Some(contact) => {
                    hits.push(Hit { position: candidates[i], contact });
                },
                None => {},
            }
            i += 1;
        }
        assert(spec_probed(probe, candidates@, found));
        self.pick(&hits)
    }
}

/// Whether `found` is what `probe` found at the candidates: one result for
/// each candidate, each a result that `probe` gives for that candidate.
pub open spec fn spec_probed<P: Fn(VoxelPos) -> Option<Contact>>(
    probe: &P,
    candidates: Seq<VoxelPos>,
    found: Seq<Option<Contact>>,
) -> bool {
    &&& found.len() == candidates.len()
    &&& forall|m: int| 0 <= m < candidates.len() ==> call_ensures(*probe, (candidates[m],), #[trigger] found[m])
}

/// The hits among the first `n` candidates depend on the first `n` results
/// alone.
pub proof fn lemma_hits_prefix(candidates: Seq<VoxelPos>, found: Seq<Option<Contact>>, longer: Seq<Option<Contact>>, n: nat)
    requires
        n <= found.len() <= longer.len(),
        forall|m: int| 0 <= m < n ==> found[m] == longer[m],
    ensures
        spec_hits(candidates, found, n) == spec_hits(candidates, longer, n),
    decreases n,
{
    if n > 0 {
        lemma_hits_prefix(candidates, found, longer, (n - 1) as nat);
    }
}

/// Whether `v` fits a 32-bit signed integer.
fn fits(v: i64) -> (ok: bool)
    ensures
        ok == is_coord(v as int),
{
    -0x8000_0000 <= v && v <= 0x7fff_ffff
}

} // verus!
