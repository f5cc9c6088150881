//! The geometry of one chunk.

use vstd::prelude::*;
use crate::vectors::copy_of;
use crate::vertex::Vertex;

verus! {

/// Two independent geometry lists: the opaque one and the transparent one.
/// Each is indexed from zero and drawn in a pass of its own.
///
/// Every value of this type is index-local: no index of a list reaches
/// outside that list's own vertices.
#[derive(Debug)]
pub struct ChunkMesh {
    pub(crate) vertices: Vec<Vertex>,
    pub(crate) indices: Vec<u32>,
    pub(crate) alpha_vertices: Vec<Vertex>,
    pub(crate) alpha_indices: Vec<u32>,
}

/// The contents of a [`ChunkMesh`].
pub ghost struct MeshView {
    pub vertices: Seq<Vertex>,
    pub indices: Seq<u32>,
    pub alpha_vertices: Seq<Vertex>,
    pub alpha_indices: Seq<u32>,
}

/// Whether every index of `indices` names a vertex of a list of `vertices`
/// vertices.
pub open spec fn indices_local(indices: Seq<u32>, vertices: nat) -> bool {
    forall|k: int| 0 <= k < indices.len() ==> #[trigger] indices[k] < vertices
}

impl MeshView {
    /// The contents of a mesh without geometry.
    pub open spec fn empty() -> MeshView {
        MeshView {
            vertices: Seq::empty(),
            indices: Seq::empty(),
            alpha_vertices: Seq::empty(),
            alpha_indices: Seq::empty(),
        }
    }

    /// Index locality: the indices of each list stay inside that list's own
    /// vertices, and every length fits the counters of a geometry buffer.
    pub open spec fn wf(&self) -> bool {
        &&& indices_local(self.indices, self.vertices.len())
        &&& indices_local(self.alpha_indices, self.alpha_vertices.len())
        &&& self.vertices.len() <= u32::MAX
        &&& self.indices.len() <= u32::MAX
        &&& self.alpha_vertices.len() <= u32::MAX
        &&& self.alpha_indices.len() <= u32::MAX
    }
}

impl View for ChunkMesh {
    type V = MeshView;

    closed spec fn view(&self) -> MeshView {
        MeshView {
            vertices: self.vertices@,
            indices: self.indices@,
            alpha_vertices: self.alpha_vertices@,
            alpha_indices: self.alpha_indices@,
        }
    }
}

impl ChunkMesh {
    #[verifier::type_invariant]
    pub(crate) open spec fn inv(&self) -> bool {
        self@.wf()
    }

    /// The mesh without geometry.
    pub fn empty() -> (mesh: ChunkMesh)
        ensures
            mesh@ == MeshView::empty(),
    {
        let mesh = ChunkMesh {
            vertices: Vec::new(),
            indices: Vec::new(),
            alpha_vertices: Vec::new(),
            alpha_indices: Vec::new(),
        };
        assert(mesh@.vertices =~= Seq::empty() && mesh@.indices =~= Seq::empty());
        assert(mesh@.alpha_vertices =~= Seq::empty() && mesh@.alpha_indices =~= Seq::empty());
        mesh
    }

    /// Puts four index-local lists together into a mesh.
    pub(crate) fn from_parts(
        vertices: Vec<Vertex>,
        indices: Vec<u32>,
        alpha_vertices: Vec<Vertex>,
        alpha_indices: Vec<u32>,
    ) -> (mesh: ChunkMesh)
        requires
            (MeshView {
                vertices: vertices@,
                indices: indices@,
                alpha_vertices: alpha_vertices@,
                alpha_indices: alpha_indices@,
            }).wf(),
        ensures
            mesh@ == (MeshView {
                vertices: vertices@,
                indices: indices@,
                alpha_vertices: alpha_vertices@,
                alpha_indices: alpha_indices@,
            }),
    {
        ChunkMesh { vertices, indices, alpha_vertices, alpha_indices }
    }

    /// Puts four lists together into a mesh, if they are index-local.
    pub fn new(
        vertices: Vec<Vertex>,
        indices: Vec<u32>,
        alpha_vertices: Vec<Vertex>,
        alpha_indices: Vec<u32>,
    ) -> (mesh: Option<ChunkMesh>)
        ensures
            mesh.is_some() <==> (MeshView {
                vertices: vertices@,
                indices: indices@,
                alpha_vertices: alpha_vertices@,
                alpha_indices: alpha_indices@,
            }).wf(),
            mesh.is_some() ==> mesh.unwrap()@ == (MeshView {
                vertices: vertices@,
                indices: indices@,
                alpha_vertices: alpha_vertices@,
                alpha_indices: alpha_indices@,
            }),
    {
        if vertices.len() > 0xffff_ffff || indices.len() > 0xffff_ffff || alpha_vertices.len()
            > 0xffff_ffff || alpha_indices.len() > 0xffff_ffff {
            return None;
        }
        if !all_below(&indices, vertices.len()) || !all_below(&alpha_indices, alpha_vertices.len()) {
            return None;
        }
        Some(ChunkMesh { vertices, indices, alpha_vertices, alpha_indices })
    }

    /// The vertices of the opaque pass.
    pub fn vertices(&self) -> (v: &Vec<Vertex>)
        ensures
            v@ == self@.vertices,
            self@.wf(),
    {
        proof {
            use_type_invariant(self);
        }
        &self.vertices
    }

    /// The indices of the opaque pass.
    pub fn indices(&self) -> (v: &Vec<u32>)
        ensures
            v@ == self@.indices,
            self@.wf(),
    {
        proof {
            use_type_invariant(self);
        }
        &self.indices
    }

    /// The vertices of the transparent pass.
    pub fn alpha_vertices(&self) -> (v: &Vec<Vertex>)
        ensures
            v@ == self@.alpha_vertices,
            self@.wf(),
    {
        proof {
            use_type_invariant(self);
        }
        &self.alpha_vertices
    }

    /// The indices of the transparent pass.
    pub fn alpha_indices(&self) -> (v: &Vec<u32>)
        ensures
            v@ == self@.alpha_indices,
            self@.wf(),
    {
        proof {
            use_type_invariant(self);
        }
        &self.alpha_indices
    }

    /// A copy of this mesh.
    pub fn duplicate(&self) -> (mesh: ChunkMesh)
        ensures
            mesh@ == self@,
    {
        proof {
            use_type_invariant(self);
        }
        let mesh = ChunkMesh {
            vertices: copy_of(&self.vertices),
            indices: copy_of(&self.indices),
            alpha_vertices: copy_of(&self.alpha_vertices),
            alpha_indices: copy_of(&self.alpha_indices),
        };
        mesh
    }
}

/// Whether every entry of `indices` is below `bound`.
fn all_below(indices: &Vec<u32>, bound: usize) -> (ok: bool)
    ensures
        ok == indices_local(indices@, bound as nat),
{
    let mut k: usize = 0;
    while k < indices.len()
        invariant
            k <= indices.len(),
            forall|j: int| 0 <= j < k ==> #[trigger] indices@[j] < bound,
        decreases indices.len() - k,
    {
        if indices[k] as usize >= bound {
            return false;
        }
        k += 1;
    }
    true
}

} // verus!
