//! The drawable counterpart of a chunk's mesh.

use vstd::prelude::*;
use crate::chunk_mesh::{ChunkMesh, MeshView};

verus! {

/// The geometry of one chunk as handed to the renderer: a handle to the
/// uploaded data, and how much each of the four lists holds.
///
/// `H` is whatever the renderer keeps for uploaded geometry.
#[derive(Debug)]
pub struct ChunkBuffer<H> {
    pub handle: H,
    pub vertex_count: u32,
    pub index_count: u32,
    pub alpha_vertex_count: u32,
    pub alpha_index_count: u32,
}

impl<H> ChunkBuffer<H> {
    /// Whether the four counts are the lengths of the lists of `mesh`.
    pub open spec fn counts(&self, mesh: MeshView) -> bool {
        &&& self.vertex_count == mesh.vertices.len()
        &&& self.index_count == mesh.indices.len()
        &&& self.alpha_vertex_count == mesh.alpha_vertices.len()
        &&& self.alpha_index_count == mesh.alpha_indices.len()
    }

    /// Whether this buffer was made of a mesh with contents `mesh` by
    /// `upload`: the counts are the mesh's, and the handle is one that
    /// `upload` gives for such a mesh.
    pub open spec fn made_of<U: Fn(&ChunkMesh) -> H>(&self, upload: &U, mesh: MeshView) -> bool {
        &&& self.counts(mesh)
        &&& exists|source: ChunkMesh| source@ == mesh && #[trigger] call_ensures(*upload, (&source,), self.handle)
    }

    /// Makes the buffer of `mesh`: uploads the mesh with `upload` and
    /// records the lengths of its four lists.
    pub fn new<U: Fn(&ChunkMesh) -> H>(upload: &U, mesh: &ChunkMesh) -> (buffer: ChunkBuffer<H>)
        requires
            call_requires(*upload, (mesh,)),
        ensures
            buffer.made_of(upload, mesh@),
    {
        let handle = upload(mesh);
        let buffer = ChunkBuffer {
            handle,
            vertex_count: mesh.vertices().len() as u32,
            index_count: mesh.indices().len() as u32,
            alpha_vertex_count: mesh.alpha_vertices().len() as u32,
            alpha_index_count: mesh.alpha_indices().len() as u32,
        };
        assert(call_ensures(*upload, (mesh,), buffer.handle));
        buffer
    }
}

} // verus!
