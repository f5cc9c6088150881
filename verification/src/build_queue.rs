//! The hand-over of mesh builds to background workers: a pool of worker
//! threads, and for each chunk a channel on which its meshes come back.

use vstd::prelude::*;
use crate::chunk_mesh::ChunkMesh;
use crate::mesher::MeshJob;

verus! {

/// The thread pool of the `threadpool` crate. Nothing inside it is visible
/// here: a pool is made, kept and handed builds.
#[verifier::external_type_specification]
#[verifier::external_body]
pub struct ExThreadPool(threadpool::ThreadPool);

/// The sending end of a channel of the `crossbeam` crate. Nothing inside it
/// is visible here.
#[verifier::external_type_specification]
#[verifier::external_body]
#[verifier::reject_recursive_types(T)]
pub struct ExSender<T>(crossbeam::channel::Sender<T>);

/// The receiving end of a channel of the `crossbeam` crate. Nothing inside
/// it is visible here.
#[verifier::external_type_specification]
#[verifier::external_body]
#[verifier::reject_recursive_types(T)]
pub struct ExReceiver<T>(crossbeam::channel::Receiver<T>);

/// Opens a chunk's delivery channel with `crossbeam::channel::unbounded`
/// and returns its two ends. Nothing is claimed of them.
#[verifier::external_body]
pub(crate) fn open_delivery() -> (ends: (
    crossbeam::channel::Sender<ChunkMesh>,
    crossbeam::channel::Receiver<ChunkMesh>,
)) {
    crossbeam::channel::unbounded()
}

/// Asks the channel for a delivered mesh with `Receiver::try_recv`, which
/// does not block. Whether a mesh is there depends on the workers'
/// progress, so nothing is claimed of the result. What comes out of the
/// channel is a mesh that a worker built with `MeshJob::build`, so it is
/// index-local as every `ChunkMesh` is.
#[verifier::external_body]
pub(crate) fn take_delivered(receiver: &crossbeam::channel::Receiver<ChunkMesh>) -> (mesh: Option<ChunkMesh>) {
    match receiver.try_recv() {
        Ok(mesh) => Some(mesh),
        Err(_) => None,
    }
}

/// Starts a pool of `workers` threads with `ThreadPool::new`, which panics
/// on zero workers.
#[verifier::external_body]
pub(crate) fn start_workers(workers: usize) -> (pool: threadpool::ThreadPool)
    requires
        workers > 0,
{
    threadpool::ThreadPool::new(workers)
}

/// Sends a mesh into a delivery channel with `Sender::send`. The send fails
/// when the chunk that would receive the mesh is gone; the mesh is then
/// dropped. Nothing is claimed of the outcome.
#[verifier::external_body]
pub(crate) fn send_mesh(sender: &crossbeam::channel::Sender<ChunkMesh>, mesh: ChunkMesh) {
    let _ = sender.send(mesh);
}

/// What a worker does with a build: it builds the job's mesh and sends it
/// into the delivery channel.
pub(crate) fn run_job(job: MeshJob, sender: crossbeam::channel::Sender<ChunkMesh>)
    requires
        job.wf(),
{
    let mesh = job.build();
    send_mesh(&sender, mesh);
}

/// Hands a build to the pool with `ThreadPool::execute`, together with a
/// clone of the sending end of the chunk's delivery channel: a worker will
/// run the job. Nothing is claimed of when that happens.
#[verifier::external_body]
pub(crate) fn submit(pool: &threadpool::ThreadPool, sender: &crossbeam::channel::Sender<ChunkMesh>, job: MeshJob)
    requires
        job.wf(),
{
    let sender = sender.clone();
    pool.execute(move || run_job(job, sender));
}

} // verus!
