use std::time::{Duration, Instant};
use voxel_world::block::{AIR, GRASS, STONE, WATER};
use voxel_world::chunk::Chunk;
use voxel_world::vectors::copy_of;
use voxel_world::chunk_mesh::ChunkMesh;

fn index(x: usize, y: usize, z: usize) -> usize {
    x + z * 16 + y * 256
}

fn flat(level: i32) -> impl Fn(i32, i32) -> i32 {
    move |_, _| level
}

fn linked(chunk: &mut Chunk) {
    let side = vec![0u8; 65536];
    chunk.set_left(&side);
    chunk.set_right(&side);
    chunk.set_front(&side);
    chunk.set_back(&side);
}

#[test]
fn a_column_is_ground_then_water_then_air() {
    let chunk = Chunk::new((0, 0), &flat(50));
    let b = chunk.blocks();
    assert_eq!(b.len(), 65536);
    for (x, z) in [(0usize, 0usize), (7, 9), (15, 15)] {
        for y in 0..256usize {
            let expected = if y <= 50 {
                GRASS
            } else if y <= 60 {
                WATER
            } else {
                AIR
            };
            assert_eq!(b[index(x, y, z)], expected);
        }
    }
}

#[test]
fn terrain_above_the_sea_has_no_water() {
    let chunk = Chunk::new((2, -3), &flat(70));
    let b = chunk.blocks();
    assert_eq!(b[index(4, 70, 4)], GRASS);
    assert_eq!(b[index(4, 71, 4)], AIR);
    assert_eq!(b[index(4, 60, 4)], GRASS);
    assert!(b.iter().all(|id| *id != WATER));
    let at_sea = Chunk::new((0, 0), &flat(60));
    assert_eq!(at_sea.blocks()[index(0, 60, 0)], GRASS);
    assert_eq!(at_sea.blocks()[index(0, 61, 0)], AIR);
}

#[test]
fn heights_outside_the_build_volume_are_clipped() {
    let low = Chunk::new((0, 0), &flat(-5));
    assert_eq!(low.blocks()[index(3, 0, 3)], WATER);
    assert_eq!(low.blocks()[index(3, 60, 3)], WATER);
    assert_eq!(low.blocks()[index(3, 61, 3)], AIR);
    let high = Chunk::new((0, 0), &flat(1000));
    assert!(high.blocks().iter().all(|id| *id == GRASS));
    let top = Chunk::new((0, 0), &flat(255));
    assert_eq!(top.blocks()[index(3, 255, 3)], GRASS);
}

#[test]
fn heights_are_sampled_at_world_coordinates() {
    let chunk = Chunk::new((1, -1), &|x: i32, z: i32| x + z + 100);
    assert_eq!(chunk.local_position(), (1, -1));
    assert_eq!(chunk.world_position(), (16, -16));
    let b = chunk.blocks();
    for (x, z) in [(0i32, 0i32), (5, 2), (15, 15)] {
        let h = (16 + x) + (-16 + z) + 100;
        assert_eq!(b[index(x as usize, h as usize, z as usize)], GRASS);
        assert_eq!(b[index(x as usize, h as usize + 1, z as usize)], AIR);
    }
}

#[test]
fn generation_is_deterministic() {
    let height = |x: i32, z: i32| 40 + ((x * 31 + z * 17) % 50 + 50) % 50;
    let a = Chunk::new((3, 4), &height);
    let b = Chunk::new((3, 4), &height);
    assert_eq!(a.blocks(), b.blocks());
    let c = Chunk::new((3, 5), &height);
    assert_ne!(a.blocks(), c.blocks());
}

#[test]
fn a_fresh_chunk_has_nothing_cached_or_built() {
    let chunk = Chunk::new((0, 0), &flat(60));
    assert!(chunk.left().is_none());
    assert!(chunk.right().is_none());
    assert!(chunk.front().is_none());
    assert!(chunk.back().is_none());
    assert!(!chunk.has_mesh());
    assert!(!chunk.is_building());
    assert!(!chunk.needs_buffer());
    assert!(chunk.mesh().vertices().is_empty());
    assert!(chunk.mesh().alpha_vertices().is_empty());
}

#[test]
fn no_build_starts_before_all_four_snapshots_are_cached() {
    let mut chunk = Chunk::new((0, 0), &flat(60));
    let side = vec![0u8; 65536];
    assert!(chunk.advance(None).is_none());
    chunk.set_left(&side);
    assert!(chunk.advance(None).is_none());
    chunk.set_right(&side);
    assert!(chunk.advance(None).is_none());
    chunk.set_front(&side);
    assert!(chunk.next_job().is_none());
    assert!(!chunk.is_building());
    chunk.set_back(&side);
    let job = chunk.advance(None);
    assert!(job.is_some());
    assert!(chunk.is_building());
    let job = job.unwrap();
    assert_eq!(&job.blocks, chunk.blocks());
    assert_eq!(job.left, side);
    assert_eq!(job.world_position, (0, 0));
}

#[test]
fn only_one_build_is_in_flight() {
    let mut chunk = Chunk::new((0, 0), &flat(60));
    linked(&mut chunk);
    let job = chunk.advance(None).unwrap();
    for _ in 0..5 {
        assert!(chunk.advance(None).is_none());
        assert!(chunk.next_job().is_none());
        assert!(chunk.is_building());
    }
    let mesh = job.build();
    let faces = mesh.vertices().len();
    assert!(chunk.advance(Some(mesh)).is_none());
    assert!(chunk.has_mesh());
    assert!(!chunk.is_building());
    assert!(chunk.needs_buffer());
    assert_eq!(chunk.mesh().vertices().len(), faces);
    assert!(chunk.advance(None).is_none());
    assert!(chunk.has_mesh());
}

#[test]
fn a_stale_result_is_followed_by_a_fresh_build() {
    let mut chunk = Chunk::new((0, 0), &flat(60));
    linked(&mut chunk);
    let job = chunk.advance(None).unwrap();
    assert!(chunk.set_block_at_world_position((3, 61, 3), STONE));
    assert!(chunk.is_building());
    assert!(chunk.advance(None).is_none());
    let stale = job.build();
    let stale_vertices = stale.vertices().len();
    let next = chunk.advance(Some(stale));
    assert!(next.is_some());
    assert!(chunk.is_building());
    assert!(!chunk.has_mesh());
    assert!(chunk.needs_buffer());
    assert_eq!(chunk.mesh().vertices().len(), stale_vertices);
    let next = next.unwrap();
    assert_eq!(next.blocks[index(3, 61, 3)], STONE);
    let fresh = next.build();
    assert_eq!(fresh.vertices().len(), stale_vertices + 4 * 5 - 4);
    assert!(chunk.advance(Some(fresh)).is_none());
    assert!(chunk.has_mesh());
}

#[test]
fn a_stale_result_without_snapshots_waits() {
    let mut chunk = Chunk::new((0, 0), &flat(60));
    linked(&mut chunk);
    let job = chunk.advance(None).unwrap();
    chunk.clear_right();
    assert!(chunk.right().is_none());
    assert!(chunk.advance(Some(job.build())).is_none());
    assert!(!chunk.is_building());
    assert!(!chunk.has_mesh());
    chunk.set_right(&vec![0u8; 65536]);
    assert!(chunk.advance(None).is_some());
}

#[test]
fn an_edit_of_a_built_chunk_asks_for_a_remesh() {
    let mut chunk = Chunk::new((0, 0), &flat(60));
    linked(&mut chunk);
    let job = chunk.advance(None).unwrap();
    chunk.advance(Some(job.build()));
    assert!(chunk.has_mesh());
    assert!(chunk.set_block_at_world_position((1, 1, 1), AIR));
    assert!(!chunk.has_mesh());
    assert!(!chunk.is_building());
    assert!(chunk.advance(None).is_some());
}

#[test]
fn a_delivered_mesh_replaces_the_installed_one() {
    let mut chunk = Chunk::new((0, 0), &flat(60));
    let v = voxel_world::vertex::Vertex { x: 0, y: 0, z: 0, u: 0, v: 0, opacity: 10 };
    chunk.install(ChunkMesh::new(vec![v; 4], vec![0, 1, 2, 0, 2, 3], vec![], vec![]).unwrap());
    assert_eq!(chunk.mesh().vertices().len(), 4);
    assert!(chunk.needs_buffer());
    assert!(!chunk.has_mesh());
    chunk.install(ChunkMesh::new(vec![v; 8], vec![0, 1, 2, 4, 6, 7], vec![], vec![]).unwrap());
    assert_eq!(chunk.mesh().vertices().len(), 8);
    chunk.set_needs_buffer(false);
    assert!(!chunk.needs_buffer());
}

#[test]
fn blocks_are_read_and_written_by_world_position() {
    let mut chunk = Chunk::new((-1, 2), &flat(60));
    assert_eq!(chunk.world_position(), (-16, 32));
    assert_eq!(chunk.block_at_world_position((-16, 60, 32)), Some(GRASS));
    assert_eq!(chunk.block_at_world_position((-1, 61, 47)), Some(AIR));
    assert_eq!(chunk.block_at_world_position((0, 60, 32)), None);
    assert_eq!(chunk.block_at_world_position((-17, 60, 32)), None);
    assert_eq!(chunk.block_at_world_position((-16, 60, 48)), None);
    assert_eq!(chunk.block_at_world_position((-16, 256, 32)), None);
    assert_eq!(chunk.block_at_world_position((-16, -1, 32)), None);
    assert!(chunk.set_block_at_world_position((-10, 100, 40), STONE));
    assert_eq!(chunk.block_at_world_position((-10, 100, 40)), Some(STONE));
    assert_eq!(chunk.blocks()[index(6, 100, 8)], STONE);
    assert!(!chunk.set_block_at_world_position((0, 100, 40), STONE));
    assert!(!chunk.set_block_at_world_position((-10, 256, 40), STONE));
}

#[test]
fn snapshots_are_copies() {
    let mut chunk = Chunk::new((0, 0), &flat(60));
    let mut side = vec![STONE; 65536];
    chunk.set_left(&side);
    side[0] = AIR;
    assert_eq!(chunk.left().as_ref().unwrap()[0], STONE);
    chunk.clear_left();
    assert!(chunk.left().is_none());
    chunk.set_front(&side);
    chunk.set_back(&side);
    chunk.clear_front();
    chunk.clear_back();
    assert!(chunk.front().is_none() && chunk.back().is_none());
    assert_eq!(copy_of(&side), side);
}

#[test]
fn a_chunk_is_meshed_by_the_worker_pool() {
    let mut pool = threadpool::ThreadPool::new(2);
    let mut chunk = Chunk::new((0, 0), &flat(60));
    chunk.update(&mut pool);
    assert!(!chunk.is_building());
    linked(&mut chunk);
    chunk.update(&mut pool);
    assert!(chunk.is_building());
    let deadline = Instant::now() + Duration::from_secs(15);
    while !chunk.has_mesh() && Instant::now() < deadline {
        chunk.update(&mut pool);
    }
    assert!(chunk.has_mesh());
    assert!(chunk.needs_buffer());
    // a flat chunk in air: the top, the bottom and the four sides
    let faces = 256 + 256 + 4 * 16 * 61;
    assert_eq!(chunk.mesh().vertices().len(), 4 * faces);
    assert_eq!(chunk.mesh().indices().len(), 6 * faces);
}
