use std::cell::Cell;
use std::time::{Duration, Instant};
use voxel_world::block::{AIR, GRASS, STONE, WATER};
use voxel_world::block_face::BlockFace;
use voxel_world::chunk_mesh::ChunkMesh;
use voxel_world::drawing::Count;
use voxel_world::target::{Target, VoxelPos};
use voxel_world::terrain::Terrain;
use voxel_world::world::World;

fn flat(_: i32, _: i32) -> i32 {
    60
}

fn upload(mesh: &ChunkMesh) -> usize {
    mesh.vertices().len() + mesh.alpha_vertices().len()
}

fn resident(world: &World<usize>, cx: i32, cz: i32) -> bool {
    world.get_chunk(cx * 16, 0, cz * 16).is_some()
}

fn target(x: i32, y: i32, z: i32, face: BlockFace) -> Target {
    Target { position: VoxelPos { x, y, z }, face, name: String::from("grass") }
}

fn tick_until(world: &mut World<usize>, position: (i32, i32), done: impl Fn(&World<usize>) -> bool) -> bool {
    let deadline = Instant::now() + Duration::from_secs(15);
    loop {
        world.update(position, &flat, &upload);
        if done(world) {
            return true;
        }
        if Instant::now() >= deadline {
            return false;
        }
    }
}

#[test]
fn a_new_world_is_empty() {
    let world: World<usize> = World::new(2);
    assert_eq!(world.render_distance(), 2);
    assert_eq!(world.center(), None);
    assert_eq!(world.terrain(), Terrain::standard());
    assert_eq!(
        world.terrain(),
        Terrain {
            seed: 1,
            octaves: 4,
            frequency: 348,
            persistence: 16,
            lacunarity: 2,
            sample_offset: 1,
            height_base: 2,
            height_scale: 32,
        }
    );
    assert!(world.can_stream((0, 0)));
    assert!(world.can_stream((i32::MAX - 16 * 3, i32::MIN + 16 * 3)));
    assert!(!world.can_stream((i32::MAX, 0)));
    assert!(!world.can_stream((0, i32::MIN + 16 * 2)));
    assert!(world.get_chunk(0, 0, 0).is_none());
    assert_eq!(world.get_block(0, 0, 0), None);
    assert_eq!(world.vertex_count(), 0);
    assert_eq!(world.triangle_count(), 0);
    assert!(world.buffers(&|_| false).is_empty());
    assert!(world.buffer(0, 0).is_none());
}

#[test]
fn world_positions_map_to_chunk_coordinates_rounded_down() {
    assert_eq!(World::<usize>::to_local_position(0, 0), (0, 0));
    assert_eq!(World::<usize>::to_local_position(15, 16), (0, 1));
    assert_eq!(World::<usize>::to_local_position(-1, -16), (-1, -1));
    assert_eq!(World::<usize>::to_local_position(-17, 31), (-2, 1));
    assert_eq!(World::<usize>::to_local_position(i32::MIN, i32::MAX), (-134217728, 134217727));
}

#[test]
fn after_a_tick_the_resident_chunks_are_exactly_the_window() {
    for r in [0, 1, 2] {
        let mut world: World<usize> = World::new(r);
        world.update((5, -5), &flat, &upload);
        assert_eq!(world.center(), Some((0, -1)));
        let mut count = 0;
        for cx in -6..6 {
            for cz in -6..6 {
                let inside = -(r + 1) <= cx && cx < r + 1 && -1 - (r + 1) <= cz && cz < -1 + r + 1;
                assert_eq!(resident(&world, cx, cz), inside);
                if inside {
                    count += 1;
                }
            }
        }
        assert_eq!(count, (2 * r + 2) * (2 * r + 2));
    }
}

#[test]
fn chunks_that_leave_the_window_are_dropped_with_their_buffers() {
    let mut world: World<usize> = World::new(1);
    assert!(tick_until(&mut world, (0, 0), |w| w.buffer(0, 0).is_some() && w.buffer(-1, -1).is_some()));
    assert!(resident(&world, -2, -2));
    world.update((16 * 3, 0), &flat, &upload);
    assert_eq!(world.center(), Some((3, 0)));
    for cx in -3..8 {
        for cz in -4..4 {
            let inside = 1 <= cx && cx < 5 && -2 <= cz && cz < 2;
            assert_eq!(resident(&world, cx, cz), inside);
            if !inside {
                assert!(world.buffer(cx, cz).is_none());
            }
        }
    }
    assert!(world.buffer(0, 0).is_none());
    assert!(world.buffer(-1, -1).is_none());
    // a chunk of both windows kept its voxels
    assert_eq!(world.get_block(16, 60, 0), Some(GRASS));
    // moving back creates the dropped chunks anew, without snapshots
    world.update((0, 0), &flat, &upload);
    let chunk = world.get_chunk(-16, 0, 0).unwrap();
    assert!(chunk.right().is_none());
    assert!(!chunk.has_mesh());
}

#[test]
fn one_snapshot_is_resolved_per_tick_in_priority_order() {
    let mut world: World<usize> = World::new(1);
    world.update((0, 0), &flat, &upload);
    {
        let c = world.get_chunk(0, 0, 0).unwrap();
        assert!(c.left().is_some());
        assert!(c.right().is_none() && c.front().is_none() && c.back().is_none());
        assert!(!c.is_building());
    }
    world.update((0, 0), &flat, &upload);
    {
        let c = world.get_chunk(0, 0, 0).unwrap();
        assert!(c.left().is_some() && c.right().is_some());
        assert!(c.front().is_none() && c.back().is_none());
    }
    world.update((0, 0), &flat, &upload);
    {
        let c = world.get_chunk(0, 0, 0).unwrap();
        assert!(c.front().is_some());
        assert!(c.back().is_none());
        assert!(!c.is_building() && !c.has_mesh());
    }
    world.update((0, 0), &flat, &upload);
    {
        let c = world.get_chunk(0, 0, 0).unwrap();
        assert!(c.back().is_some());
        assert!(c.is_building() || c.has_mesh());
    }
    // a chunk on the left edge of the window waits for its left neighbour
    // and resolves nothing else meanwhile
    let edge = world.get_chunk(-32, 0, 0).unwrap();
    assert!(edge.left().is_none() && edge.right().is_none());
    assert!(edge.front().is_none() && edge.back().is_none());
    // a chunk in the first row of z waits for its front neighbour
    let first = world.get_chunk(0, 0, -32).unwrap();
    assert!(first.left().is_some() && first.right().is_some());
    assert!(first.front().is_none() && first.back().is_none());
}

#[test]
fn a_snapshot_is_not_taken_from_a_chunk_created_later_in_the_same_tick() {
    let mut world: World<usize> = World::new(1);
    assert!(tick_until(&mut world, (0, 0), |w| w.buffer(0, 0).is_some()));
    // the chunk at (1, 0) is on the right edge: it has no right neighbour
    let edge = world.get_chunk(16, 0, 0).unwrap();
    assert!(edge.left().is_some());
    assert!(edge.right().is_none());
    // one chunk further, (2, 0) comes into the window, but after (1, 0) in
    // scan order
    world.update((16, 0), &flat, &upload);
    assert!(world.get_chunk(16, 0, 0).unwrap().right().is_none());
    world.update((16, 0), &flat, &upload);
    assert!(world.get_chunk(16, 0, 0).unwrap().right().is_some());
}

#[test]
fn meshes_become_buffers() {
    let mut world: World<usize> = World::new(1);
    assert!(tick_until(&mut world, (0, 0), |w| {
        w.buffer(0, 0).is_some()
            && w.buffer(-1, 0).is_some()
            && w.buffer(0, -1).is_some()
            && w.buffer(-1, -1).is_some()
    }));
    let chunk = world.get_chunk(0, 0, 0).unwrap();
    assert!(chunk.has_mesh());
    assert!(!chunk.needs_buffer());
    let buffer = world.buffer(0, 0).unwrap();
    // flat terrain with the same terrain all around: the top and the bottom
    assert_eq!(chunk.mesh().vertices().len(), 4 * 512);
    assert_eq!(buffer.vertex_count, 4 * 512);
    assert_eq!(buffer.index_count, 6 * 512);
    assert_eq!(buffer.alpha_vertex_count, 0);
    assert_eq!(buffer.alpha_index_count, 0);
    assert_eq!(buffer.handle, 4 * 512);
    assert_eq!(world.vertex_count(), 4 * 4 * 512);
    assert_eq!(world.triangle_count(), 4 * 2 * 512);
    assert_eq!(world.total(Count::Vertices), 4 * 4 * 512);
    assert_eq!(buffer.count(Count::Triangles), 2 * 512);
    // chunks on the edge of the window are never meshed
    for (cx, cz) in [(-2, -2), (-2, 0), (1, 0), (0, 1), (0, -2), (1, 1)] {
        assert!(world.buffer(cx, cz).is_none());
        assert!(!world.get_chunk(cx * 16, 0, cz * 16).unwrap().has_mesh());
    }
    // further ticks carry the buffers forward without a new upload
    let uploads = Cell::new(0);
    let counting = |mesh: &ChunkMesh| {
        uploads.set(uploads.get() + 1);
        mesh.vertices().len()
    };
    world.update((0, 0), &flat, &counting);
    world.update((3, 7), &flat, &counting);
    assert_eq!(uploads.get(), 0);
    assert_eq!(world.buffer(0, 0).unwrap().handle, 4 * 512);
}

#[test]
fn the_draw_list_leaves_out_what_is_culled() {
    let mut world: World<usize> = World::new(1);
    assert!(tick_until(&mut world, (0, 0), |w| {
        w.buffer(0, 0).is_some()
            && w.buffer(-1, 0).is_some()
            && w.buffer(0, -1).is_some()
            && w.buffer(-1, -1).is_some()
    }));
    world.place_block(Some(&target(-1, 60, -1, BlockFace::Top)));
    assert!(tick_until(&mut world, (0, 0), |w| w.get_chunk(-1, 0, -1).unwrap().has_mesh()));
    let all = world.buffers(&|_| false);
    assert_eq!(all.len(), 4);
    // scan order: by x, then by z
    assert_eq!(all[0].vertex_count, 4 * 512 + 16);
    assert_eq!(all[1].vertex_count, 4 * 512);
    assert!(world.buffers(&|_| true).is_empty());
    let asked = Cell::new(0);
    let some = world.buffers(&|bounds| {
        asked.set(asked.get() + 1);
        assert_eq!((bounds.min_y, bounds.max_y), (0, 256));
        assert_eq!((bounds.max_x - bounds.min_x, bounds.max_z - bounds.min_z), (16, 16));
        bounds.min_x == -16 && bounds.min_z == -16
    });
    assert_eq!(asked.get(), 4);
    assert_eq!(some.len(), 3);
    assert!(some.iter().all(|b| b.vertex_count == 4 * 512));
    assert_eq!(world.vertex_count(), 4 * 4 * 512 + 16);
}

#[test]
fn generation_fills_the_window_and_links_the_chunks() {
    let mut world: World<usize> = World::new(1);
    world.generate((0, 0), &flat);
    assert_eq!(world.center(), Some((0, 0)));
    for cx in -4..4 {
        for cz in -4..4 {
            let inside = -2 <= cx && cx < 2 && -2 <= cz && cz < 2;
            assert_eq!(resident(&world, cx, cz), inside);
            assert!(world.buffer(cx, cz).is_none());
        }
    }
    let inner = world.get_chunk(0, 0, 0).unwrap();
    assert_eq!(inner.left().as_ref().unwrap(), world.get_chunk(-16, 0, 0).unwrap().blocks());
    assert_eq!(inner.right().as_ref().unwrap(), world.get_chunk(16, 0, 0).unwrap().blocks());
    assert_eq!(inner.front().as_ref().unwrap(), world.get_chunk(0, 0, -16).unwrap().blocks());
    assert_eq!(inner.back().as_ref().unwrap(), world.get_chunk(0, 0, 16).unwrap().blocks());
    assert!(!inner.has_mesh() && !inner.is_building());
    // towards the outside of the window there is no snapshot
    let corner = world.get_chunk(-32, 0, -32).unwrap();
    assert!(corner.left().is_none());
    assert!(corner.front().is_none());
    assert_eq!(corner.right().as_ref().unwrap().len(), 65536);
    assert_eq!(corner.back().as_ref().unwrap().len(), 65536);
    let edge = world.get_chunk(16, 0, 0).unwrap();
    assert!(edge.right().is_none());
    assert!(edge.left().is_some() && edge.front().is_some() && edge.back().is_some());
    // so the inner chunks are meshed at once, and the outer ring waits for
    // neighbours that are not there
    assert!(tick_until(&mut world, (0, 0), |w| {
        (-1..1).all(|cx| (-1..1).all(|cz| w.buffer(cx, cz).is_some()))
    }));
    assert_eq!(world.buffer(0, 0).unwrap().vertex_count, 4 * 512);
    for _ in 0..4 {
        world.update((0, 0), &flat, &upload);
    }
    for (cx, cz) in [(-2, -2), (-2, 0), (1, 0), (0, 1), (0, -2), (1, 1), (1, -2)] {
        let c = world.get_chunk(cx * 16, 0, cz * 16).unwrap();
        assert!(!c.has_mesh() && !c.is_building());
        assert!(world.buffer(cx, cz).is_none());
    }
    assert!(world.get_chunk(-32, 0, -32).unwrap().left().is_none());
    // generating again drops what was there
    world.generate((160, 160), &flat);
    assert!(!resident(&world, 0, 0));
    assert!(resident(&world, 10, 10));
    assert!(world.buffer(0, 0).is_none());
    assert_eq!(world.vertex_count(), 0);
}

#[test]
fn blocks_are_read_by_world_position() {
    let mut world: World<usize> = World::new(0);
    world.generate((0, 0), &|x: i32, z: i32| 50 + x + z);
    assert_eq!(world.get_block(0, 50, 0), Some(GRASS));
    assert_eq!(world.get_block(0, 51, 0), Some(WATER));
    assert_eq!(world.get_block(0, 61, 0), Some(AIR));
    assert_eq!(world.get_block(-3, 44, -3), Some(GRASS));
    assert_eq!(world.get_block(-3, 45, -3), Some(WATER));
    assert_eq!(world.get_block(10, 65, 5), Some(GRASS));
    assert_eq!(world.get_block(10, 66, 5), Some(AIR));
    // above and below the build volume there is air
    assert_eq!(world.get_block(0, 256, 0), Some(AIR));
    assert_eq!(world.get_block(0, -1, 0), Some(AIR));
    assert_eq!(world.get_block(0, i32::MAX, 0), Some(AIR));
    // outside the resident chunks there is nothing
    assert_eq!(world.get_block(16, 50, 0), None);
    assert_eq!(world.get_block(0, 50, -17), None);
    assert_eq!(world.get_block(16, 300, 0), None);
}

#[test]
fn placing_puts_a_block_across_the_named_face() {
    let cases = [
        (BlockFace::Top, (5, 61, 5)),
        (BlockFace::Bottom, (5, 59, 5)),
        (BlockFace::Left, (5, 60, 4)),
        (BlockFace::Right, (5, 60, 6)),
        (BlockFace::Front, (4, 60, 5)),
        (BlockFace::Back, (6, 60, 5)),
    ];
    for (face, spot) in cases {
        let mut world: World<usize> = World::new(0);
        world.generate((0, 0), &|_: i32, _: i32| 20);
        // the voxels around (5, 60, 5) are water
        assert_eq!(world.get_block(spot.0, spot.1, spot.2), Some(if spot.1 == 61 { AIR } else { WATER }));
        world.place_block(Some(&target(5, 60, 5, face)));
        assert_eq!(world.get_block(spot.0, spot.1, spot.2), Some(STONE));
        assert_eq!(world.get_block(5, 60, 5), Some(WATER));
    }
}

#[test]
fn edits_without_effect_change_nothing() {
    let mut world: World<usize> = World::new(0);
    world.generate((0, 0), &flat);
    let before: Vec<Vec<u8>> = (-1..1)
        .flat_map(|cx| (-1..1).map(move |cz| (cx, cz)))
        .map(|(cx, cz)| world.get_chunk(cx * 16, 0, cz * 16).unwrap().blocks().clone())
        .collect();
    world.place_block(None);
    world.remove_block(None);
    world.place_block(Some(&target(5, 60, 5, BlockFace::NoFace)));
    // outside the resident chunks
    world.place_block(Some(&target(15, 60, 5, BlockFace::Back)));
    world.remove_block(Some(&target(16, 60, 5, BlockFace::Top)));
    // outside the build volume
    world.place_block(Some(&target(5, 255, 5, BlockFace::Top)));
    world.place_block(Some(&target(5, 0, 5, BlockFace::Bottom)));
    world.remove_block(Some(&target(5, 256, 5, BlockFace::Top)));
    // no such position
    world.place_block(Some(&target(5, i32::MAX, 5, BlockFace::Top)));
    let after: Vec<Vec<u8>> = (-1..1)
        .flat_map(|cx| (-1..1).map(move |cz| (cx, cz)))
        .map(|(cx, cz)| world.get_chunk(cx * 16, 0, cz * 16).unwrap().blocks().clone())
        .collect();
    assert_eq!(before, after);
    for cx in -1..1 {
        for cz in -1..1 {
            assert_eq!(snapshots(&world, cx, cz), [cx == 0, cx == -1, cz == 0, cz == -1]);
        }
    }
}

fn snapshots(world: &World<usize>, cx: i32, cz: i32) -> [bool; 4] {
    let c = world.get_chunk(cx * 16, 0, cz * 16).unwrap();
    [c.left().is_some(), c.right().is_some(), c.front().is_some(), c.back().is_some()]
}

/// Checks that every chunk of the window from -2 to 1 has a snapshot of
/// each neighbour in the window, but for the one that was cleared.
fn all_snapshots_but(world: &World<usize>, cleared: Option<((i32, i32), usize)>) {
    let inside = |c: i32| -2 <= c && c < 2;
    for cx in -2..2 {
        for cz in -2..2 {
            let mut expected = [inside(cx - 1), inside(cx + 1), inside(cz - 1), inside(cz + 1)];
            if let Some((at, which)) = cleared {
                if at == (cx, cz) {
                    assert!(expected[which]);
                    expected[which] = false;
                }
            }
            assert_eq!(snapshots(world, cx, cz), expected);
        }
    }
}

#[test]
fn an_edit_on_a_boundary_invalidates_the_one_snapshot_across_it() {
    // (world x, world z) of the edit, the neighbour and which of its
    // snapshots (left, right, front, back) is cleared
    let cases = [
        ((0, 5), (-1, 0), 1usize),
        ((15, 5), (1, 0), 0),
        ((5, 0), (0, -1), 3),
        ((5, 15), (0, 1), 2),
        ((-16, -11), (-2, -1), 1),
        ((-1, -5), (0, -1), 0),
        // on a corner the boundary in x counts
        ((0, 0), (-1, 0), 1),
        ((15, 15), (1, 0), 0),
        ((0, 15), (-1, 0), 1),
    ];
    for ((x, z), neighbour, which) in cases {
        let mut world: World<usize> = World::new(1);
        world.generate((0, 0), &flat);
        all_snapshots_but(&world, None);
        world.remove_block(Some(&target(x, 60, z, BlockFace::Top)));
        assert_eq!(world.get_block(x, 60, z), Some(AIR));
        all_snapshots_but(&world, Some((neighbour, which)));
    }
}

#[test]
fn an_edit_inside_a_chunk_invalidates_no_snapshot() {
    for (x, z) in [(1, 1), (14, 14), (5, 9), (-2, -15), (1, 14)] {
        let mut world: World<usize> = World::new(1);
        world.generate((0, 0), &flat);
        world.remove_block(Some(&target(x, 60, z, BlockFace::Top)));
        assert_eq!(world.get_block(x, 60, z), Some(AIR));
        all_snapshots_but(&world, None);
    }
}

#[test]
fn a_neighbour_that_is_not_resident_is_not_touched() {
    let mut world: World<usize> = World::new(0);
    world.generate((0, 0), &flat);
    world.remove_block(Some(&target(15, 60, 5, BlockFace::Top)));
    assert_eq!(world.get_block(15, 60, 5), Some(AIR));
    for cx in -1..1 {
        for cz in -1..1 {
            assert_eq!(snapshots(&world, cx, cz), [cx == 0, cx == -1, cz == 0, cz == -1]);
        }
    }
}

#[test]
fn place_then_remove_restores_the_voxels() {
    let mut world: World<usize> = World::new(1);
    world.generate((0, 0), &flat);
    let before = world.get_chunk(0, 0, 0).unwrap().blocks().clone();
    assert!(tick_until(&mut world, (0, 0), |w| w.get_chunk(0, 0, 0).unwrap().has_mesh()
        && w.get_chunk(-1, 0, 0).unwrap().has_mesh()));
    let flat_vertices = world.buffer(0, 0).unwrap().vertex_count;

    world.place_block(Some(&target(0, 60, 5, BlockFace::Top)));
    assert_eq!(world.get_block(0, 61, 5), Some(STONE));
    assert!(!world.get_chunk(0, 0, 0).unwrap().has_mesh());
    assert!(world.get_chunk(-16, 0, 0).unwrap().right().is_none());
    assert!(!world.get_chunk(-16, 0, 0).unwrap().has_mesh());
    all_snapshots_but(&world, Some(((-1, 0), 1)));
    assert!(tick_until(&mut world, (0, 0), |w| w.get_chunk(0, 0, 0).unwrap().has_mesh()
        && w.get_chunk(-1, 0, 0).unwrap().has_mesh()));
    assert_eq!(world.buffer(0, 0).unwrap().vertex_count, flat_vertices + 16);
    all_snapshots_but(&world, None);

    world.remove_block(Some(&target(0, 61, 5, BlockFace::Top)));
    assert_eq!(world.get_block(0, 61, 5), Some(AIR));
    assert!(!world.get_chunk(0, 0, 0).unwrap().has_mesh());
    all_snapshots_but(&world, Some(((-1, 0), 1)));
    assert_eq!(world.get_chunk(0, 0, 0).unwrap().blocks(), &before);
    assert!(tick_until(&mut world, (0, 0), |w| w.get_chunk(0, 0, 0).unwrap().has_mesh()
        && w.get_chunk(-1, 0, 0).unwrap().has_mesh()));
    assert_eq!(world.buffer(0, 0).unwrap().vertex_count, flat_vertices);
    assert_eq!(
        world.get_chunk(-16, 0, 0).unwrap().right().as_ref().unwrap(),
        world.get_chunk(0, 0, 0).unwrap().blocks()
    );
}

#[test]
fn placing_into_water_is_not_undone_by_removing() {
    let mut world: World<usize> = World::new(0);
    world.generate((0, 0), &|_: i32, _: i32| 20);
    assert_eq!(world.get_block(5, 30, 5), Some(WATER));
    world.place_block(Some(&target(5, 29, 5, BlockFace::Top)));
    assert_eq!(world.get_block(5, 30, 5), Some(STONE));
    world.remove_block(Some(&target(5, 30, 5, BlockFace::Top)));
    assert_eq!(world.get_block(5, 30, 5), Some(AIR));
}
