use voxel_world::block::{Block, DIRT, GRASS, STONE, WATER};
use voxel_world::chunk::Chunk;
use voxel_world::chunk_mesh::ChunkMesh;
use voxel_world::mesher::MeshJob;
use voxel_world::vertex::Vertex;

const SIZE: usize = 65536;

fn index(x: usize, y: usize, z: usize) -> usize {
    x + z * 16 + y * 256
}

fn empty_blocks() -> Vec<u8> {
    vec![0u8; SIZE]
}

fn job(blocks: Vec<u8>) -> MeshJob {
    MeshJob {
        blocks,
        left: Vec::new(),
        right: Vec::new(),
        front: Vec::new(),
        back: Vec::new(),
        world_position: (0, 0),
    }
}

fn assert_index_local(mesh: &ChunkMesh) {
    for i in mesh.indices() {
        assert!((*i as usize) < mesh.vertices().len());
    }
    for i in mesh.alpha_indices() {
        assert!((*i as usize) < mesh.alpha_vertices().len());
    }
}

#[test]
fn index_and_coordinates_round_trip() {
    assert_eq!(Chunk::xyz_to_index(0, 0, 0), 0);
    assert_eq!(Chunk::xyz_to_index(1, 0, 0), 1);
    assert_eq!(Chunk::xyz_to_index(0, 0, 1), 16);
    assert_eq!(Chunk::xyz_to_index(0, 1, 0), 256);
    assert_eq!(Chunk::xyz_to_index(15, 255, 15), 65535);
    assert_eq!(Chunk::xyz_to_index(3, 7, 5), 3 + 5 * 16 + 7 * 256);
    assert_eq!(Chunk::index_to_xyz(0), (0, 0, 0));
    assert_eq!(Chunk::index_to_xyz(65535), (15, 255, 15));
    assert_eq!(Chunk::index_to_xyz(3 + 5 * 16 + 7 * 256), (3, 7, 5));
    for i in [0usize, 1, 15, 16, 255, 256, 4095, 4096, 40000, 65535] {
        let (x, y, z) = Chunk::index_to_xyz(i);
        assert_eq!(Chunk::xyz_to_index(x, y, z), i);
    }
}

#[test]
fn chunk_dimensions() {
    assert_eq!(Chunk::WIDTH, 16);
    assert_eq!(Chunk::DEPTH, 16);
    assert_eq!(Chunk::HEIGHT, 256);
    assert_eq!(Chunk::SIZE, 16 * 16 * 256);
    assert_eq!(Chunk::local_to_world_position((0, 0)), (0, 0));
    assert_eq!(Chunk::local_to_world_position((3, -2)), (48, -32));
}

#[test]
fn lone_solid_voxel_emits_six_faces() {
    let mut blocks = empty_blocks();
    blocks[index(5, 5, 5)] = GRASS;
    let mesh = job(blocks).build();
    assert_eq!(mesh.vertices().len(), 24);
    assert_eq!(mesh.indices().len(), 36);
    assert_eq!(mesh.alpha_vertices().len(), 0);
    assert_eq!(mesh.alpha_indices().len(), 0);
    assert_index_local(&mesh);
}

#[test]
fn adjacent_solids_do_not_emit_the_shared_face() {
    for (dx, dy, dz) in [(1usize, 0usize, 0usize), (0, 1, 0), (0, 0, 1)] {
        let mut blocks = empty_blocks();
        blocks[index(5, 5, 5)] = STONE;
        blocks[index(5 + dx, 5 + dy, 5 + dz)] = DIRT;
        let mesh = job(blocks.clone()).build();
        assert_eq!(mesh.vertices().len(), 40);
        assert_eq!(mesh.indices().len(), 60);
        assert_index_local(&mesh);
    }
    let mut blocks = empty_blocks();
    blocks[index(5, 5, 5)] = STONE;
    blocks[index(6, 5, 5)] = STONE;
    let a = index(5, 5, 5);
    let b = index(6, 5, 5);
    let none = Vec::new();
    assert!(!Chunk::has_right(&blocks, &none, a));
    assert!(!Chunk::has_left(&blocks, &none, b));
    assert!(Chunk::has_left(&blocks, &none, a));
    assert!(Chunk::has_right(&blocks, &none, b));
}

#[test]
fn solid_beside_air_emits_the_face_on_the_air_side() {
    let mut blocks = empty_blocks();
    blocks[index(5, 5, 5)] = GRASS;
    let i = index(5, 5, 5);
    let none = Vec::new();
    assert!(Chunk::has_left(&blocks, &none, i));
    assert!(Chunk::has_right(&blocks, &none, i));
    assert!(Chunk::has_front(&blocks, &none, i));
    assert!(Chunk::has_back(&blocks, &none, i));
    assert!(Chunk::has_top(&blocks, i));
    assert!(Chunk::has_bottom(&blocks, i));
    // a filled layer below a single block: only the block's own five free
    // faces and the layer's outer faces are emitted
    let mut blocks = empty_blocks();
    for x in 0..16 {
        for z in 0..16 {
            blocks[index(x, 0, z)] = STONE;
        }
    }
    let mesh = job(blocks.clone()).build();
    // 256 top faces, 256 bottom faces, 4 * 16 side faces
    assert_eq!(mesh.vertices().len(), 4 * (256 + 256 + 64));
    blocks[index(3, 1, 3)] = STONE;
    let mesh = job(blocks).build();
    // the block hides one top face of the layer and adds five of its own
    assert_eq!(mesh.vertices().len(), 4 * (256 + 256 + 64 - 1 + 5));
    assert_index_local(&mesh);
}

#[test]
fn water_hides_water_but_not_solid_faces() {
    let mut blocks = empty_blocks();
    blocks[index(5, 5, 5)] = WATER;
    blocks[index(6, 5, 5)] = WATER;
    let mesh = job(blocks).build();
    assert_eq!(mesh.vertices().len(), 0);
    assert_eq!(mesh.alpha_vertices().len(), 40);
    assert_eq!(mesh.alpha_indices().len(), 60);
    assert_index_local(&mesh);

    let mut blocks = empty_blocks();
    blocks[index(5, 5, 5)] = WATER;
    blocks[index(6, 5, 5)] = STONE;
    let mesh = job(blocks).build();
    // the stone shows all six faces, the water hides the one towards it
    assert_eq!(mesh.vertices().len(), 24);
    assert_eq!(mesh.alpha_vertices().len(), 20);
    assert_index_local(&mesh);
}

#[test]
fn opaque_and_alpha_lists_are_indexed_apart() {
    let mut blocks = empty_blocks();
    blocks[index(1, 1, 1)] = WATER;
    blocks[index(3, 1, 1)] = STONE;
    blocks[index(5, 1, 1)] = WATER;
    blocks[index(7, 1, 1)] = STONE;
    let mesh = job(blocks).build();
    assert_eq!(mesh.vertices().len(), 48);
    assert_eq!(mesh.alpha_vertices().len(), 48);
    assert_eq!(mesh.indices().len(), 72);
    assert_eq!(mesh.alpha_indices().len(), 72);
    assert_eq!(&mesh.indices()[0..6], &[0, 1, 2, 0, 2, 3]);
    assert_eq!(&mesh.alpha_indices()[0..6], &[0, 1, 2, 0, 2, 3]);
    assert_eq!(&mesh.indices()[36..42], &[24, 25, 26, 24, 26, 27]);
    assert_eq!(&mesh.alpha_indices()[36..42], &[24, 25, 26, 24, 26, 27]);
    assert_eq!(*mesh.indices().iter().max().unwrap(), 47);
    assert_eq!(*mesh.alpha_indices().iter().max().unwrap(), 47);
    assert_index_local(&mesh);
}

#[test]
fn faces_on_the_chunk_edge_read_the_snapshots() {
    let mut blocks = empty_blocks();
    blocks[index(0, 5, 0)] = STONE;
    blocks[index(15, 5, 15)] = STONE;
    let a = index(0, 5, 0);
    let b = index(15, 5, 15);
    let mut solid = empty_blocks();
    for v in solid.iter_mut() {
        *v = STONE;
    }
    let air = empty_blocks();
    let none: Vec<u8> = Vec::new();
    assert!(!Chunk::has_left(&blocks, &solid, a));
    assert!(Chunk::has_left(&blocks, &air, a));
    assert!(Chunk::has_left(&blocks, &none, a));
    assert!(!Chunk::has_front(&blocks, &solid, a));
    assert!(Chunk::has_front(&blocks, &air, a));
    assert!(!Chunk::has_right(&blocks, &solid, b));
    assert!(Chunk::has_right(&blocks, &none, b));
    assert!(!Chunk::has_back(&blocks, &solid, b));
    assert!(Chunk::has_back(&blocks, &air, b));
    // the mirrored voxel decides, not any other
    let mut mirrored = empty_blocks();
    mirrored[index(15, 5, 0)] = STONE;
    assert!(!Chunk::has_left(&blocks, &mirrored, a));
    let mut elsewhere = empty_blocks();
    elsewhere[index(15, 6, 0)] = STONE;
    elsewhere[index(0, 5, 0)] = STONE;
    assert!(Chunk::has_left(&blocks, &elsewhere, a));
    let full = MeshJob {
        blocks: blocks.clone(),
        left: solid.clone(),
        right: solid.clone(),
        front: solid.clone(),
        back: solid.clone(),
        world_position: (0, 0),
    }
    .build();
    // each of the two corner blocks loses the two faces towards the solid
    // neighbours
    assert_eq!(full.vertices().len(), 4 * 8);
}

#[test]
fn top_and_bottom_of_the_build_volume_are_always_visible() {
    let mut blocks = empty_blocks();
    for v in blocks.iter_mut() {
        *v = STONE;
    }
    for i in [0usize, 17, 255] {
        assert!(Chunk::has_bottom(&blocks, i));
        assert!(!Chunk::has_top(&blocks, i));
    }
    for i in [65535usize, 65280, 65300] {
        assert!(Chunk::has_top(&blocks, i));
        assert!(!Chunk::has_bottom(&blocks, i));
    }
    assert!(!Chunk::has_bottom(&blocks, 256));
    let solid = blocks.clone();
    let mesh = MeshJob {
        blocks,
        left: solid.clone(),
        right: solid.clone(),
        front: solid.clone(),
        back: solid,
        world_position: (0, 0),
    }
    .build();
    assert_eq!(mesh.vertices().len(), 4 * 512);
    assert_eq!(mesh.indices().len(), 6 * 512);
    assert_index_local(&mesh);
}

#[test]
fn unknown_ids_are_meshed_as_air() {
    let mut blocks = empty_blocks();
    blocks[index(5, 5, 5)] = 200;
    blocks[index(6, 5, 5)] = STONE;
    let mesh = job(blocks).build();
    assert_eq!(mesh.vertices().len(), 24);
    assert_eq!(mesh.alpha_vertices().len(), 0);
}

#[test]
fn vertices_carry_position_texture_and_opacity() {
    let mut blocks = empty_blocks();
    blocks[index(1, 2, 3)] = GRASS;
    let mesh = MeshJob {
        blocks,
        left: Vec::new(),
        right: Vec::new(),
        front: Vec::new(),
        back: Vec::new(),
        world_position: (16, -32),
    }
    .build();
    let v = mesh.vertices();
    // first face looks towards -z; first corner is the voxel's origin
    assert_eq!(v[0], Vertex { x: 170, y: 20, z: -290, u: 0, v: 15, opacity: 10 });
    assert_eq!(v[1], Vertex { x: 180, y: 20, z: -290, u: 1, v: 15, opacity: 10 });
    assert_eq!(v[2], Vertex { x: 180, y: 30, z: -290, u: 1, v: 16, opacity: 10 });
    assert_eq!(v[3], Vertex { x: 170, y: 30, z: -290, u: 0, v: 16, opacity: 10 });
    // the top face uses the grass top tile, the bottom face the dirt tile
    assert_eq!(v[16], Vertex { x: 170, y: 30, z: -290, u: 1, v: 15, opacity: 10 });
    assert_eq!(v[20], Vertex { x: 170, y: 20, z: -280, u: 2, v: 15, opacity: 10 });
}

#[test]
fn build_faces_scales_and_offsets() {
    let water = Block::block(WATER);
    let (verts, inds) = water.build_faces(2, 3, 4, [false, false, false, false, true, false], 8);
    assert_eq!(inds, vec![8, 9, 10, 8, 10, 11]);
    assert_eq!(
        verts,
        vec![
            Vertex { x: 20, y: 39, z: 40, u: 4, v: 15, opacity: 6 },
            Vertex { x: 30, y: 39, z: 40, u: 5, v: 15, opacity: 6 },
            Vertex { x: 30, y: 39, z: 50, u: 5, v: 16, opacity: 6 },
            Vertex { x: 20, y: 39, z: 50, u: 4, v: 16, opacity: 6 },
        ]
    );
    let stone = Block::block(STONE);
    let (verts, inds) = stone.build_faces(0, 0, 0, [true, true, false, false, false, true], 0);
    assert_eq!(verts.len(), 12);
    assert_eq!(inds, vec![0, 1, 2, 0, 2, 3, 4, 5, 6, 4, 6, 7, 8, 9, 10, 8, 10, 11]);
    let (verts, inds) = stone.build_faces(0, 0, 0, [false; 6], 0);
    assert!(verts.is_empty() && inds.is_empty());
    // the offset may be as large as the faces that are set leave room for
    let (verts, inds) = stone.build_faces(0, 0, 0, [false, false, true, false, false, false], 0xffff_fff0);
    assert_eq!(verts.len(), 4);
    assert_eq!(
        inds,
        vec![0xffff_fff0, 0xffff_fff1, 0xffff_fff2, 0xffff_fff0, 0xffff_fff2, 0xffff_fff3]
    );
    let (verts, inds) = stone.build_faces(0, 0, 0, [false; 6], u32::MAX);
    assert!(verts.is_empty() && inds.is_empty());
    let (_, inds) = stone.build_faces(0, 0, 0, [true; 6], u32::MAX - 24);
    assert_eq!(inds[35], u32::MAX - 1);
    let (verts, inds) = stone.build_faces(-5, 0, 7, [true; 6], 100);
    assert_eq!(verts.len(), 24);
    assert_eq!(inds.len(), 36);
    assert_eq!(inds[35], 123);
    assert_eq!(verts[0], Vertex { x: -50, y: 0, z: 70, u: 3, v: 15, opacity: 10 });
}

#[test]
fn checked_mesh_constructor_accepts_only_local_indices() {
    let v = Vertex { x: 0, y: 0, z: 0, u: 0, v: 0, opacity: 10 };
    assert!(ChunkMesh::new(vec![v; 4], vec![0, 1, 2, 0, 2, 3], vec![], vec![]).is_some());
    assert!(ChunkMesh::new(vec![v; 4], vec![0, 1, 2, 0, 2, 4], vec![], vec![]).is_none());
    assert!(ChunkMesh::new(vec![], vec![], vec![v; 3], vec![2, 1, 0]).is_some());
    assert!(ChunkMesh::new(vec![v; 4], vec![], vec![v; 3], vec![3]).is_none());
    let empty = ChunkMesh::empty();
    assert!(empty.vertices().is_empty() && empty.indices().is_empty());
    assert!(empty.alpha_vertices().is_empty() && empty.alpha_indices().is_empty());
    let mesh = ChunkMesh::new(vec![v; 4], vec![0, 1, 2, 0, 2, 3], vec![v; 3], vec![2, 1, 0]).unwrap();
    let copy = mesh.duplicate();
    assert_eq!(copy.vertices(), mesh.vertices());
    assert_eq!(copy.indices(), mesh.indices());
    assert_eq!(copy.alpha_vertices(), mesh.alpha_vertices());
    assert_eq!(copy.alpha_indices(), mesh.alpha_indices());
}
