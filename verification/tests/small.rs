use voxel_world::block_face::BlockFace;
use voxel_world::chunk_buffer::ChunkBuffer;
use voxel_world::chunk_mesh::ChunkMesh;
use voxel_world::drawing::{chunk_bounds, Count};
use voxel_world::vertex::Vertex;
use voxel_world::registry::Registry;
use voxel_world::target_vertex::TargetVertex;

#[test]
fn faces_are_numbered_from_none_to_bottom() {
    let all = [
        BlockFace::NoFace,
        BlockFace::Left,
        BlockFace::Right,
        BlockFace::Front,
        BlockFace::Back,
        BlockFace::Top,
        BlockFace::Bottom,
    ];
    for (n, face) in all.iter().enumerate() {
        assert_eq!(face.code(), n as u32);
        assert_eq!(BlockFace::from_code(n as u32), Some(*face));
    }
    assert_eq!(BlockFace::from_code(7), None);
    assert_eq!(BlockFace::from_code(u32::MAX), None);
}

#[test]
fn the_first_close_plane_names_the_face() {
    assert_eq!(BlockFace::from_contacts(true, true, true, true, true), BlockFace::Front);
    assert_eq!(BlockFace::from_contacts(false, true, true, true, true), BlockFace::Back);
    assert_eq!(BlockFace::from_contacts(false, false, true, true, true), BlockFace::Left);
    assert_eq!(BlockFace::from_contacts(false, false, false, true, true), BlockFace::Right);
    assert_eq!(BlockFace::from_contacts(false, false, false, false, true), BlockFace::Bottom);
    assert_eq!(BlockFace::from_contacts(false, false, false, false, false), BlockFace::Top);
    assert_eq!(BlockFace::from_contacts(true, false, false, false, true), BlockFace::Front);
}

#[test]
fn each_face_steps_to_the_voxel_across_it() {
    assert_eq!(BlockFace::Top.step(), (0, 1, 0));
    assert_eq!(BlockFace::Bottom.step(), (0, -1, 0));
    assert_eq!(BlockFace::Left.step(), (0, 0, -1));
    assert_eq!(BlockFace::Right.step(), (0, 0, 1));
    assert_eq!(BlockFace::Front.step(), (-1, 0, 0));
    assert_eq!(BlockFace::Back.step(), (1, 0, 0));
    assert_eq!(BlockFace::NoFace.step(), (0, 0, 0));
}

#[test]
fn the_outline_is_the_unit_cube() {
    let (vertices, indices) = TargetVertex::load();
    assert_eq!(vertices.len(), 24);
    assert_eq!(indices.len(), 36);
    assert_eq!(vertices[0], TargetVertex { x: 0, y: 0, z: 0 });
    assert_eq!(vertices[1], TargetVertex { x: 1, y: 0, z: 0 });
    assert_eq!(vertices[2], TargetVertex { x: 1, y: 1, z: 0 });
    assert_eq!(vertices[3], TargetVertex { x: 0, y: 1, z: 0 });
    assert_eq!(vertices[4], TargetVertex { x: 1, y: 0, z: 1 });
    assert_eq!(vertices[23], TargetVertex { x: 0, y: 0, z: 0 });
    assert_eq!(&indices[0..6], &[0, 1, 2, 0, 2, 3]);
    assert_eq!(&indices[30..36], &[20, 21, 22, 20, 22, 23]);
    // the top face lies in the plane y = 1, the bottom face in y = 0
    assert!(vertices[16..20].iter().all(|v| v.y == 1));
    assert!(vertices[20..24].iter().all(|v| v.y == 0));
}

#[test]
fn a_chunk_is_bounded_over_the_full_height() {
    let b = chunk_bounds(0, 0);
    assert_eq!((b.min_x, b.min_y, b.min_z), (0, 0, 0));
    assert_eq!((b.max_x, b.max_y, b.max_z), (16, 256, 16));
    let b = chunk_bounds(-1, 2);
    assert_eq!((b.min_x, b.min_y, b.min_z), (-16, 0, 32));
    assert_eq!((b.max_x, b.max_y, b.max_z), (0, 256, 48));
    let b = chunk_bounds(0x7ff_ffff, -0x800_0000);
    assert_eq!((b.min_x, b.min_y, b.min_z), (2147483632, 0, -2147483648));
    assert_eq!((b.max_x, b.max_y, b.max_z), (2147483648, 256, -2147483632));
}

#[test]
fn the_registry_keeps_one_value_per_coordinate() {
    let mut r: Registry<u32> = Registry::new();
    assert!(!r.contains(0, 0));
    assert_eq!(r.get(0, 0), None);
    assert_eq!(r.insert(0, 0, 1), None);
    assert_eq!(r.insert(0, 1, 2), None);
    assert_eq!(r.insert(1, 0, 3), None);
    assert_eq!(r.insert(-1, -1, 4), None);
    assert_eq!(r.insert(i32::MIN, i32::MAX, 5), None);
    assert_eq!(r.insert(i32::MAX, i32::MIN, 6), None);
    assert_eq!(r.get(0, 0), Some(&1));
    assert_eq!(r.get(0, 1), Some(&2));
    assert_eq!(r.get(1, 0), Some(&3));
    assert_eq!(r.get(-1, -1), Some(&4));
    assert_eq!(r.get(i32::MIN, i32::MAX), Some(&5));
    assert_eq!(r.get(i32::MAX, i32::MIN), Some(&6));
    assert_eq!(r.insert(0, 1, 20), Some(2));
    assert_eq!(r.get(0, 1), Some(&20));
    assert_eq!(r.remove(0, 1), Some(20));
    assert_eq!(r.remove(0, 1), None);
    assert!(!r.contains(0, 1));
    assert!(r.contains(1, 0));
}

#[test]
fn a_buffer_records_the_lengths_of_its_mesh() {
    let v = Vertex { x: 0, y: 0, z: 0, u: 0, v: 0, opacity: 10 };
    let mesh = ChunkMesh::new(vec![v; 8], vec![0, 1, 2, 0, 2, 3, 4, 5, 6, 4, 6, 7], vec![v; 4], vec![0, 1, 2, 0, 2, 3]).unwrap();
    let buffer: ChunkBuffer<String> = ChunkBuffer::new(&|m: &ChunkMesh| format!("{} vertices", m.vertices().len()), &mesh);
    assert_eq!(buffer.vertex_count, 8);
    assert_eq!(buffer.index_count, 12);
    assert_eq!(buffer.alpha_vertex_count, 4);
    assert_eq!(buffer.alpha_index_count, 6);
    assert_eq!(buffer.handle, "8 vertices");
    assert_eq!(buffer.count(Count::Vertices), 8);
    assert_eq!(buffer.count(Count::Triangles), 6);
    let empty: ChunkBuffer<()> = ChunkBuffer::new(&|_: &ChunkMesh| (), &ChunkMesh::empty());
    assert_eq!(empty.count(Count::Vertices), 0);
    assert_eq!(empty.count(Count::Triangles), 0);
}
