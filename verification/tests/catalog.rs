use voxel_world::block::{Block, BlockMaterial, AIR, DIRT, GRASS, STONE, WATER};

#[test]
fn lookup_by_id_gives_the_entry() {
    assert_eq!(Block::block(GRASS).name, "grass");
    assert_eq!(Block::block(DIRT).name, "dirt");
    assert_eq!(Block::block(STONE).name, "stone");
    assert_eq!(Block::block(WATER).name, "water");
    assert_eq!(Block::block(AIR).name, "air");
    assert_eq!(Block::block(GRASS).material, BlockMaterial::Solid);
    assert_eq!(Block::block(WATER).material, BlockMaterial::Transparent);
}

#[test]
fn unknown_id_is_air() {
    for id in 5..=255u8 {
        let b = Block::block(id);
        assert_eq!(b.id, AIR);
        assert_eq!(b.name, "air");
        assert_eq!(b.material, BlockMaterial::Transparent);
    }
}
