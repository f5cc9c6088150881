//! The block catalog: a fixed table from a small integer id to a descriptor.

use vstd::prelude::*;

verus! {

/// How a block takes part in face culling and in which pass it is drawn.
#[derive(Debug, Clone, Copy, PartialEq, Eq, Structural)]
pub enum BlockMaterial {
    Solid,
    Transparent,
}

/// Id of the empty block.
pub const AIR: u8 = 0;

/// Id of the grass block, the solid ground that terrain is made of.
pub const GRASS: u8 = 1;

/// Id of the dirt block.
pub const DIRT: u8 = 2;

/// Id of the stone block.
pub const STONE: u8 = 3;

/// Id of the water block, transparent and self-occluding.
pub const WATER: u8 = 4;

/// One entry of the catalog.
///
/// Lengths are fixed-point: `scale` and `opacity` are in tenths, so a scale of
/// `[10, 9, 10]` is a block that is nine tenths of a voxel high.
#[derive(Debug, Clone, Copy)]
pub struct Block {
    pub name: &'static str,
    pub id: u8,
    pub material: BlockMaterial,
    /// Atlas tile (column, row) of each of the six faces, in mesh face order.
    pub uv: [[u8; 2]; 6],
    /// Render scale along x, y and z, in tenths of a voxel.
    pub scale: [u8; 3],
    /// Opacity in tenths.
    pub opacity: u8,
}

/// The id that a lookup of `id` resolves to: unknown ids are air.
pub open spec fn spec_resolve(id: u8) -> u8 {
    if id <= WATER { id } else { AIR }
}

/// Material class of the block with id `id`.
pub open spec fn spec_material(id: u8) -> BlockMaterial {
    if id == GRASS || id == DIRT || id == STONE {
        BlockMaterial::Solid
    } else {
        BlockMaterial::Transparent
    }
}

/// Render scale of the block with id `id`, in tenths of a voxel.
pub open spec fn spec_scale(id: u8) -> (u8, u8, u8) {
    if id == GRASS || id == DIRT || id == STONE {
        (10u8, 10u8, 10u8)
    } else if id == WATER {
        (10u8, 9u8, 10u8)
    } else {
        (0u8, 0u8, 0u8)
    }
}

/// Opacity of the block with id `id`, in tenths.
pub open spec fn spec_opacity(id: u8) -> u8 {
    if id == GRASS || id == DIRT || id == STONE {
        10
    } else if id == WATER {
        6
    } else {
        0
    }
}

/// Atlas tile of face `face` (mesh face order) of the block with id `id`.
pub open spec fn spec_tile(id: u8, face: int) -> (u8, u8) {
    if id == GRASS {
        if face == 4 {
            (1u8, 15u8)
        } else if face == 5 {
            (2u8, 15u8)
        } else {
            (0u8, 15u8)
        }
    } else if id == DIRT {
        (2u8, 15u8)
    } else if id == STONE {
        (3u8, 15u8)
    } else if id == WATER {
        (4u8, 15u8)
    } else {
        (0u8, 0u8)
    }
}

/// What a block looks like, as far as geometry goes: its render scale along
/// x, y and z, the atlas tile of each of its six faces, and its opacity.
pub ghost struct Look {
    pub scale: (u8, u8, u8),
    pub tiles: Seq<(u8, u8)>,
    pub opacity: u8,
}

/// The look of the block with id `id`.
pub open spec fn spec_look(id: u8) -> Look {
    Look {
        scale: spec_scale(id),
        tiles: Seq::new(6, |face: int| spec_tile(id, face)),
        opacity: spec_opacity(id),
    }
}

impl Block {
    /// The look of this block.
    pub open spec fn look(&self) -> Look {
        Look {
            scale: (self.scale@[0], self.scale@[1], self.scale@[2]),
            tiles: Seq::new(6, |face: int| (self.uv@[face]@[0], self.uv@[face]@[1])),
            opacity: self.opacity,
        }
    }

    /// Whether this value is the catalog entry of its own id.
    pub open spec fn is_catalog_entry(&self) -> bool {
        &&& self.id <= WATER
        &&& self.material == spec_material(self.id)
        &&& self.look() == spec_look(self.id)
        &&& self.name@ == spec_name(self.id)
    }

    /// Looks a block up by id. The lookup is total: an id that the catalog
    /// does not hold gives air.
    pub fn block(id: u8) -> (b: Block)
        ensures
            b.id == spec_resolve(id),
            b.is_catalog_entry(),
    {
        let b = if id == GRASS {
            Block {
                name: "grass",
                id: GRASS,
                material: BlockMaterial::Solid,
                uv: [[0, 15], [0, 15], [0, 15], [0, 15], [1, 15], [2, 15]],
                scale: [10, 10, 10],
                opacity: 10,
            }
        } else if id == DIRT {
            Block {
                name: "dirt",
                id: DIRT,
                material: BlockMaterial::Solid,
                uv: [[2, 15], [2, 15], [2, 15], [2, 15], [2, 15], [2, 15]],
                scale: [10, 10, 10],
                opacity: 10,
            }
        } else if id == STONE {
            Block {
                name: "stone",
                id: STONE,
                material: BlockMaterial::Solid,
                uv: [[3, 15], [3, 15], [3, 15], [3, 15], [3, 15], [3, 15]],
                scale: [10, 10, 10],
                opacity: 10,
            }
        } else if id == WATER {
            Block {
                name: "water",
                id: WATER,
                material: BlockMaterial::Transparent,
                uv: [[4, 15], [4, 15], [4, 15], [4, 15], [4, 15], [4, 15]],
                scale: [10, 9, 10],
                opacity: 6,
            }
        } else {
            Block {
                name: "air",
                id: AIR,
                material: BlockMaterial::Transparent,
                uv: [[0, 0], [0, 0], [0, 0], [0, 0], [0, 0], [0, 0]],
                scale: [0, 0, 0],
                opacity: 0,
            }
        };
        assert(b.look().tiles =~= spec_look(b.id).tiles);
        b
    }
}

/// Display name of the block with id `id`.
pub open spec fn spec_name(id: u8) -> Seq<char> {
    if id == GRASS {
        "grass"@
    } else if id == DIRT {
        "dirt"@
    } else if id == STONE {
        "stone"@
    } else if id == WATER {
        "water"@
    } else {
        "air"@
    }
}

} // verus!
