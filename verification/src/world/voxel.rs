use vstd::prelude::*;

verus! {

/// The kind of block a voxel cell holds. The enumeration is closed:
/// every cell is air, grass, or dirt.
#[derive(Eq, PartialEq, Structural, Copy, Clone, Debug)]
pub enum BlockType {
    Air,
    Grass,
    Dirt,
}

impl BlockType {
    /// A block is solid exactly when it is not air: grass and dirt are
    /// solid, air is not.
    pub fn is_solid(&self) -> (solid: bool)
        ensures
            solid == (*self != BlockType::Air),
    {
        match self {
            BlockType::Air => false,
            BlockType::Grass => true,
            BlockType::Dirt => true,
        }
    }

    /// The complement of solidity: a block is air exactly when it is
    /// not solid.
    pub fn is_air(&self) -> (air: bool)
        ensures
            air == (*self == BlockType::Air),
    {
        !self.is_solid()
    }
}

impl Default for BlockType {
    /// A block starts out as air.
    fn default() -> (block: Self)
        ensures
            block == BlockType::Air,
    {
        BlockType::Air
    }
}

/// One cell of the world: a block kind together with the tile it reads
/// from a 16 x 16 texture atlas, as a column and row of that atlas.
#[derive(Copy, Clone, Debug)]
pub struct Voxel {
    pub block_type: BlockType,
    pub texture_position: [i8; 2],
}

impl Default for Voxel {
    /// A fresh cell is air and reads the first tile of the atlas.
    fn default() -> (voxel: Self)
        ensures
            voxel.block_type == BlockType::Air,
            voxel.texture_position[0] == 0,
            voxel.texture_position[1] == 0,
    {
        Voxel { block_type: BlockType::Air, texture_position: [0, 0] }
    }
}

} // verus!
