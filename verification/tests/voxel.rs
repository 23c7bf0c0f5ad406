use voxel_game::world::voxel::BlockType;
use voxel_game::world::voxel::Voxel;

#[test]
fn air_is_not_solid() {
    assert!(!BlockType::Air.is_solid());
}

#[test]
fn grass_is_solid() {
    assert!(BlockType::Grass.is_solid());
}

#[test]
fn dirt_is_solid() {
    assert!(BlockType::Dirt.is_solid());
}

#[test]
fn is_air_complements_is_solid() {
    let kinds = [BlockType::Air, BlockType::Grass, BlockType::Dirt];
    for kind in kinds {
        assert_eq!(kind.is_air(), !kind.is_solid());
    }
}

#[test]
fn only_air_is_air() {
    assert!(BlockType::Air.is_air());
    assert!(!BlockType::Grass.is_air());
    assert!(!BlockType::Dirt.is_air());
}

#[test]
fn default_block_is_air() {
    let kind: BlockType = Default::default();
    assert_eq!(kind, BlockType::Air);
}

#[test]
fn default_voxel_is_air_at_first_tile() {
    let voxel: Voxel = Default::default();
    assert!(voxel.block_type.is_air());
    assert_eq!(voxel.texture_position, [0, 0]);
}

#[test]
fn voxel_keeps_its_fields() {
    let voxel = Voxel {
        block_type: BlockType::Grass,
        texture_position: [3, 1],
    };
    assert_eq!(voxel.block_type, BlockType::Grass);
    assert_eq!(voxel.texture_position, [3, 1]);
    let copy = voxel;
    assert_eq!(copy.block_type, BlockType::Grass);
    assert_eq!(copy.texture_position, [3, 1]);
}
