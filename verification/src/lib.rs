//! The world model of a small voxel game: block kinds, their solidity,
//! and the voxel cell that ties a block kind to its texture-atlas tile.

pub mod camera;
pub mod world;
