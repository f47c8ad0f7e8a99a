//! Game logic of a voxel sandbox: integer arithmetic helpers, entity kinds,
//! monster decisions, input handling, menus, command-line options and the
//! biome layout of the generated world.

pub mod math;
pub mod biome;
pub mod random;
pub mod entity;
pub mod monster;
pub mod renderer;
pub mod controls;
pub mod menu;
pub mod args;
pub mod protocol;
pub mod hud;
