//! A turn-based dungeon crawler: dungeon generation, entities, combat,
//! monster behaviour, item effects and the turn controller.

pub mod ai;
pub mod colors;
pub mod combat;
pub mod fighter;
pub mod fov;
pub mod game;
pub mod item;
pub mod map;
pub mod mapbuilder;
pub mod messages;
pub mod monsters;
pub mod object;
mod random;
pub mod rect;
pub mod spatial;
pub mod turns;
