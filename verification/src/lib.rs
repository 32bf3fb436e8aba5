//! Deterministic combat-resolution core of a turn-based tactical battle
//! played on a hexagonal grid.

pub mod battle;
pub mod campaign;
pub mod game;
pub mod map;
pub mod utils;
