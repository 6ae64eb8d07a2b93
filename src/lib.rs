//! A turn-based block-pushing puzzle: the grid and tile model, the
//! movement-resolution engine with its target-zone bookkeeping, the level
//! loader and the session state, all verified.

pub mod movement;
pub mod map;
pub mod game;
pub mod mapmanager;
pub mod input;
pub mod drawing;
