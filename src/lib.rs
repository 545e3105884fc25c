//! Frame logic of a small 2D game: input mapped to actions, a stack of
//! scenes, a memoizing asset store, a walking character and typewriter text.
//! Drawing comes out as lists of copy operations for a renderer to perform.

pub mod data;
pub mod direction;
pub mod error;
pub mod event;
pub mod gfx;
pub mod keymap;
pub mod point;
pub mod resources;
pub mod scene;
pub mod text;
pub mod utils;
