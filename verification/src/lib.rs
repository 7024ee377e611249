//! The core of a GameMaker 8 runner's scene and renderer: the store of
//! instances and tiles with its cursors and saved states, the renderer's
//! registry of sprites and surfaces, its state cache and its vertex queue,
//! and the code actions of a game's data. The GPU, the window and all
//! arithmetic on real numbers are the caller's.

pub mod buckets;
pub mod code_action;
pub mod handles;
pub mod ieee;
pub mod instance;
pub mod instancelist;
pub mod render;
pub mod savestate;
pub mod slab;
pub mod sort;
pub mod tilelist;
