//! Game rendering: the state that the renderer keeps beside the GPU, and the
//! decisions it takes on it. Every operation returns what is to be done on
//! the GPU as a plain value; issuing it is the caller's part.

pub mod primitive;
pub mod renderer;
pub mod state;
pub mod types;
