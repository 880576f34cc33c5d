//! The state that the parts of the program share.

pub mod app;
pub mod gate;
pub mod jitter;
pub mod shared;
