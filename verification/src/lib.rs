//! The logic of SyncPlay: streaming the audio of one machine to others on the
//! same network and playing it at the same instant everywhere.

pub mod audio;
pub mod bytes;
pub mod engine;
pub mod headless;
pub mod net;
pub mod state;
pub mod sync;
pub mod text;
pub mod ui;
