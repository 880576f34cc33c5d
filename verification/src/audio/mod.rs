//! Audio in and out: devices, captured chunks, levels, resampling.

pub mod capture;
pub mod device;
pub mod level;
pub mod playback;
pub mod resampler;
pub mod tap;
