//! Time: one clock per machine, and the offset between two of them.

pub mod clock;
