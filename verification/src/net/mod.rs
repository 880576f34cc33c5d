//! What travels between the machines, and what each side does with it.

pub mod codec;
pub mod discovery;
pub mod protocol;
pub mod receiver;
pub mod sender;
