//! Verified core of a file-backed block device I/O engine.

pub mod async_io;
pub mod buffer;
pub mod contents;
pub mod effects;
pub mod laws;
pub mod memory;
pub mod prefault;
pub mod storage;
pub mod sync_io;
pub mod uring;
