//! Assets in the read-only file system that an application carries with it.

pub mod reader;
