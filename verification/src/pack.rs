//! Signed `.actr` packages: reading, bounded decompression and verification.
pub mod archive;
pub mod fault;
pub mod load;
pub mod manifest;
pub mod verify;
