//! In-place patching of fragmented MP4 data.
//!
//! Nothing here re-serialises a box. A patch overwrites the bytes of single fields and leaves
//! every other byte as it was.

pub mod boxes;
pub mod init_segment;
pub mod readers;
pub mod segment;
