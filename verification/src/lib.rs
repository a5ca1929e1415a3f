//! In-place binary patching of file contents with BSDIFF 4.x deltas, together
//! with CRC-32 checksums and bzip2 decompression of whole files.
//!
//! Files are handled as byte images: every operation states, over the bytes a
//! file held before the call, which bytes it holds afterwards.

pub mod bz2;
pub mod checksum;
pub mod control;
pub mod error;
pub mod header;
pub mod image;
pub mod inplace;
pub mod patch;
