//! Inspection and in-place repair of the rolling checksum stored in the
//! header of a Dalvik executable (DEX) file image.
//!
//! The whole file is held in memory as a byte buffer.  The checksum field
//! occupies bytes 8..12 of the header; the payload it protects is every
//! byte from offset 12 to the end.

pub mod checksum;
pub mod dex;
