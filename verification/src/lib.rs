//! A codec for PNG-style chunked binary containers.
//!
//! A chunk is one length-prefixed, type-tagged, checksummed record:
//! a 4-byte big-endian payload length, a 4-byte ASCII type tag, the
//! payload bytes, and a 4-byte big-endian CRC-32 over type and payload.
//! The library parses such records from byte buffers, serializes them
//! back byte-for-byte, and proves that the two directions agree.

pub mod be_bytes;
pub mod chunk;
pub mod chunk_type;
pub mod crc32;
pub mod errors;
