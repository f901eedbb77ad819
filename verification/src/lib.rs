//! Hides short messages in PNG files.
//!
//! A PNG file is an eight-byte signature followed by chunks. Each chunk
//! carries a length, a four-letter type, a payload and a CRC-32 of type and
//! payload. This crate decodes such files, checks every chunk, lets a
//! caller add, find and remove chunks, and encodes the result again.

pub mod args;
pub mod checksum;
pub mod chunk;
pub mod chunk_type;
pub mod commands;
pub mod endian;
pub mod error;
pub mod png;
pub mod text;
