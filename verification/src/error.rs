//! The ways in which decoding, lookup and removal fail.

use vstd::prelude::*;

verus! {

/// Why the bytes at hand are not a chunk.
#[derive(Debug, Clone, Copy, PartialEq, Eq, Structural)]
pub enum ChunkError {
    /// There are fewer bytes than the twelve that frame a chunk.
    Truncated,
    /// One of the four type bytes is not an ASCII letter.
    InvalidChunkType,
    /// The stored checksum is not the checksum of type and payload.
    ChecksumMismatch,
    /// The length field does not give the length of the payload.
    LengthMismatch,
}

/// Every failure the library reports.
#[derive(Debug, Clone, Copy, PartialEq, Eq, Structural)]
pub enum Error {
    /// A chunk type was not made of four ASCII letters.
    InvalidFormat,
    /// The file does not begin with the PNG signature.
    InvalidSignature,
    /// The chunk that starts at byte `offset` of the file is malformed.
    Chunk { offset: usize, cause: ChunkError },
    /// A payload read as text is not valid UTF-8.
    InvalidEncoding,
    /// No chunk has the requested type.
    NotFound,
}

impl ChunkError {
    /// A short description for messages to a user.
    pub fn describe(&self) -> (text: &'static str)
        ensures
            text@ == match *self {
                ChunkError::Truncated => "Invalid bytes"@,
                ChunkError::InvalidChunkType => "Invalid input format"@,
                ChunkError::ChecksumMismatch => "Invalid CRC"@,
                ChunkError::LengthMismatch => "Invalid length"@,
            },
    {
        match self {
            ChunkError::Truncated => "Invalid bytes",
            ChunkError::InvalidChunkType => "Invalid input format",
            ChunkError::ChecksumMismatch => "Invalid CRC",
            ChunkError::LengthMismatch => "Invalid length",
        }
    }
}

impl Error {
    /// A short description for messages to a user.
    pub fn describe(&self) -> (text: &'static str)
        ensures
            text@ == match *self {
                Error::InvalidFormat => "Invalid input format"@,
                Error::InvalidSignature => "Invalid PNG signature"@,
                Error::Chunk { offset, cause } => match cause {
                    ChunkError::Truncated => "Invalid bytes"@,
                    ChunkError::InvalidChunkType => "Invalid input format"@,
                    ChunkError::ChecksumMismatch => "Invalid CRC"@,
                    ChunkError::LengthMismatch => "Invalid length"@,
                },
                Error::InvalidEncoding => "Invalid UTF-8 in chunk data"@,
                Error::NotFound => "Chunk type not found"@,
            },
    {
        match self {
            Error::InvalidFormat => "Invalid input format",
            Error::InvalidSignature => "Invalid PNG signature",
            Error::Chunk { offset: _, cause } => cause.describe(),
            Error::InvalidEncoding => "Invalid UTF-8 in chunk data",
            Error::NotFound => "Chunk type not found",
        }
    }
}

} // verus!
