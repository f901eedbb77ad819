//! The commands of the program and what each is given.

use std::path::PathBuf;
use vstd::prelude::*;

verus! {

/// `std::path::PathBuf`, carried from the command line to the place where
/// a file is read or written. The library never looks into a path.
#[verifier::external_type_specification]
#[verifier::external_body]
pub struct ExPathBuf(PathBuf);

/// What the program was asked to do.
pub struct Cli {
    pub command: Commands,
}

/// The four commands.
pub enum Commands {
    /// Hide a message in a file.
    Encode(EncodeArgs),
    /// Show the message hidden in a file.
    Decode(DecodeArgs),
    /// Take a hidden message out of a file.
    Remove(RemoveArgs),
    /// Show the chunks of a file.
    Print(PrintArgs),
}

/// What `encode` is given.
pub struct EncodeArgs {
    /// The image to read.
    pub file_path: PathBuf,
    /// The type of the chunk that will hold the message.
    pub chunk_type: String,
    /// The message to hide.
    pub message: String,
    /// Where to write the image with the message; nowhere if absent.
    pub out_path: Option<PathBuf>,
}

/// What `decode` is given.
pub struct DecodeArgs {
    /// The image to read.
    pub file_path: PathBuf,
    /// The type of the chunk that holds the message.
    pub chunk_type: String,
}

/// What `remove` is given.
pub struct RemoveArgs {
    /// The image to read and to write back.
    pub file_path: PathBuf,
    /// The type of the chunk to take out.
    pub chunk_type: String,
}

/// What `print` is given.
pub struct PrintArgs {
    /// The image to read.
    pub file_path: PathBuf,
}

} // verus!
