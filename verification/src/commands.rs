//! The four commands, as functions from the bytes of a file to what the
//! program has to write or print. Reading and writing files is left to the
//! caller.

use crate::args::{Commands, DecodeArgs, EncodeArgs, PrintArgs, RemoveArgs};
use crate::chunk::{Chunk, ChunkView};
use crate::chunk_type::{is_type_text, text_code, ChunkType};
use crate::error::Error;
use crate::png::{appended, decode_file, encode_file, is_first_of_type, lacks_type, Png};
use std::path::PathBuf;
use vstd::prelude::*;
use vstd::string::StrSliceExecFns;
use vstd::utf8::{decode_utf8, encode_utf8, valid_utf8};

verus! {

/// The chunk that `encode` makes of its arguments.
pub open spec fn message_chunk(args: EncodeArgs) -> ChunkView {
    ChunkView { chunk_type: text_code(args.chunk_type@), data: encode_utf8(args.message@) }
}

/// The file that a command reads, once what can be told without the file
/// has been checked: `encode` refuses a malformed chunk type before any
/// file is opened.
pub fn input_path(command: &Commands) -> (path: Result<&PathBuf, Error>)
    ensures
        match *command {
            Commands::Encode(args) => if is_type_text(args.chunk_type@) {
                path == Ok::<&PathBuf, Error>(&args.file_path)
            } else {
                path == Err::<&PathBuf, Error>(Error::InvalidFormat)
            },
            Commands::Decode(args) => path == Ok::<&PathBuf, Error>(&args.file_path),
            Commands::Remove(args) => path == Ok::<&PathBuf, Error>(&args.file_path),
            Commands::Print(args) => path == Ok::<&PathBuf, Error>(&args.file_path),
        },
{
    match command {
        Commands::Encode(args) => match ChunkType::from_str(args.chunk_type.as_str()) {
            Ok(_) => Ok(&args.file_path),
            Err(fault) => Err(fault),
        },
        Commands::Decode(args) => Ok(&args.file_path),
        Commands::Remove(args) => Ok(&args.file_path),
        Commands::Print(args) => Ok(&args.file_path),
    }
}

/// Hides the message in the image `file`: appends a chunk of the given
/// type whose payload is the message in UTF-8.
pub fn encode(args: &EncodeArgs, file: &[u8]) -> (image: Result<Vec<u8>, Error>)
    requires
        encode_utf8(args.message@).len() <= u32::MAX,
    ensures
        !is_type_text(args.chunk_type@) ==> image == Err::<Vec<u8>, Error>(Error::InvalidFormat),
        is_type_text(args.chunk_type@) ==> match decode_file(file@) {
            Ok(chunks) => image is Ok && image->Ok_0@ == encode_file(
                appended(chunks, message_chunk(*args)),
            ),
            Err(fault) => image == Err::<Vec<u8>, Error>(fault),
        },
{
    let chunk_type = match ChunkType::from_str(args.chunk_type.as_str()) {
        Ok(chunk_type) => chunk_type,
        Err(fault) => {
            return Err(fault);
        },
    };
    let chunk = Chunk::new(chunk_type, args.message.as_str().as_bytes_vec());
    let mut png = match Png::try_from(file) {
        Ok(png) => png,
        Err(fault) => {
            return Err(fault);
        },
    };
    png.append_chunk(chunk);
    Ok(png.as_bytes())
}

/// Finds the message in the image `file`: the payload of the first chunk
/// of the given type, read as UTF-8.
pub fn decode(args: &DecodeArgs, file: &[u8]) -> (message: Result<Option<String>, Error>)
    ensures
        match decode_file(file@) {
            Err(fault) => message == Err::<Option<String>, Error>(fault),
            Ok(chunks) => if lacks_type(chunks, args.chunk_type@) {
                message == Ok::<Option<String>, Error>(None)
            } else {
                exists|i: int|
                    {
                        &&& is_first_of_type(chunks, args.chunk_type@, i)
                        &&& if valid_utf8(chunks[i].data) {
                            message matches Ok(Some(text)) && text@ == decode_utf8(chunks[i].data)
                        } else {
                            message == Err::<Option<String>, Error>(Error::InvalidEncoding)
                        }
                    }
            },
        },
{
    let png = match Png::try_from(file) {
        Ok(png) => png,
        Err(fault) => {
            return Err(fault);
        },
    };
    match png.chunk_by_type(args.chunk_type.as_str()) {
        None => Ok(None),
        Some(chunk) => match chunk.data_as_string() {
            Ok(text) => Ok(Some(text)),
            Err(fault) => Err(fault),
        },
    }
}

/// Takes the first chunk of the given type out of the image `file`. Where
/// there is none the outer result is still `Ok`: the program reports it and
/// goes on.
pub fn remove(args: &RemoveArgs, file: &[u8]) -> (image: Result<Result<Vec<u8>, Error>, Error>)
    ensures
        match decode_file(file@) {
            Err(fault) => image == Err::<Result<Vec<u8>, Error>, Error>(fault),
            Ok(chunks) => if lacks_type(chunks, args.chunk_type@) {
                image == Ok::<Result<Vec<u8>, Error>, Error>(Err(Error::NotFound))
            } else {
                exists|i: int|
                    {
                        &&& is_first_of_type(chunks, args.chunk_type@, i)
                        &&& image matches Ok(Ok(bytes))
                        &&& bytes@ == encode_file(chunks.remove(i))
                    }
            },
        },
{
    let mut png = match Png::try_from(file) {
        Ok(png) => png,
        Err(fault) => {
            return Err(fault);
        },
    };
    match png.remove_chunk(args.chunk_type.as_str()) {
        Ok(_) => Ok(Ok(png.as_bytes())),
        Err(fault) => Ok(Err(fault)),
    }
}

/// Decodes the image `file`, to be shown chunk by chunk.
pub fn print(args: &PrintArgs, file: &[u8]) -> (image: Result<Png, Error>)
    ensures
        match image {
            Ok(png) => decode_file(file@) == Ok::<Seq<ChunkView>, Error>(png@),
            Err(fault) => decode_file(file@) == Err::<Seq<ChunkView>, Error>(fault),
        },
{
    Png::try_from(file)
}

} // verus!
