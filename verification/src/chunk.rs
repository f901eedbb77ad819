//! One chunk: a length, a type, a payload and a checksum.

use crate::checksum::{checksum, crc32};
use crate::chunk_type::{is_type_code, letter, ChunkType};
use crate::endian::{
    be32, be_bytes, lemma_be32_of_be_bytes, lemma_be_bytes_of_be32, push_be32, read_be32,
};
use crate::error::{ChunkError, Error};
use crate::text::{ascii_text, decimal, decimal_string};
use vstd::prelude::*;
use vstd::slice::{slice_subrange, slice_to_vec};
use vstd::utf8::{decode_utf8, valid_utf8};

verus! {

/// A chunk as a mathematical value: its type and its payload. The length
/// and the checksum follow from these two.
pub struct ChunkView {
    pub chunk_type: Seq<u8>,
    pub data: Seq<u8>,
}

impl ChunkView {
    /// The type is four ASCII letters and the length of the payload fits
    /// the 32-bit length field.
    pub open spec fn wf(self) -> bool {
        &&& is_type_code(self.chunk_type)
        &&& self.data.len() <= u32::MAX
    }

    /// The bytes that the checksum covers: the type, then the payload.
    pub open spec fn covered(self) -> Seq<u8> {
        self.chunk_type + self.data
    }

    /// The checksum of the chunk.
    pub open spec fn crc(self) -> u32 {
        crc32(self.covered())
    }

    /// The chunk as it stands in a file: length, type, payload, checksum.
    pub open spec fn encode(self) -> Seq<u8> {
        be_bytes(self.data.len() as u32) + self.chunk_type + self.data + be_bytes(self.crc())
    }
}

/// The length of the payload that the first four bytes of `bytes`
/// announce.
pub open spec fn announced(bytes: Seq<u8>) -> int {
    be32(bytes.subrange(0, 4)) as int
}

/// The verdict on `bytes` taken whole as one chunk, where `computed` is
/// the checksum of its type and payload: the length of the payload, or the
/// first fault found.
///
/// The type is bytes 4 to 8, the payload everything from byte 8 to the last
/// four bytes, and these four are the stored checksum. Faults are looked
/// for in this order: fewer than twelve bytes, a type byte that is no
/// letter, a stored checksum other than `computed`, and last a length field
/// that does not give the length of the payload. For that last fault the
/// PNG standard has no name of its own; here it is
/// [`ChunkError::LengthMismatch`].
pub open spec fn verdict(bytes: Seq<u8>, computed: u32) -> Result<nat, ChunkError> {
    let n = bytes.len() as int;
    if n < 12 {
        Err(ChunkError::Truncated)
    } else if !is_type_code(bytes.subrange(4, 8)) {
        Err(ChunkError::InvalidChunkType)
    } else if be32(bytes.subrange(n - 4, n)) != computed {
        Err(ChunkError::ChecksumMismatch)
    } else if announced(bytes) != n - 12 {
        Err(ChunkError::LengthMismatch)
    } else {
        Ok((n - 12) as nat)
    }
}

/// The chunk that `bytes` are, taken whole, or the reason why they are
/// none: the [`verdict`] with the checksum computed over bytes 4 to the
/// last four.
pub open spec fn decode(bytes: Seq<u8>) -> Result<ChunkView, ChunkError> {
    let n = bytes.len() as int;
    match verdict(bytes, crc32(bytes.subrange(4, n - 4))) {
        Ok(_) => Ok(ChunkView { chunk_type: bytes.subrange(4, 8), data: bytes.subrange(8, n - 4) }),
        Err(fault) => Err(fault),
    }
}

/// A chunk whose length and checksum agree with its type and payload.
#[derive(Debug)]
pub struct Chunk {
    length: u32,
    chunk_type: ChunkType,
    chunk_data: Vec<u8>,
    crc: u32,
}

impl View for Chunk {
    type V = ChunkView;

    closed spec fn view(&self) -> ChunkView {
        ChunkView { chunk_type: self.chunk_type@, data: self.chunk_data@ }
    }
}

impl Chunk {
    /// The stored length is the length of the payload, and the stored
    /// checksum is the checksum of type and payload.
    #[verifier::type_invariant]
    closed spec fn inv(self) -> bool {
        &&& self.chunk_type.wf()
        &&& self.length == self.chunk_data@.len()
        &&& self.crc == crc32(self.chunk_type@ + self.chunk_data@)
    }

    /// Makes a chunk of a type and a payload, and computes its checksum.
    pub fn new(chunk_type: ChunkType, data: Vec<u8>) -> (chunk: Chunk)
        requires
            data@.len() <= u32::MAX,
        ensures
            chunk@ == (ChunkView { chunk_type: chunk_type@, data: data@ }),
            chunk@.wf(),
    {
        let code = chunk_type.bytes();
        let mut covered: Vec<u8> = Vec::new();
        covered.push(code[0]);
        covered.push(code[1]);
        covered.push(code[2]);
        covered.push(code[3]);
        covered.extend_from_slice(data.as_slice());
        assert(covered@ =~= chunk_type@ + data@);
        let crc = checksum(covered.as_slice());
        Chunk { length: data.len() as u32, chunk_type, chunk_data: data, crc }
    }

    /// The length of the payload.
    pub fn length(&self) -> (length: u32)
        ensures
            length == self@.data.len(),
    {
        proof {
            use_type_invariant(self);
        }
        self.length
    }

    /// The type.
    pub fn chunk_type(&self) -> (chunk_type: &ChunkType)
        ensures
            chunk_type@ == self@.chunk_type,
            is_type_code(self@.chunk_type),
    {
        proof {
            use_type_invariant(self);
        }
        &self.chunk_type
    }

    /// The payload.
    pub fn data(&self) -> (data: &[u8])
        ensures
            data@ == self@.data,
            self@.wf(),
    {
        proof {
            use_type_invariant(self);
        }
        self.chunk_data.as_slice()
    }

    /// The checksum of type and payload.
    pub fn crc(&self) -> (crc: u32)
        ensures
            crc == self@.crc(),
    {
        proof {
            use_type_invariant(self);
        }
        self.crc
    }

    /// The payload read as UTF-8 text.
    pub fn data_as_string(&self) -> (text: Result<String, Error>)
        ensures
            valid_utf8(self@.data) ==> text is Ok && text->Ok_0@ == decode_utf8(self@.data),
            !valid_utf8(self@.data) ==> text == Err::<String, Error>(Error::InvalidEncoding),
    {
        crate::text::decode(slice_to_vec(self.chunk_data.as_slice()))
    }

    /// The chunk as it stands in a file.
    pub fn as_bytes(&self) -> (bytes: Vec<u8>)
        ensures
            bytes@ == self@.encode(),
            bytes@.len() == 12 + self@.data.len(),
            self@.wf(),
    {
        proof {
            use_type_invariant(self);
            lemma_be32_of_be_bytes(self.length);
            lemma_be32_of_be_bytes(self.crc);
        }
        let code = self.chunk_type.bytes();
        let mut bytes: Vec<u8> = Vec::new();
        push_be32(&mut bytes, self.length);
        bytes.push(code[0]);
        bytes.push(code[1]);
        bytes.push(code[2]);
        bytes.push(code[3]);
        assert(bytes@ =~= be_bytes(self.length) + self@.chunk_type);
        bytes.extend_from_slice(self.chunk_data.as_slice());
        assert(bytes@ =~= be_bytes(self.length) + self@.chunk_type + self@.data);
        push_be32(&mut bytes, self.crc);
        bytes
    }

    /// Judges `bytes`, taken whole as one chunk, against a checksum that
    /// the caller has computed over its type and payload. Gives the length
    /// of the payload where nothing is wrong, and else the first fault in
    /// the order of [`verdict`].
    pub fn check_frame(bytes: &[u8], computed: u32) -> (found: Result<usize, ChunkError>)
        ensures
            match found {
                Ok(n) => verdict(bytes@, computed) == Ok::<nat, ChunkError>(n as nat),
                Err(fault) => verdict(bytes@, computed) == Err::<nat, ChunkError>(fault),
            },
    {
        let n: usize = bytes.len();
        if n < 12 {
            return Err(ChunkError::Truncated);
        }
        let code = slice_subrange(bytes, 4, 8);
        if !(letter(code[0]) && letter(code[1]) && letter(code[2]) && letter(code[3])) {
            return Err(ChunkError::InvalidChunkType);
        }
        let stored: u32 = read_be32(bytes, n - 4);
        if stored != computed {
            return Err(ChunkError::ChecksumMismatch);
        }
        let announced: u32 = read_be32(bytes, 0);
        if announced as u64 != (n - 12) as u64 {
            return Err(ChunkError::LengthMismatch);
        }
        Ok(n - 12)
    }

    /// A short report of the chunk, one line for each part.
    pub fn to_string(&self) -> (text: String)
        ensures
            text@ == report(self@),
    {
        proof {
            use_type_invariant(self);
        }
        let mut text = String::new();
        text.append("Chunk {\n   Length: ");
        text.append(decimal_string(self.length as u64).as_str());
        text.append("\n   Type: ");
        text.append(self.chunk_type.to_string().as_str());
        text.append("\n   Data: ");
        text.append(decimal_string(self.chunk_data.len() as u64).as_str());
        text.append("\n   Crc: ");
        text.append(decimal_string(self.crc as u64).as_str());
        text.append("\n}\n");
        text
    }
}

/// What [`Chunk::to_string`] writes of a chunk.
pub open spec fn report(chunk: ChunkView) -> Seq<char> {
    "Chunk {\n   Length: "@ + decimal(chunk.data.len()) + "\n   Type: "@ + ascii_text(
        chunk.chunk_type,
    ) + "\n   Data: "@ + decimal(chunk.data.len()) + "\n   Crc: "@ + decimal(chunk.crc() as nat)
        + "\n}\n"@
}

impl Clone for Chunk {
    fn clone(&self) -> (copy: Chunk)
        ensures
            copy@ == self@,
    {
        proof {
            use_type_invariant(self);
        }
        let chunk_data = self.chunk_data.clone();
        assert(chunk_data@ =~= self.chunk_data@);
        Chunk { length: self.length, chunk_type: self.chunk_type, chunk_data, crc: self.crc }
    }
}

impl<'a> TryFrom<&'a [u8]> for Chunk {
    type Error = ChunkError;

    /// Decodes `bytes`, taken whole as one chunk: the payload is what
    /// stands between the type and the last four bytes, and these are the
    /// checksum. A length field that says otherwise is a
    /// [`ChunkError::LengthMismatch`], found after all other faults.
    fn try_from(bytes: &'a [u8]) -> (made: Result<Chunk, ChunkError>)
        ensures
            match made {
                Ok(chunk) => decode(bytes@) == Ok::<ChunkView, ChunkError>(chunk@),
                Err(fault) => decode(bytes@) == Err::<ChunkView, ChunkError>(fault),
            },
    {
        let n: usize = bytes.len();
        if n < 12 {
            return Err(ChunkError::Truncated);
        }
        let code = slice_subrange(bytes, 4, 8);
        assert([code[0], code[1], code[2], code[3]]@ =~= bytes@.subrange(4, 8));
        let chunk_type = match ChunkType::try_from([code[0], code[1], code[2], code[3]]) {
            Ok(chunk_type) => chunk_type,
            Err(_) => {
                return Err(ChunkError::InvalidChunkType);
            },
        };
        let computed = checksum(slice_subrange(bytes, 4, n - 4));
        match Chunk::check_frame(bytes, computed) {
            Err(fault) => Err(fault),
            Ok(length) => {
                let chunk_data = slice_to_vec(slice_subrange(bytes, 8, n - 4));
                assert(chunk_type@ + chunk_data@ =~= bytes@.subrange(4, n - 4));
                Ok(Chunk { length: length as u32, chunk_type, chunk_data, crc: computed })
            },
        }
    }
}

/// The conversion is specified by its own `ensures`, over views: no spec
/// function can say which `Vec` a decoded chunk holds.
impl<'a> vstd::std_specs::convert::TryFromSpecImpl<&'a [u8]> for Chunk {
    open spec fn obeys_try_from_spec() -> bool {
        false
    }

    open spec fn try_from_spec(bytes: &'a [u8]) -> Result<Chunk, ChunkError> {
        arbitrary()
    }
}

/// A chunk that is written and read again is the same chunk.
pub proof fn lemma_decode_encode(chunk: ChunkView)
    requires
        chunk.wf(),
    ensures
        chunk.encode().len() == 12 + chunk.data.len(),
        announced(chunk.encode()) == chunk.data.len(),
        decode(chunk.encode()) == Ok::<ChunkView, ChunkError>(chunk),
{
    let n = chunk.data.len() as int;
    let bytes = chunk.encode();
    lemma_be32_of_be_bytes(n as u32);
    lemma_be32_of_be_bytes(chunk.crc());
    assert(bytes.subrange(0, 4) =~= be_bytes(n as u32));
    assert(bytes.subrange(4, 8) =~= chunk.chunk_type);
    assert(bytes.subrange(8, 8 + n) =~= chunk.data);
    assert(bytes.subrange(4, 8 + n) =~= chunk.covered());
    assert(bytes.subrange(8 + n, 12 + n) =~= be_bytes(chunk.crc()));
}

/// Where bytes decode to a chunk, the chunk is well formed and its
/// encoding is those bytes: decoding accepts nothing but what encoding
/// writes.
pub proof fn lemma_encode_decode(bytes: Seq<u8>)
    requires
        decode(bytes) is Ok,
    ensures
        decode(bytes)->Ok_0.wf(),
        bytes.len() == 12 + announced(bytes),
        decode(bytes)->Ok_0.encode() == bytes,
{
    let n = bytes.len() as int;
    let chunk = decode(bytes)->Ok_0;
    lemma_be_bytes_of_be32(bytes.subrange(0, 4));
    lemma_be_bytes_of_be32(bytes.subrange(n - 4, n));
    assert(chunk.covered() =~= bytes.subrange(4, n - 4));
    assert(chunk.encode() =~= bytes);
}

/// A bad type byte is reported as such, whatever the other bytes are.
pub proof fn lemma_bad_type_is_reported(bytes: Seq<u8>)
    requires
        bytes.len() >= 12,
        !is_type_code(bytes.subrange(4, 8)),
    ensures
        decode(bytes) == Err::<ChunkView, ChunkError>(ChunkError::InvalidChunkType),
{
}

/// What becomes of a chunk's bytes when one byte of type or payload is
/// changed. They still decode only where the changed type is a type and
/// the changed bytes have the checksum of the unchanged ones. Otherwise
/// the fault is the type's where a type byte is no letter any more, and
/// the checksum's in every other case. That CRC-32 never gives two such
/// byte strings one checksum is not stated here.
pub proof fn lemma_changed_byte(chunk: ChunkView, changed: Seq<u8>, at: int)
    requires
        chunk.wf(),
        changed.len() == chunk.encode().len(),
        4 <= at < changed.len() - 4,
        changed[at] != chunk.encode()[at],
        forall|j: int| 0 <= j < changed.len() && j != at ==> changed[j] == chunk.encode()[j],
    ensures
        decode(changed) == if !is_type_code(changed.subrange(4, 8)) {
            Err::<ChunkView, ChunkError>(ChunkError::InvalidChunkType)
        } else if crc32(changed.subrange(4, changed.len() - 4)) != chunk.crc() {
            Err::<ChunkView, ChunkError>(ChunkError::ChecksumMismatch)
        } else {
            Ok::<ChunkView, ChunkError>(
                ChunkView {
                    chunk_type: changed.subrange(4, 8),
                    data: changed.subrange(8, changed.len() - 4),
                },
            )
        },
        decode(changed) != Ok::<ChunkView, ChunkError>(chunk),
{
    let bytes = chunk.encode();
    let n = bytes.len() as int;
    lemma_decode_encode(chunk);
    lemma_be32_of_be_bytes(chunk.crc());
    assert(bytes.subrange(n - 4, n) =~= be_bytes(chunk.crc()));
    assert(changed.subrange(n - 4, n) =~= bytes.subrange(n - 4, n));
    assert(changed.subrange(0, 4) =~= bytes.subrange(0, 4));
    assert(bytes.subrange(4, 8) =~= chunk.chunk_type);
    assert(bytes.subrange(8, n - 4) =~= chunk.data);
    if at < 8 {
        assert(changed.subrange(4, 8)[at - 4] != chunk.chunk_type[at - 4]);
    } else {
        assert(changed.subrange(8, n - 4)[at - 8] != chunk.data[at - 8]);
    }
}

/// Fewer than twelve bytes are never a chunk.
pub proof fn lemma_short_is_truncated(bytes: Seq<u8>)
    requires
        bytes.len() < 12,
    ensures
        decode(bytes) == Err::<ChunkView, ChunkError>(ChunkError::Truncated),
{
}

} // verus!
