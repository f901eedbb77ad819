//! A PNG file: the signature and the chunks in file order.

use crate::chunk::{
    announced, decode, lemma_decode_encode, lemma_encode_decode, Chunk, ChunkView,
};
use crate::endian::read_be32;
use crate::error::{ChunkError, Error};
use crate::text::ascii_text;
use vstd::prelude::*;
use vstd::slice::slice_subrange;

verus! {

/// The eight bytes with which every PNG file begins.
pub const STANDARD_HEADER: [u8; 8] = [137, 80, 78, 71, 13, 10, 26, 10];

/// The eight bytes with which every PNG file begins.
pub open spec fn signature() -> Seq<u8> {
    seq![137u8, 80u8, 78u8, 71u8, 13u8, 10u8, 26u8, 10u8]
}

/// The type of the chunk that ends a PNG file: `IEND`.
pub open spec fn terminator_code() -> Seq<u8> {
    seq![73u8, 69u8, 78u8, 68u8]
}

/// `chunk` is the chunk that ends a PNG file: type `IEND`, no payload.
pub open spec fn is_terminator(chunk: ChunkView) -> bool {
    chunk.chunk_type == terminator_code() && chunk.data.len() == 0
}

/// Every chunk is well formed.
pub open spec fn all_wf(chunks: Seq<ChunkView>) -> bool {
    forall|i: int| 0 <= i < chunks.len() ==> (#[trigger] chunks[i]).wf()
}

/// The chunks one after another as they stand in a file.
pub open spec fn encode_chunks(chunks: Seq<ChunkView>) -> Seq<u8>
    decreases chunks.len(),
{
    if chunks.len() == 0 {
        Seq::empty()
    } else {
        encode_chunks(chunks.drop_last()) + chunks.last().encode()
    }
}

/// The file: the signature, then the chunks.
pub open spec fn encode_file(chunks: Seq<ChunkView>) -> Seq<u8> {
    signature() + encode_chunks(chunks)
}

/// Where the chunk that starts at `at` ends, by its length field: twelve
/// bytes of framing and the payload further on.
pub open spec fn chunk_end(bytes: Seq<u8>, at: int) -> int {
    at + 12 + announced(bytes.skip(at))
}

/// `bytes` holds all of the chunk that starts at `at`: the twelve bytes of
/// framing, and as many bytes of payload as the length field says.
pub open spec fn holds_chunk(bytes: Seq<u8>, at: int) -> bool {
    at + 12 <= bytes.len() && chunk_end(bytes, at) <= bytes.len()
}

/// The chunks that stand in `bytes` from position `at` to the end, or the
/// first fault with the position of the chunk that has it. Each chunk is
/// cut out by its length field and decoded by itself; where the bytes end
/// before the chunk does, the fault is `Truncated`.
pub open spec fn decode_chunks(bytes: Seq<u8>, at: int) -> Result<Seq<ChunkView>, Error>
    decreases bytes.len() - at,
{
    if at < 0 || at >= bytes.len() {
        Ok(Seq::empty())
    } else if !holds_chunk(bytes, at) {
        Err(Error::Chunk { offset: at as usize, cause: ChunkError::Truncated })
    } else {
        match decode(bytes.subrange(at, chunk_end(bytes, at))) {
            Err(fault) => Err(Error::Chunk { offset: at as usize, cause: fault }),
            Ok(chunk) => match decode_chunks(bytes, chunk_end(bytes, at)) {
                Ok(rest) => Ok(seq![chunk] + rest),
                Err(fault) => Err(fault),
            },
        }
    }
}

/// `bytes` begins with the PNG signature.
pub open spec fn has_signature(bytes: Seq<u8>) -> bool {
    bytes.len() >= 8 && bytes.subrange(0, 8) == signature()
}

/// The chunks of the file `bytes`, or the reason why it is no PNG file.
pub open spec fn decode_file(bytes: Seq<u8>) -> Result<Seq<ChunkView>, Error> {
    if !has_signature(bytes) {
        Err(Error::InvalidSignature)
    } else {
        decode_chunks(bytes, 8)
    }
}

/// `chunk` has the type that `text` spells.
pub open spec fn has_type(chunk: ChunkView, text: Seq<char>) -> bool {
    ascii_text(chunk.chunk_type) == text
}

/// The chunk at `i` is the first of the type that `text` spells.
pub open spec fn is_first_of_type(chunks: Seq<ChunkView>, text: Seq<char>, i: int) -> bool {
    &&& 0 <= i < chunks.len()
    &&& has_type(chunks[i], text)
    &&& forall|j: int| 0 <= j < i ==> !has_type(#[trigger] chunks[j], text)
}

/// No chunk has the type that `text` spells.
pub open spec fn lacks_type(chunks: Seq<ChunkView>, text: Seq<char>) -> bool {
    forall|j: int| 0 <= j < chunks.len() ==> !has_type(#[trigger] chunks[j], text)
}

/// The chunks after `chunk` has been appended: it goes to the end, but
/// before the chunk that ends the file where the last chunk is that one.
pub open spec fn appended(chunks: Seq<ChunkView>, chunk: ChunkView) -> Seq<ChunkView> {
    if chunks.len() > 0 && is_terminator(chunks.last()) {
        chunks.drop_last().push(chunk).push(chunks.last())
    } else {
        chunks.push(chunk)
    }
}

/// A PNG file in memory. Its view is the sequence of its chunks.
#[derive(Debug)]
pub struct Png {
    chunks: Vec<Chunk>,
}

impl View for Png {
    type V = Seq<ChunkView>;

    closed spec fn view(&self) -> Seq<ChunkView> {
        Seq::new(self.chunks@.len(), |i: int| self.chunks@[i]@)
    }
}

impl Png {
    /// A file of the given chunks, in the given order.
    pub fn from_chunks(chunks: Vec<Chunk>) -> (png: Png)
        ensures
            png@.len() == chunks@.len(),
            forall|i: int| 0 <= i < chunks@.len() ==> png@[i] == (#[trigger] chunks@[i])@,
    {
        Png { chunks }
    }

    /// The signature.
    pub fn header(&self) -> (header: &[u8; 8])
        ensures
            header@ == signature(),
    {
        assert(STANDARD_HEADER@ =~= signature());
        &STANDARD_HEADER
    }

    /// The chunks in file order.
    pub fn chunks(&self) -> (chunks: &[Chunk])
        ensures
            chunks@.len() == self@.len(),
            forall|i: int| 0 <= i < self@.len() ==> (#[trigger] chunks@[i])@ == self@[i],
    {
        self.chunks.as_slice()
    }

    /// Adds a chunk at the end of the file. Where the file ends with the
    /// `IEND` chunk, the new chunk goes before it, so that `IEND` stays
    /// last.
    pub fn append_chunk(&mut self, chunk: Chunk)
        ensures
            final(self)@ == appended(old(self)@, chunk@),
    {
        let n: usize = self.chunks.len();
        if n > 0 && ends_file(&self.chunks[n - 1]) {
            self.chunks.insert(n - 1, chunk);
        } else {
            self.chunks.push(chunk);
        }
        assert(self@ =~= appended(old(self)@, chunk@));
    }

    /// The first chunk of the type that `chunk_type` spells.
    pub fn chunk_by_type(&self, chunk_type: &str) -> (found: Option<&Chunk>)
        ensures
            match found {
                Some(chunk) => exists|i: int|
                    is_first_of_type(self@, chunk_type@, i) && chunk@ == self@[i],
                None => lacks_type(self@, chunk_type@),
            },
    {
        match position(&self.chunks, chunk_type) {
            Some(i) => {
                assert(is_first_of_type(self@, chunk_type@, i as int));
                Some(&self.chunks[i])
            },
            None => None,
        }
    }

    /// Takes the first chunk of the type that `chunk_type` spells out of
    /// the file. Later chunks of that type stay.
    pub fn remove_chunk(&mut self, chunk_type: &str) -> (removed: Result<Chunk, Error>)
        ensures
            match removed {
                Ok(chunk) => exists|i: int|
                    is_first_of_type(old(self)@, chunk_type@, i) && chunk@ == old(self)@[i]
                        && final(self)@ == old(self)@.remove(i),
                Err(fault) => fault == Error::NotFound && lacks_type(old(self)@, chunk_type@)
                    && final(self)@ == old(self)@,
            },
    {
        match position(&self.chunks, chunk_type) {
            Some(i) => {
                assert(is_first_of_type(self@, chunk_type@, i as int));
                let chunk = self.chunks.remove(i);
                assert(self@ =~= old(self)@.remove(i as int));
                Ok(chunk)
            },
            None => Err(Error::NotFound),
        }
    }

    /// The file as bytes: the signature, then every chunk in order.
    pub fn as_bytes(&self) -> (bytes: Vec<u8>)
        ensures
            bytes@ == encode_file(self@),
            all_wf(self@),
    {
        let mut bytes: Vec<u8> = Vec::new();
        bytes.extend_from_slice(STANDARD_HEADER.as_slice());
        assert(bytes@ =~= signature());
        let mut i: usize = 0;
        while i < self.chunks.len()
            invariant
                i <= self.chunks@.len(),
                bytes@ == signature() + encode_chunks(self@.take(i as int)),
                all_wf(self@.take(i as int)),
            decreases self.chunks@.len() - i,
        {
            let chunk = &self.chunks[i];
            let encoded = chunk.as_bytes();
            bytes.extend_from_slice(encoded.as_slice());
            proof {
                let longer = self@.take(i + 1);
                assert(longer.drop_last() =~= self@.take(i as int));
                assert(longer.last() == chunk@);
                assert(bytes@ =~= signature() + encode_chunks(longer));
            }
            i = i + 1;
        }
        assert(self@.take(i as int) =~= self@);
        bytes
    }
}

/// Whether `chunk` is the chunk that ends a PNG file.
fn ends_file(chunk: &Chunk) -> (yes: bool)
    ensures
        yes == is_terminator(chunk@),
{
    let code = chunk.chunk_type().bytes();
    let yes = code[0] == 73 && code[1] == 69 && code[2] == 78 && code[3] == 68 && chunk.length()
        == 0;
    assert(yes == (chunk@.chunk_type =~= terminator_code() && chunk@.data.len() == 0));
    yes
}

/// The index of the first chunk of the type that `text` spells.
fn position(chunks: &Vec<Chunk>, text: &str) -> (found: Option<usize>)
    ensures
        match found {
            Some(i) => i < chunks@.len() && has_type(chunks@[i as int]@, text@) && forall|j: int|
                0 <= j < i ==> !has_type((#[trigger] chunks@[j])@, text@),
            None => forall|j: int|
                0 <= j < chunks@.len() ==> !has_type((#[trigger] chunks@[j])@, text@),
        },
{
    let mut i: usize = 0;
    while i < chunks.len()
        invariant
            i <= chunks@.len(),
            forall|j: int| 0 <= j < i ==> !has_type((#[trigger] chunks@[j])@, text@),
        decreases chunks@.len() - i,
    {
        if chunks[i].chunk_type().has_text(text) {
            return Some(i);
        }
        i = i + 1;
    }
    None
}

impl<'a> TryFrom<&'a [u8]> for Png {
    type Error = Error;

    /// Decodes a file: the signature, then chunk after chunk to the last
    /// byte. Each chunk is cut out by its length field and decoded by
    /// itself. A fault comes with the position of its chunk; it is
    /// `Truncated` where the file ends before the chunk does.
    fn try_from(bytes: &'a [u8]) -> (made: Result<Png, Error>)
        ensures
            match made {
                Ok(png) => decode_file(bytes@) == Ok::<Seq<ChunkView>, Error>(png@),
                Err(fault) => decode_file(bytes@) == Err::<Seq<ChunkView>, Error>(fault),
            },
    {
        if bytes.len() < 8 {
            return Err(Error::InvalidSignature);
        }
        let head = slice_subrange(bytes, 0, 8);
        let mut k: usize = 0;
        while k < 8
            invariant
                k <= 8,
                bytes@.len() >= 8,
                head@ == bytes@.subrange(0, 8),
                forall|j: int| 0 <= j < k ==> head@[j] == signature()[j],
            decreases 8 - k,
        {
            if head[k] != STANDARD_HEADER[k] {
                assert(head@[k as int] != signature()[k as int]);
                return Err(Error::InvalidSignature);
            }
            k = k + 1;
        }
        assert(head@ =~= signature());
        let mut chunks: Vec<Chunk> = Vec::new();
        let mut at: usize = 8;
        while at < bytes.len()
            invariant
                8 <= at <= bytes@.len(),
                has_signature(bytes@),
                decode_chunks(bytes@, 8) == joined(
                    Seq::new(chunks@.len(), |i: int| chunks@[i]@),
                    decode_chunks(bytes@, at as int),
                ),
            decreases bytes@.len() - at,
        {
            let ghost before = Seq::new(chunks@.len(), |i: int| chunks@[i]@);
            if bytes.len() - at < 12 {
                return Err(Error::Chunk { offset: at, cause: ChunkError::Truncated });
            }
            let length: u32 = read_be32(bytes, at);
            assert(bytes@.skip(at as int).subrange(0, 4) =~= bytes@.subrange(at as int, at + 4));
            if ((bytes.len() - at - 12) as u64) < length as u64 {
                return Err(Error::Chunk { offset: at, cause: ChunkError::Truncated });
            }
            let end: usize = at + 12 + length as usize;
            match Chunk::try_from(slice_subrange(bytes, at, end)) {
                Err(fault) => {
                    return Err(Error::Chunk { offset: at, cause: fault });
                },
                Ok(chunk) => {
                    let ghost next = decode_chunks(bytes@, end as int);
                    chunks.push(chunk);
                    proof {
                        let after = Seq::new(chunks@.len(), |i: int| chunks@[i]@);
                        assert(after =~= before.push(chunk@));
                        if next is Ok {
                            assert(before + (seq![chunk@] + next->Ok_0) =~= after + next->Ok_0);
                        }
                    }
                    at = end;
                },
            }
        }
        let png = Png { chunks };
        assert(png@ =~= png@ + Seq::<ChunkView>::empty());
        Ok(png)
    }
}

/// The conversion is specified by its own `ensures`, over views: no spec
/// function can say which `Vec` a decoded file holds.
impl<'a> vstd::std_specs::convert::TryFromSpecImpl<&'a [u8]> for Png {
    open spec fn obeys_try_from_spec() -> bool {
        false
    }

    open spec fn try_from_spec(bytes: &'a [u8]) -> Result<Png, Error> {
        arbitrary()
    }
}

/// The chunks found so far, followed by what the rest of the file gives.
pub open spec fn joined(found: Seq<ChunkView>, rest: Result<Seq<ChunkView>, Error>) -> Result<
    Seq<ChunkView>,
    Error,
> {
    match rest {
        Ok(more) => Ok(found + more),
        Err(fault) => Err(fault),
    }
}

/// Chunks written after a first chunk are the first chunk's bytes, then
/// the others'.
pub proof fn lemma_encode_chunks_first(first: ChunkView, rest: Seq<ChunkView>)
    ensures
        encode_chunks(seq![first] + rest) == first.encode() + encode_chunks(rest),
    decreases rest.len(),
{
    let all = seq![first] + rest;
    if rest.len() == 0 {
        assert(all.drop_last() =~= rest);
        assert(all.last() == first);
        assert(encode_chunks(all) =~= first.encode() + encode_chunks(rest));
    } else {
        lemma_encode_chunks_first(first, rest.drop_last());
        assert(all.drop_last() =~= seq![first] + rest.drop_last());
        assert(all.last() == rest.last());
        assert(encode_chunks(all) =~= first.encode() + encode_chunks(rest));
    }
}

/// Chunks that are written after any bytes and read from where they start
/// are the same chunks.
pub proof fn lemma_decode_chunks_of_encode(before: Seq<u8>, chunks: Seq<ChunkView>)
    requires
        all_wf(chunks),
    ensures
        decode_chunks(before + encode_chunks(chunks), before.len() as int) == Ok::<
            Seq<ChunkView>,
            Error,
        >(chunks),
    decreases chunks.len(),
{
    let bytes = before + encode_chunks(chunks);
    let at = before.len() as int;
    if chunks.len() == 0 {
        assert(decode_chunks(bytes, at) == Ok::<Seq<ChunkView>, Error>(Seq::empty()));
        assert(chunks =~= Seq::<ChunkView>::empty());
    } else {
        let first = chunks[0];
        let rest = chunks.drop_first();
        assert(chunks =~= seq![first] + rest);
        assert(first.wf());
        assert(all_wf(rest)) by {
            assert forall|i: int| 0 <= i < rest.len() implies (#[trigger] rest[i]).wf() by {
                assert(rest[i] == chunks[i + 1]);
            }
        }
        lemma_encode_chunks_first(first, rest);
        lemma_decode_encode(first);
        let end = at + 12 + first.data.len();
        assert(bytes.skip(at).subrange(0, 4) =~= first.encode().subrange(0, 4));
        assert(chunk_end(bytes, at) == end);
        assert(bytes.subrange(at, end) =~= first.encode());
        lemma_decode_chunks_of_encode(before + first.encode(), rest);
        assert(bytes =~= (before + first.encode()) + encode_chunks(rest));
    }
}

/// Where bytes from `at` on decode to chunks, the chunks are well formed
/// and their encoding is those bytes, to the last.
pub proof fn lemma_encode_chunks_of_decode(bytes: Seq<u8>, at: int)
    requires
        0 <= at <= bytes.len(),
        decode_chunks(bytes, at) is Ok,
    ensures
        all_wf(decode_chunks(bytes, at)->Ok_0),
        encode_chunks(decode_chunks(bytes, at)->Ok_0) == bytes.skip(at),
    decreases bytes.len() - at,
{
    let chunks = decode_chunks(bytes, at)->Ok_0;
    if at >= bytes.len() {
        assert(bytes.skip(at) =~= Seq::<u8>::empty());
    } else {
        let next = chunk_end(bytes, at);
        let frame = bytes.subrange(at, next);
        let first = decode(frame)->Ok_0;
        lemma_encode_decode(frame);
        let rest = decode_chunks(bytes, next)->Ok_0;
        lemma_encode_chunks_of_decode(bytes, next);
        assert(chunks == seq![first] + rest);
        lemma_encode_chunks_first(first, rest);
        assert(frame + bytes.skip(next) =~= bytes.skip(at));
    }
}

/// A file that is written and read again holds the same chunks.
pub proof fn lemma_decode_file_of_encode(chunks: Seq<ChunkView>)
    requires
        all_wf(chunks),
    ensures
        decode_file(encode_file(chunks)) == Ok::<Seq<ChunkView>, Error>(chunks),
{
    lemma_decode_chunks_of_encode(signature(), chunks);
    assert(encode_file(chunks).subrange(0, 8) =~= signature());
}

/// Where bytes decode to a file, the chunks are well formed and writing
/// them gives the bytes back: decoding accepts nothing but what encoding
/// writes.
pub proof fn lemma_encode_file_of_decode(bytes: Seq<u8>)
    requires
        decode_file(bytes) is Ok,
    ensures
        all_wf(decode_file(bytes)->Ok_0),
        encode_file(decode_file(bytes)->Ok_0) == bytes,
{
    lemma_encode_chunks_of_decode(bytes, 8);
    assert(bytes.subrange(0, 8) + bytes.skip(8) =~= bytes);
}

/// Decoding and encoding a second time changes nothing: what a decoded
/// file encodes to decodes again, and encodes to the same bytes.
pub proof fn lemma_reencode_is_idempotent(bytes: Seq<u8>)
    requires
        decode_file(bytes) is Ok,
    ensures
        decode_file(encode_file(decode_file(bytes)->Ok_0)) is Ok,
        encode_file(decode_file(encode_file(decode_file(bytes)->Ok_0))->Ok_0) == encode_file(
            decode_file(bytes)->Ok_0,
        ),
{
    lemma_encode_file_of_decode(bytes);
}

/// Appending adds one chunk and keeps the others in their order; where
/// the file ended with the `IEND` chunk, it still does.
pub proof fn lemma_appended(chunks: Seq<ChunkView>, chunk: ChunkView)
    ensures
        appended(chunks, chunk).len() == chunks.len() + 1,
        chunks.len() > 0 && is_terminator(chunks.last()) ==> {
            &&& appended(chunks, chunk).last() == chunks.last()
            &&& appended(chunks, chunk) == chunks.insert(chunks.len() - 1, chunk)
        },
        !(chunks.len() > 0 && is_terminator(chunks.last())) ==> appended(chunks, chunk)
            == chunks.push(chunk),
        all_wf(chunks) && chunk.wf() ==> all_wf(appended(chunks, chunk)),
{
    if chunks.len() > 0 && is_terminator(chunks.last()) {
        assert(appended(chunks, chunk) =~= chunks.insert(chunks.len() - 1, chunk));
    }
}

} // verus!
