//! The four-letter type of a chunk.

use crate::error::Error;
use crate::text::{ascii_string, ascii_text};
use vstd::prelude::*;

verus! {

/// `b` is an ASCII capital letter.
pub open spec fn is_upper(b: u8) -> bool {
    0x41 <= b <= 0x5a
}

/// `b` is an ASCII small letter.
pub open spec fn is_lower(b: u8) -> bool {
    0x61 <= b <= 0x7a
}

/// `b` is an ASCII letter.
pub open spec fn is_letter(b: u8) -> bool {
    is_upper(b) || is_lower(b)
}

/// `code` is a chunk type: four ASCII letters.
pub open spec fn is_type_code(code: Seq<u8>) -> bool {
    &&& code.len() == 4
    &&& forall|i: int| 0 <= i < 4 ==> is_letter(#[trigger] code[i])
}

/// `c` is an ASCII letter.
pub open spec fn is_letter_char(c: char) -> bool {
    ('A' <= c <= 'Z') || ('a' <= c <= 'z')
}

/// `text` spells a chunk type: four ASCII letters.
pub open spec fn is_type_text(text: Seq<char>) -> bool {
    &&& text.len() == 4
    &&& forall|i: int| 0 <= i < 4 ==> is_letter_char(#[trigger] text[i])
}

/// The bytes that `text` spells: each character as the byte of the same
/// number.
pub open spec fn text_code(text: Seq<char>) -> Seq<u8> {
    Seq::new(text.len(), |i: int| text[i] as u8)
}

/// Whether `b` is an ASCII letter.
pub fn letter(b: u8) -> (yes: bool)
    ensures
        yes == is_letter(b),
{
    (0x41 <= b && b <= 0x5a) || (0x61 <= b && b <= 0x7a)
}

/// A validated chunk type. Its view is the four bytes.
#[derive(Debug, Clone, Copy, Eq)]
pub struct ChunkType {
    code: [u8; 4],
}

impl View for ChunkType {
    type V = Seq<u8>;

    closed spec fn view(&self) -> Seq<u8> {
        self.code@
    }
}

impl ChunkType {
    /// Every value of the type holds four ASCII letters.
    #[verifier::type_invariant]
    pub open spec fn wf(self) -> bool {
        is_type_code(self@)
    }

    /// The four bytes.
    pub fn bytes(&self) -> (code: [u8; 4])
        ensures
            code@ == self@,
            is_type_code(self@),
    {
        proof {
            use_type_invariant(self);
        }
        self.code
    }

    /// Reads a chunk type from text. The text must be four ASCII letters:
    /// shorter text is refused, not padded.
    pub fn from_str(s: &str) -> (made: Result<ChunkType, Error>)
        ensures
            is_type_text(s@) ==> made is Ok && made->Ok_0@ == text_code(s@),
            !is_type_text(s@) ==> made == Err::<ChunkType, Error>(Error::InvalidFormat),
    {
        if !s.is_ascii() {
            return Err(Error::InvalidFormat);
        }
        let bytes = s.as_bytes();
        proof {
            vstd::string::is_ascii_spec_bytes(s);
            vstd::utf8::is_ascii_chars_nat_bound(s@);
            assert(bytes@ =~= text_code(s@));
            assert forall|i: int| 0 <= i < s@.len() implies is_letter(#[trigger] text_code(s@)[i])
                == is_letter_char(s@[i]) by {
                assert((s@[i] as nat) < 128);
            }
        }
        if bytes.len() != 4 {
            return Err(Error::InvalidFormat);
        }
        let code = [bytes[0], bytes[1], bytes[2], bytes[3]];
        assert(code@ =~= text_code(s@));
        ChunkType::try_from(code)
    }

    /// The type as text.
    pub fn to_string(&self) -> (text: String)
        ensures
            text@ == ascii_text(self@),
    {
        proof {
            use_type_invariant(self);
        }
        let mut bytes: Vec<u8> = Vec::new();
        bytes.push(self.code[0]);
        bytes.push(self.code[1]);
        bytes.push(self.code[2]);
        bytes.push(self.code[3]);
        assert(bytes@ =~= self@);
        ascii_string(bytes)
    }

    /// Whether `text` spells this type.
    pub fn has_text(&self, text: &str) -> (yes: bool)
        ensures
            yes == (ascii_text(self@) == text@),
    {
        proof {
            use_type_invariant(self);
            lemma_text_of_code(self@);
        }
        if !text.is_ascii() {
            return false;
        }
        let bytes = text.as_bytes();
        proof {
            vstd::string::is_ascii_spec_bytes(text);
            vstd::utf8::is_ascii_chars_nat_bound(text@);
            assert(bytes@ =~= text_code(text@));
        }
        if bytes.len() != 4 {
            return false;
        }
        let yes = bytes[0] == self.code[0] && bytes[1] == self.code[1] && bytes[2] == self.code[2]
            && bytes[3] == self.code[3];
        proof {
            if yes {
                assert(ascii_text(self@) =~= text@) by {
                    assert forall|i: int| 0 <= i < 4 implies ascii_text(self@)[i] == text@[i] by {
                        assert((text@[i] as nat) < 128);
                        assert(text_code(text@)[i] == self@[i]);
                    }
                }
            } else {
                if ascii_text(self@) == text@ {
                    assert(text_code(text@) == self@);
                    assert(false);
                }
            }
        }
        yes
    }

    /// Whether the first letter is a capital: the chunk is critical, not
    /// ancillary.
    pub fn is_critical(&self) -> (yes: bool)
        ensures
            yes == is_upper(self@[0]),
            yes == !is_lower(self@[0]),
    {
        proof {
            use_type_invariant(self);
        }
        self.code[0] <= 0x5a
    }

    /// Whether the second letter is a capital: the chunk is public, not
    /// private.
    pub fn is_public(&self) -> (yes: bool)
        ensures
            yes == is_upper(self@[1]),
            yes == !is_lower(self@[1]),
    {
        proof {
            use_type_invariant(self);
        }
        self.code[1] <= 0x5a
    }

    /// Whether the third letter is a capital, as the PNG standard demands
    /// of every type in use.
    pub fn is_reserved_bit_valid(&self) -> (yes: bool)
        ensures
            yes == is_upper(self@[2]),
            yes == !is_lower(self@[2]),
    {
        proof {
            use_type_invariant(self);
        }
        self.code[2] <= 0x5a
    }

    /// Whether the fourth letter is small: an editor that does not know
    /// the chunk may copy it.
    pub fn is_safe_to_copy(&self) -> (yes: bool)
        ensures
            yes == is_lower(self@[3]),
            yes == !is_upper(self@[3]),
    {
        proof {
            use_type_invariant(self);
        }
        self.code[3] >= 0x61
    }

    /// Whether the type is well formed under the PNG standard: its
    /// reserved bit is valid.
    pub fn is_valid(&self) -> (yes: bool)
        ensures
            yes == is_upper(self@[2]),
    {
        self.is_reserved_bit_valid()
    }
}

/// The text of a chunk type spells a chunk type, and spells the same
/// bytes again.
pub proof fn lemma_text_of_code(code: Seq<u8>)
    requires
        is_type_code(code),
    ensures
        is_type_text(ascii_text(code)),
        text_code(ascii_text(code)) == code,
{
    let text = ascii_text(code);
    assert forall|i: int| 0 <= i < 4 implies is_letter_char(#[trigger] text[i]) by {
        assert(is_letter(code[i]));
    }
    assert(text_code(text) =~= code) by {
        assert forall|i: int| 0 <= i < 4 implies text_code(text)[i] == code[i] by {
            assert(is_letter(code[i]));
        }
    }
}

/// Text that spells a chunk type gives the bytes of a chunk type, and
/// these spell the same characters in the same order.
pub proof fn lemma_code_of_text(text: Seq<char>)
    requires
        is_type_text(text),
    ensures
        is_type_code(text_code(text)),
        ascii_text(text_code(text)) == text,
{
    let code = text_code(text);
    assert forall|i: int| 0 <= i < 4 implies is_letter(#[trigger] code[i]) by {
        assert(is_letter_char(text[i]));
    }
    assert(ascii_text(code) =~= text) by {
        assert forall|i: int| 0 <= i < 4 implies ascii_text(code)[i] == text[i] by {
            assert(is_letter_char(text[i]));
        }
    }
}

impl PartialEq for ChunkType {
    fn eq(&self, other: &ChunkType) -> (same: bool) {
        proof {
            use_type_invariant(self);
            use_type_invariant(other);
        }
        let same = self.code[0] == other.code[0] && self.code[1] == other.code[1]
            && self.code[2] == other.code[2] && self.code[3] == other.code[3];
        assert(same == (self@ =~= other@));
        same
    }
}

impl vstd::std_specs::cmp::PartialEqSpecImpl for ChunkType {
    open spec fn obeys_eq_spec() -> bool {
        true
    }

    open spec fn eq_spec(&self, other: &ChunkType) -> bool {
        self@ == other@
    }
}

impl TryFrom<[u8; 4]> for ChunkType {
    type Error = Error;

    fn try_from(value: [u8; 4]) -> (made: Result<ChunkType, Error>)
        ensures
            is_type_code(value@) ==> made is Ok && made->Ok_0@ == value@,
            !is_type_code(value@) ==> made == Err::<ChunkType, Error>(Error::InvalidFormat),
    {
        if letter(value[0]) && letter(value[1]) && letter(value[2]) && letter(value[3]) {
            Ok(ChunkType { code: value })
        } else {
            Err(Error::InvalidFormat)
        }
    }
}

impl std::str::FromStr for ChunkType {
    type Err = Error;

    /// Reads a chunk type from text, as the inherent function of the same
    /// name does: four ASCII letters give the type that they spell, and
    /// any other text is refused.
    fn from_str(s: &str) -> (made: Result<ChunkType, Error>)
        ensures
            is_type_text(s@) ==> made is Ok && made->Ok_0@ == text_code(s@),
            !is_type_text(s@) ==> made == Err::<ChunkType, Error>(Error::InvalidFormat),
    {
        ChunkType::from_str(s)
    }
}

impl vstd::std_specs::convert::TryFromSpecImpl<[u8; 4]> for ChunkType {
    open spec fn obeys_try_from_spec() -> bool {
        true
    }

    closed spec fn try_from_spec(value: [u8; 4]) -> Result<ChunkType, Error> {
        if is_type_code(value@) {
            Ok(ChunkType { code: value })
        } else {
            Err(Error::InvalidFormat)
        }
    }
}

} // verus!
