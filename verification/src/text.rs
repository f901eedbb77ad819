//! Bytes read as UTF-8 text.

use crate::error::Error;
use std::string::FromUtf8Error;
use vstd::prelude::*;
use vstd::utf8::{decode_utf8, valid_utf8};

verus! {

/// `std::string::FromUtf8Error`, carried from the standard library to the
/// place where it becomes an [`Error`]. Nothing is known of what it holds.
#[verifier::external_type_specification]
#[verifier::external_body]
pub struct ExFromUtf8Error(FromUtf8Error);

/// `String::from_utf8`.
///
/// Trusted, as documented: it succeeds exactly on valid UTF-8, and the
/// string then holds the characters that the bytes encode.
pub assume_specification[ String::from_utf8 ](vec: Vec<u8>) -> (text: Result<
    String,
    FromUtf8Error,
>)
    ensures
        text is Ok <==> valid_utf8(vec@),
        text is Ok ==> text->Ok_0@ == decode_utf8(vec@),
;

/// Reads `bytes` as UTF-8 text.
pub fn decode(bytes: Vec<u8>) -> (text: Result<String, Error>)
    ensures
        valid_utf8(bytes@) ==> text is Ok && text->Ok_0@ == decode_utf8(bytes@),
        !valid_utf8(bytes@) ==> text == Err::<String, Error>(Error::InvalidEncoding),
{
    match String::from_utf8(bytes) {
        Ok(text) => Ok(text),
        Err(_) => Err(Error::InvalidEncoding),
    }
}

/// Every byte is below 128.
pub open spec fn is_ascii_bytes(bytes: Seq<u8>) -> bool {
    forall|i: int| 0 <= i < bytes.len() ==> #[trigger] bytes[i] < 0x80
}

/// The text that ASCII bytes spell: each byte as the character of the same
/// number.
pub open spec fn ascii_text(bytes: Seq<u8>) -> Seq<char> {
    Seq::new(bytes.len(), |i: int| bytes[i] as char)
}

/// ASCII bytes are valid UTF-8 and decode to the text that they spell.
pub proof fn lemma_ascii_text(bytes: Seq<u8>)
    requires
        is_ascii_bytes(bytes),
    ensures
        valid_utf8(bytes),
        decode_utf8(bytes) == ascii_text(bytes),
{
    let text = ascii_text(bytes);
    assert forall|i: int| 0 <= i < text.len() implies '\0' <= #[trigger] text[i] <= '\u{7f}' by {
        assert(bytes[i] < 0x80);
    }
    vstd::utf8::is_ascii_chars_encode_utf8(text);
    assert(vstd::utf8::encode_utf8(text) =~= bytes) by {
        assert forall|i: int| 0 <= i < bytes.len() implies vstd::utf8::encode_utf8(text)[i]
            == bytes[i] by {
            assert(text[i] as u8 == vstd::utf8::encode_utf8(text)[i]);
            assert(bytes[i] < 0x80);
        }
    }
    vstd::utf8::encode_utf8_valid_utf8(text);
    vstd::utf8::encode_utf8_decode_utf8(text);
}

/// Makes a string of ASCII bytes.
pub fn ascii_string(bytes: Vec<u8>) -> (text: String)
    requires
        is_ascii_bytes(bytes@),
    ensures
        text@ == ascii_text(bytes@),
{
    proof {
        lemma_ascii_text(bytes@);
    }
    match decode(bytes) {
        Ok(text) => text,
        Err(_) => String::new(),
    }
}

/// The character of the decimal digit `d`.
pub open spec fn digit(d: nat) -> char {
    (0x30 + d) as char
}

/// `n` in decimal digits, without leading zeros.
pub open spec fn decimal(n: nat) -> Seq<char>
    decreases n,
{
    if n < 10 {
        seq![digit(n)]
    } else {
        decimal(n / 10).push(digit(n % 10))
    }
}

/// Writes `n` in decimal digits.
pub fn decimal_string(n: u64) -> (text: String)
    ensures
        text@ == decimal(n as nat),
{
    let mut reversed: Vec<u8> = Vec::new();
    let mut rest: u64 = n;
    while rest >= 10
        invariant
            is_ascii_bytes(reversed@),
            decimal(n as nat) == decimal(rest as nat) + ascii_text(reversed@.reverse()),
        decreases rest,
    {
        let ghost before = reversed@;
        reversed.push(0x30 + (rest % 10) as u8);
        proof {
            assert(ascii_text(reversed@.reverse()) =~= seq![digit((rest % 10) as nat)] + ascii_text(
                before.reverse(),
            ));
            assert(decimal(rest as nat) =~= decimal((rest / 10) as nat) + seq![
                digit((rest % 10) as nat),
            ]);
        }
        rest = rest / 10;
    }
    let ghost before = reversed@;
    reversed.push(0x30 + rest as u8);
    proof {
        assert(ascii_text(reversed@.reverse()) =~= seq![digit(rest as nat)] + ascii_text(
            before.reverse(),
        ));
    }
    let mut digits: Vec<u8> = Vec::new();
    let mut i: usize = reversed.len();
    while i > 0
        invariant
            i <= reversed@.len(),
            digits@ == reversed@.reverse().subrange(0, reversed@.len() - i),
        decreases i,
    {
        i = i - 1;
        digits.push(reversed[i]);
        assert(digits@ =~= reversed@.reverse().subrange(0, reversed@.len() - i));
    }
    assert(digits@ =~= reversed@.reverse());
    ascii_string(digits)
}

} // verus!
