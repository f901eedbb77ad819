//! Big-endian 32-bit numbers, as PNG writes lengths and checksums.

use vstd::prelude::*;

verus! {

/// The number that the first four bytes of `bytes` spell, most significant
/// byte first.
#[verifier::opaque]
pub open spec fn be32(bytes: Seq<u8>) -> u32 {
    (bytes[0] as int * 0x100_0000 + bytes[1] as int * 0x1_0000 + bytes[2] as int * 0x100
        + bytes[3] as int) as u32
}

/// The four bytes that spell `x`, most significant byte first.
#[verifier::opaque]
pub open spec fn be_bytes(x: u32) -> Seq<u8> {
    seq![
        (x / 0x100_0000) as u8,
        ((x / 0x1_0000) % 0x100) as u8,
        ((x / 0x100) % 0x100) as u8,
        (x % 0x100) as u8,
    ]
}

/// Reading what was written gives the number back.
pub proof fn lemma_be32_of_be_bytes(x: u32)
    ensures
        be_bytes(x).len() == 4,
        be32(be_bytes(x)) == x,
{
    reveal(be32);
    reveal(be_bytes);
}

/// Writing what was read gives the four bytes back.
pub proof fn lemma_be_bytes_of_be32(bytes: Seq<u8>)
    requires
        bytes.len() == 4,
    ensures
        be_bytes(be32(bytes)) == bytes,
{
    reveal(be32);
    reveal(be_bytes);
    let b0 = bytes[0] as int;
    let b1 = bytes[1] as int;
    let b2 = bytes[2] as int;
    let b3 = bytes[3] as int;
    let x = b0 * 0x100_0000 + b1 * 0x1_0000 + b2 * 0x100 + b3;
    assert(be32(bytes) == x);
    assert(x / 0x100_0000 == b0 && (x / 0x1_0000) % 0x100 == b1 && (x / 0x100) % 0x100 == b2 && x
        % 0x100 == b3) by {
        lemma_digits(b0, b1, b2, b3);
    }
    assert(be_bytes(be32(bytes)) =~= bytes);
}

/// The four base-256 digits of a number are found by dividing.
proof fn lemma_digits(b0: int, b1: int, b2: int, b3: int)
    requires
        0 <= b0 < 0x100,
        0 <= b1 < 0x100,
        0 <= b2 < 0x100,
        0 <= b3 < 0x100,
    ensures
        ({
            let x = b0 * 0x100_0000 + b1 * 0x1_0000 + b2 * 0x100 + b3;
            &&& x / 0x100_0000 == b0
            &&& (x / 0x1_0000) % 0x100 == b1
            &&& (x / 0x100) % 0x100 == b2
            &&& x % 0x100 == b3
        }),
{
    let x = b0 * 0x100_0000 + b1 * 0x1_0000 + b2 * 0x100 + b3;
    let q2 = b0 * 0x1_0000 + b1 * 0x100 + b2;
    let q1 = b0 * 0x100 + b1;
    assert(x == q2 * 0x100 + b3);
    assert(x / 0x100 == q2 && x % 0x100 == b3);
    assert(q2 == q1 * 0x100 + b2);
    assert(q2 % 0x100 == b2 && q2 / 0x100 == q1);
    assert(x == q1 * 0x1_0000 + (b2 * 0x100 + b3));
    assert(x / 0x1_0000 == q1);
    assert(q1 % 0x100 == b1);
    assert(x == b0 * 0x100_0000 + (b1 * 0x1_0000 + b2 * 0x100 + b3));
    assert(x / 0x100_0000 == b0);
}

/// Reads the big-endian number at `bytes[at..at + 4]`.
pub fn read_be32(bytes: &[u8], at: usize) -> (x: u32)
    requires
        at + 4 <= bytes@.len(),
    ensures
        x == be32(bytes@.subrange(at as int, at + 4)),
{
    proof {
        reveal(be32);
    }
    let b0: u32 = bytes[at] as u32;
    let b1: u32 = bytes[at + 1] as u32;
    let b2: u32 = bytes[at + 2] as u32;
    let b3: u32 = bytes[at + 3] as u32;
    b0 * 0x100_0000 + b1 * 0x1_0000 + b2 * 0x100 + b3
}

/// Appends the four bytes of `x` to `out`, most significant byte first.
pub fn push_be32(out: &mut Vec<u8>, x: u32)
    ensures
        final(out)@ == old(out)@ + be_bytes(x),
{
    out.push((x / 0x100_0000) as u8);
    out.push(((x / 0x1_0000) % 0x100) as u8);
    out.push(((x / 0x100) % 0x100) as u8);
    proof {
        reveal(be_bytes);
    }
    out.push((x % 0x100) as u8);
    assert(out@ =~= old(out)@ + be_bytes(x));
}

} // verus!
