//! Little-endian byte forms of 32-bit and 64-bit numbers.

use vstd::prelude::*;

verus! {

/// The four bytes of `x`, lowest first: each is what is left of `x` below
/// 256 after the bytes before it have been divided away.
#[verifier::opaque]
pub open spec fn spec_u32_le(x: u32) -> Seq<u8> {
    let q1 = x / 256;
    let q2 = q1 / 256;
    let q3 = q2 / 256;
    seq![(x % 256) as u8, (q1 % 256) as u8, (q2 % 256) as u8, (q3 % 256) as u8]
}

/// The number whose four bytes, lowest first, are the first four of `s`.
#[verifier::opaque]
pub open spec fn spec_u32_from_le(s: Seq<u8>) -> u32 {
    (s[0] + 256 * (s[1] + 256 * (s[2] + 256 * s[3]))) as u32
}

/// The eight bytes of `x`, lowest first: each is what is left of `x` below
/// 256 after the bytes before it have been divided away.
#[verifier::opaque]
pub open spec fn spec_u64_le(x: u64) -> Seq<u8> {
    let q1 = x / 256;
    let q2 = q1 / 256;
    let q3 = q2 / 256;
    let q4 = q3 / 256;
    let q5 = q4 / 256;
    let q6 = q5 / 256;
    let q7 = q6 / 256;
    seq![
        (x % 256) as u8,
        (q1 % 256) as u8,
        (q2 % 256) as u8,
        (q3 % 256) as u8,
        (q4 % 256) as u8,
        (q5 % 256) as u8,
        (q6 % 256) as u8,
        (q7 % 256) as u8,
    ]
}

/// The number whose eight bytes, lowest first, are the first eight of `s`.
#[verifier::opaque]
pub open spec fn spec_u64_from_le(s: Seq<u8>) -> u64 {
    (s[0] + 256 * (s[1] + 256 * (s[2] + 256 * (s[3] + 256 * (s[4] + 256 * (s[5] + 256 * (s[6] + 256
        * s[7]))))))) as u64
}

/// A byte put below a number is found again by division: the remainder is
/// the byte, the quotient the number.
proof fn lemma_split(byte: int, above: int)
    requires
        0 <= byte < 256,
        0 <= above,
    ensures
        (byte + 256 * above) % 256 == byte,
        (byte + 256 * above) / 256 == above,
{
}

/// A 32-bit number is read back from its four bytes.
pub proof fn lemma_u32_le_round_trip(x: u32)
    ensures
        spec_u32_le(x).len() == 4,
        spec_u32_from_le(spec_u32_le(x)) == x,
{
    reveal(spec_u32_le);
    reveal(spec_u32_from_le);
    let q1 = x / 256;
    let q2 = q1 / 256;
    let q3 = q2 / 256;
    assert(x == x % 256 + 256 * q1);
    assert(q1 == q1 % 256 + 256 * q2);
    assert(q2 == q2 % 256 + 256 * q3);
    assert(q3 < 256);
}

/// Four bytes are the bytes of the number read from them.
pub proof fn lemma_u32_le_canonical(s: Seq<u8>)
    requires
        s.len() == 4,
    ensures
        spec_u32_le(spec_u32_from_le(s)) == s,
{
    reveal(spec_u32_le);
    reveal(spec_u32_from_le);
    let r3 = s[3] as int;
    let r2 = s[2] + 256 * r3;
    let r1 = s[1] + 256 * r2;
    let r0 = s[0] + 256 * r1;
    lemma_split(s[2] as int, r3);
    lemma_split(s[1] as int, r2);
    lemma_split(s[0] as int, r1);
    assert(r0 <= u32::MAX);
    assert(spec_u32_from_le(s) == r0);
    assert(spec_u32_le(spec_u32_from_le(s)) =~= s);
}

/// A 64-bit number is read back from its eight bytes.
pub proof fn lemma_u64_le_round_trip(x: u64)
    ensures
        spec_u64_le(x).len() == 8,
        spec_u64_from_le(spec_u64_le(x)) == x,
{
    reveal(spec_u64_le);
    reveal(spec_u64_from_le);
    let q1 = x / 256;
    let q2 = q1 / 256;
    let q3 = q2 / 256;
    let q4 = q3 / 256;
    let q5 = q4 / 256;
    let q6 = q5 / 256;
    let q7 = q6 / 256;
    assert(x == x % 256 + 256 * q1);
    assert(q1 == q1 % 256 + 256 * q2);
    assert(q2 == q2 % 256 + 256 * q3);
    assert(q3 == q3 % 256 + 256 * q4);
    assert(q4 == q4 % 256 + 256 * q5);
    assert(q5 == q5 % 256 + 256 * q6);
    assert(q6 == q6 % 256 + 256 * q7);
    assert(q7 < 256);
}

/// Eight bytes are the bytes of the number read from them.
pub proof fn lemma_u64_le_canonical(s: Seq<u8>)
    requires
        s.len() == 8,
    ensures
        spec_u64_le(spec_u64_from_le(s)) == s,
{
    reveal(spec_u64_le);
    reveal(spec_u64_from_le);
    let r7 = s[7] as int;
    let r6 = s[6] + 256 * r7;
    let r5 = s[5] + 256 * r6;
    let r4 = s[4] + 256 * r5;
    let r3 = s[3] + 256 * r4;
    let r2 = s[2] + 256 * r3;
    let r1 = s[1] + 256 * r2;
    let r0 = s[0] + 256 * r1;
    lemma_split(s[6] as int, r7);
    lemma_split(s[5] as int, r6);
    lemma_split(s[4] as int, r5);
    lemma_split(s[3] as int, r4);
    lemma_split(s[2] as int, r3);
    lemma_split(s[1] as int, r2);
    lemma_split(s[0] as int, r1);
    assert(r0 <= u64::MAX);
    assert(spec_u64_from_le(s) == r0);
    assert(spec_u64_le(spec_u64_from_le(s)) =~= s);
}

/// Writes `x` as four bytes, lowest first.
pub fn u32_to_le(x: u32) -> (bytes: Vec<u8>)
    ensures
        bytes@ == spec_u32_le(x),
{
    let q1: u32 = x / 256;
    let q2: u32 = q1 / 256;
    let q3: u32 = q2 / 256;
    let bytes = vec![(x % 256) as u8, (q1 % 256) as u8, (q2 % 256) as u8, (q3 % 256) as u8];
    proof {
        reveal(spec_u32_le);
    }
    assert(bytes@ =~= spec_u32_le(x));
    bytes
}

/// Reads the number that four bytes spell, lowest first.
pub fn u32_from_le(s: &[u8]) -> (x: u32)
    requires
        s@.len() == 4,
    ensures
        x == spec_u32_from_le(s@),
{
    proof {
        reveal(spec_u32_from_le);
    }
    let r3: u32 = s[3] as u32;
    let r2: u32 = s[2] as u32 + 256 * r3;
    let r1: u32 = s[1] as u32 + 256 * r2;
    s[0] as u32 + 256 * r1
}

/// Writes `x` as eight bytes, lowest first.
pub fn u64_to_le(x: u64) -> (bytes: Vec<u8>)
    ensures
        bytes@ == spec_u64_le(x),
{
    let q1: u64 = x / 256;
    let q2: u64 = q1 / 256;
    let q3: u64 = q2 / 256;
    let q4: u64 = q3 / 256;
    let q5: u64 = q4 / 256;
    let q6: u64 = q5 / 256;
    let q7: u64 = q6 / 256;
    let bytes = vec![
        (x % 256) as u8,
        (q1 % 256) as u8,
        (q2 % 256) as u8,
        (q3 % 256) as u8,
        (q4 % 256) as u8,
        (q5 % 256) as u8,
        (q6 % 256) as u8,
        (q7 % 256) as u8,
    ];
    proof {
        reveal(spec_u64_le);
    }
    assert(bytes@ =~= spec_u64_le(x));
    bytes
}

/// Reads the number that eight bytes spell, lowest first.
pub fn u64_from_le(s: &[u8]) -> (x: u64)
    requires
        s@.len() == 8,
    ensures
        x == spec_u64_from_le(s@),
{
    proof {
        reveal(spec_u64_from_le);
    }
    let r7: u64 = s[7] as u64;
    let r6: u64 = s[6] as u64 + 256 * r7;
    let r5: u64 = s[5] as u64 + 256 * r6;
    let r4: u64 = s[4] as u64 + 256 * r5;
    let r3: u64 = s[3] as u64 + 256 * r4;
    let r2: u64 = s[2] as u64 + 256 * r3;
    let r1: u64 = s[1] as u64 + 256 * r2;
    s[0] as u64 + 256 * r1
}

} // verus!
