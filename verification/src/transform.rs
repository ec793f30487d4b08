//! The SM4 confusion and diffusion steps: the fixed substitution table, the
//! per-word byte substitution, and the two linear transforms (one for the
//! round function, one for the key schedule — their rotation amounts differ).

use vstd::prelude::*;

use crate::block::{byte_of, combine, split, word_of};

verus! {

/// The standardized SM4 substitution table: a fixed permutation of the 256
/// byte values. These entries are part of the cipher's definition; any
/// deviation yields an incompatible cipher.
pub const SBOX: [u8; 256] = [
    0xd6, 0x90, 0xe9, 0xfe, 0xcc, 0xe1, 0x3d, 0xb7, 0x16, 0xb6, 0x14, 0xc2, 0x28, 0xfb, 0x2c, 0x05,
    0x2b, 0x67, 0x9a, 0x76, 0x2a, 0xbe, 0x04, 0xc3, 0xaa, 0x44, 0x13, 0x26, 0x49, 0x86, 0x06, 0x99,
    0x9c, 0x42, 0x50, 0xf4, 0x91, 0xef, 0x98, 0x7a, 0x33, 0x54, 0x0b, 0x43, 0xed, 0xcf, 0xac, 0x62,
    0xe4, 0xb3, 0x1c, 0xa9, 0xc9, 0x08, 0xe8, 0x95, 0x80, 0xdf, 0x94, 0xfa, 0x75, 0x8f, 0x3f, 0xa6,
    0x47, 0x07, 0xa7, 0xfc, 0xf3, 0x73, 0x17, 0xba, 0x83, 0x59, 0x3c, 0x19, 0xe6, 0x85, 0x4f, 0xa8,
    0x68, 0x6b, 0x81, 0xb2, 0x71, 0x64, 0xda, 0x8b, 0xf8, 0xeb, 0x0f, 0x4b, 0x70, 0x56, 0x9d, 0x35,
    0x1e, 0x24, 0x0e, 0x5e, 0x63, 0x58, 0xd1, 0xa2, 0x25, 0x22, 0x7c, 0x3b, 0x01, 0x21, 0x78, 0x87,
    0xd4, 0x00, 0x46, 0x57, 0x9f, 0xd3, 0x27, 0x52, 0x4c, 0x36, 0x02, 0xe7, 0xa0, 0xc4, 0xc8, 0x9e,
    0xea, 0xbf, 0x8a, 0xd2, 0x40, 0xc7, 0x38, 0xb5, 0xa3, 0xf7, 0xf2, 0xce, 0xf9, 0x61, 0x15, 0xa1,
    0xe0, 0xae, 0x5d, 0xa4, 0x9b, 0x34, 0x1a, 0x55, 0xad, 0x93, 0x32, 0x30, 0xf5, 0x8c, 0xb1, 0xe3,
    0x1d, 0xf6, 0xe2, 0x2e, 0x82, 0x66, 0xca, 0x60, 0xc0, 0x29, 0x23, 0xab, 0x0d, 0x53, 0x4e, 0x6f,
    0xd5, 0xdb, 0x37, 0x45, 0xde, 0xfd, 0x8e, 0x2f, 0x03, 0xff, 0x6a, 0x72, 0x6d, 0x6c, 0x5b, 0x51,
    0x8d, 0x1b, 0xaf, 0x92, 0xbb, 0xdd, 0xbc, 0x7f, 0x11, 0xd9, 0x5c, 0x41, 0x1f, 0x10, 0x5a, 0xd8,
    0x0a, 0xc1, 0x31, 0x88, 0xa5, 0xcd, 0x7b, 0xbd, 0x2d, 0x74, 0xd0, 0x12, 0xb8, 0xe5, 0xb4, 0xb0,
    0x89, 0x69, 0x97, 0x4a, 0x0c, 0x96, 0x77, 0x7e, 0x65, 0xb9, 0xf1, 0x09, 0xc5, 0x6e, 0xc6, 0x84,
    0x18, 0xf0, 0x7d, 0xec, 0x3a, 0xdc, 0x4d, 0x20, 0x79, 0xee, 0x5f, 0x3e, 0xd7, 0xcb, 0x39, 0x48,
];

/// The substitution table as a function on bytes.
pub open spec fn sbox_at(b: u8) -> u8 {
    SBOX[b as int]
}

/// The non-linear step applied to a word: each of its four bytes is replaced
/// through the substitution table.
pub open spec fn sub_word(x: u32) -> u32 {
    word_of(
        sbox_at(byte_of(x, 0)),
        sbox_at(byte_of(x, 1)),
        sbox_at(byte_of(x, 2)),
        sbox_at(byte_of(x, 3)),
    )
}

/// Left rotation of a 32-bit word by `n` bits, `0 < n < 32`.
pub open spec fn rotl32(x: u32, n: u32) -> u32
    recommends
        0 < n < 32,
{
    (x << n) | (x >> ((32 - n) as u32))
}

/// The diffusion step of the round transform: XOR of a word with its left
/// rotations by 2, 10, 18 and 24 bits.
pub open spec fn diffuse_round(x: u32) -> u32 {
    x ^ rotl32(x, 2) ^ rotl32(x, 10) ^ rotl32(x, 18) ^ rotl32(x, 24)
}

/// The round transform `T`: byte substitution followed by the round
/// diffusion step.
pub open spec fn round_t(x: u32) -> u32 {
    diffuse_round(sub_word(x))
}

/// The key-schedule transform `T'`: byte substitution followed by XOR with
/// the left rotations by 13 and 23 bits (the rotation amounts that set it
/// apart from the round transform).
pub open spec fn key_t(x: u32) -> u32 {
    sub_word(x) ^ rotl32(sub_word(x), 13) ^ rotl32(sub_word(x), 23)
}

/// A word packed most-significant-byte-first equals the same bytes combined
/// least-significant-first; the OR of disjoint byte lanes commutes.
proof fn lemma_word_or_order(b0: u8, b1: u8, b2: u8, b3: u8)
    ensures
        ((b0 as u32) << 24) | ((b1 as u32) << 16) | ((b2 as u32) << 8) | (b3 as u32)
            == word_of(b0, b1, b2, b3),
{
    assert(((b0 as u32) << 24) | ((b1 as u32) << 16) | ((b2 as u32) << 8) | (b3 as u32)
        == (b3 as u32) | ((b2 as u32) << 8) | ((b1 as u32) << 16) | ((b0 as u32) << 24))
        by (bit_vector);
}

/// Left rotation, for the rotation amounts the cipher uses.
pub(crate) fn rotl(a: u32, n: u32) -> (r: u32)
    requires
        0 < n < 32,
    ensures
        r == rotl32(a, n),
{
    (a << n) | (a >> (32 - n))
}

/// Left rotation with the amount reduced modulo the word width.
pub(crate) fn l_rotate(x: u32, i: u32) -> (r: u32)
    requires
        i % 32 != 0,
    ensures
        r == rotl32(x, i % 32),
{
    (x << (i % 32)) | (x >> (32 - (i % 32)))
}

/// Byte substitution on a word, via split / table lookup / recombine.
pub(crate) fn tau_trans(input: u32) -> (r: u32)
    ensures
        r == sub_word(input),
{
    let input_bytes = split(input);
    let mut out: [u8; 4] = [0; 4];
    let mut i: usize = 0;
    while i < 4
        invariant
            0 <= i <= 4,
            forall|j: int| 0 <= j < 4 ==> #[trigger] input_bytes@[j] == byte_of(input, j),
            forall|j: int| 0 <= j < i ==> #[trigger] out@[j] == sbox_at(byte_of(input, j)),
        decreases 4 - i,
    {
        out[i] = SBOX[input_bytes[i] as usize];
        i = i + 1;
    }
    combine(out.as_slice())
}

/// Byte substitution on a word, by direct shifts and masks.
pub(crate) fn sm4_t_non_lin_sub(x: u32) -> (t: u32)
    ensures
        t == sub_word(x),
{
    let b0: u8 = SBOX[(#[verifier::truncate] ((x >> 24) as u8)) as usize];
    let b1: u8 = SBOX[(#[verifier::truncate] ((x >> 16) as u8)) as usize];
    let b2: u8 = SBOX[(#[verifier::truncate] ((x >> 8) as u8)) as usize];
    let b3: u8 = SBOX[(#[verifier::truncate] (x as u8)) as usize];
    let t = ((b0 as u32) << 24) | ((b1 as u32) << 16) | ((b2 as u32) << 8) | (b3 as u32);
    proof {
        lemma_word_or_order(b0, b1, b2, b3);
    }
    t
}

/// The round diffusion step on an already-substituted word.
pub(crate) fn l_trans(input: u32) -> (r: u32)
    ensures
        r == diffuse_round(input),
{
    let b = input;
    b ^ l_rotate(b, 2) ^ l_rotate(b, 10) ^ l_rotate(b, 18) ^ l_rotate(b, 24)
}

/// The full round transform `T`: substitution then diffusion.
pub(crate) fn t_trans(input: u32) -> (r: u32)
    ensures
        r == round_t(input),
{
    l_trans(tau_trans(input))
}

/// The key-schedule transform `T'`: substitution then the 13/23 rotation mix.
pub(crate) fn sm4_key_sub(input: u32) -> (r: u32)
    ensures
        r == key_t(input),
{
    let t = sm4_t_non_lin_sub(input);
    t ^ rotl(t, 13) ^ rotl(t, 23)
}

} // verus!
