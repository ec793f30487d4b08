//! Big-endian packing between bytes and 32-bit words.
//!
//! A 16-byte block is read as 4 words, most significant byte first; the
//! inverse serialization writes each word back the same way. These are the
//! only places where the cipher touches byte order.

use vstd::prelude::*;
use vstd::slice::slice_subrange;

use crate::error::Sm4Error;

verus! {

/// The word whose big-endian bytes are `b0 b1 b2 b3` (`b0` most significant).
pub open spec fn word_of(b0: u8, b1: u8, b2: u8, b3: u8) -> u32 {
    (b3 as u32) | ((b2 as u32) << 8) | ((b1 as u32) << 16) | ((b0 as u32) << 24)
}

/// Byte `i` of a word in big-endian order (`i == 0` is the most significant).
pub open spec fn byte_of(w: u32, i: int) -> u8
    recommends
        0 <= i < 4,
{
    if i == 0 {
        (w >> 24) as u8
    } else if i == 1 {
        (w >> 16) as u8
    } else if i == 2 {
        (w >> 8) as u8
    } else {
        w as u8
    }
}

/// The four big-endian words of a 16-byte block.
pub open spec fn words_of_block(b: Seq<u8>) -> Seq<u32>
    recommends
        b.len() == 16,
{
    Seq::new(4, |i: int| word_of(b[4 * i], b[4 * i + 1], b[4 * i + 2], b[4 * i + 3]))
}

/// The 16-byte big-endian serialization of four words.
pub open spec fn bytes_of_words(ws: Seq<u32>) -> Seq<u8>
    recommends
        ws.len() == 4,
{
    Seq::new(16, |i: int| byte_of(ws[i / 4], i % 4))
}

/// Repacking the four big-endian bytes of a word gives the word back.
pub proof fn lemma_word_of_bytes_of(w: u32)
    ensures
        word_of(byte_of(w, 0), byte_of(w, 1), byte_of(w, 2), byte_of(w, 3)) == w,
{
    assert((w as u8 as u32) | (((w >> 8) as u8 as u32) << 8) | (((w >> 16) as u8 as u32) << 16)
        | (((w >> 24) as u8 as u32) << 24) == w) by (bit_vector);
}

/// Each byte extracted from a packed word is the byte that was packed.
pub proof fn lemma_bytes_of_word_of(b0: u8, b1: u8, b2: u8, b3: u8)
    ensures
        byte_of(word_of(b0, b1, b2, b3), 0) == b0,
        byte_of(word_of(b0, b1, b2, b3), 1) == b1,
        byte_of(word_of(b0, b1, b2, b3), 2) == b2,
        byte_of(word_of(b0, b1, b2, b3), 3) == b3,
{
    assert((((b3 as u32) | ((b2 as u32) << 8) | ((b1 as u32) << 16) | ((b0 as u32) << 24)) >> 24)
        as u8 == b0) by (bit_vector);
    assert((((b3 as u32) | ((b2 as u32) << 8) | ((b1 as u32) << 16) | ((b0 as u32) << 24)) >> 16)
        as u8 == b1) by (bit_vector);
    assert((((b3 as u32) | ((b2 as u32) << 8) | ((b1 as u32) << 16) | ((b0 as u32) << 24)) >> 8)
        as u8 == b2) by (bit_vector);
    assert(((b3 as u32) | ((b2 as u32) << 8) | ((b1 as u32) << 16) | ((b0 as u32) << 24)) as u8
        == b3) by (bit_vector);
}

/// Serializing four words and reading them back yields the same words.
pub proof fn lemma_words_of_bytes_of_words(ws: Seq<u32>)
    requires
        ws.len() == 4,
    ensures
        words_of_block(bytes_of_words(ws)) == ws,
{
    let bs = bytes_of_words(ws);
    assert forall|i: int| 0 <= i < 4 implies words_of_block(bs)[i] == ws[i] by {
        assert(bs[4 * i] == byte_of(ws[i], 0));
        assert(bs[4 * i + 1] == byte_of(ws[i], 1));
        assert(bs[4 * i + 2] == byte_of(ws[i], 2));
        assert(bs[4 * i + 3] == byte_of(ws[i], 3));
        lemma_word_of_bytes_of(ws[i]);
    }
    assert(words_of_block(bs) =~= ws);
}

/// Reading a 16-byte block as words and serializing them yields the block.
pub proof fn lemma_bytes_of_words_of_block(b: Seq<u8>)
    requires
        b.len() == 16,
    ensures
        bytes_of_words(words_of_block(b)) == b,
{
    let ws = words_of_block(b);
    assert forall|i: int| 0 <= i < 16 implies bytes_of_words(ws)[i] == b[i] by {
        let q = i / 4;
        let r = i % 4;
        assert(0 <= q < 4 && 0 <= r < 4 && i == 4 * q + r) by (nonlinear_arith)
            requires
                0 <= i < 16,
                q == i / 4,
                r == i % 4,
        ;
        assert(ws[q] == word_of(b[4 * q], b[4 * q + 1], b[4 * q + 2], b[4 * q + 3]));
        lemma_bytes_of_word_of(b[4 * q], b[4 * q + 1], b[4 * q + 2], b[4 * q + 3]);
    }
    assert(bytes_of_words(ws) =~= b);
}

/// Splits a word into its four bytes, most significant first.
pub(crate) fn split(input: u32) -> (r: [u8; 4])
    ensures
        r@.len() == 4,
        forall|i: int| 0 <= i < 4 ==> #[trigger] r@[i] == byte_of(input, i),
{
    let i4: u8 = #[verifier::truncate] (input as u8);
    let i3: u8 = #[verifier::truncate] ((input >> 8) as u8);
    let i2: u8 = #[verifier::truncate] ((input >> 16) as u8);
    let i1: u8 = #[verifier::truncate] ((input >> 24) as u8);

    [i1, i2, i3, i4]
}

/// Packs the first four bytes of a slice into a word, big-endian.
pub(crate) fn combine(input: &[u8]) -> (r: u32)
    requires
        input@.len() >= 4,
    ensures
        r == word_of(input@[0], input@[1], input@[2], input@[3]),
{
    let out: u32 = input[3] as u32;
    let out: u32 = out | ((input[2] as u32) << 8);
    let out: u32 = out | ((input[1] as u32) << 16);
    out | ((input[0] as u32) << 24)
}

/// Reads a 16-byte block as four big-endian words; any other length is a
/// block-size error.
pub(crate) fn split_block(input: &[u8]) -> (r: Result<[u32; 4], Sm4Error>)
    ensures
        match r {
            Ok(ws) => input@.len() == 16 && ws@ == words_of_block(input@),
            Err(e) => input@.len() != 16 && e == Sm4Error::InvalidBlockSize,
        },
{
    if input.len() != 16 {
        return Err(Sm4Error::InvalidBlockSize);
    }
    let w0 = combine(slice_subrange(input, 0, 4));
    let w1 = combine(slice_subrange(input, 4, 8));
    let w2 = combine(slice_subrange(input, 8, 12));
    let w3 = combine(slice_subrange(input, 12, 16));
    let ws = [w0, w1, w2, w3];
    proof {
        assert(ws@ =~= words_of_block(input@));
    }
    Ok(ws)
}

/// Serializes the first four words of a slice into a 16-byte block.
pub(crate) fn combine_block(input: &[u32]) -> (r: Result<[u8; 16], Sm4Error>)
    requires
        input@.len() >= 4,
    ensures
        match r {
            Ok(bs) => bs@ == bytes_of_words(input@.take(4)),
            Err(_) => false,
        },
{
    let a = split(input[0]);
    let b = split(input[1]);
    let c = split(input[2]);
    let d = split(input[3]);
    let out: [u8; 16] = [
        a[0], a[1], a[2], a[3],
        b[0], b[1], b[2], b[3],
        c[0], c[1], c[2], c[3],
        d[0], d[1], d[2], d[3],
    ];
    proof {
        let ws = input@.take(4);
        assert forall|i: int| 0 <= i < 16 implies out@[i] == bytes_of_words(ws)[i] by {
            let q = i / 4;
            let r = i % 4;
            assert(0 <= q < 4 && 0 <= r < 4 && i == 4 * q + r) by (nonlinear_arith)
                requires
                    0 <= i < 16,
                    q == i / 4,
                    r == i % 4,
            ;
        }
        assert(out@ =~= bytes_of_words(input@.take(4)));
    }
    Ok(out)
}

} // verus!
