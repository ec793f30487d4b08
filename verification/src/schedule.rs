//! The SM4 key schedule: the fixed system constants and the recurrence that
//! expands a 16-byte master key into the 32 round keys.

use vstd::prelude::*;

use crate::block::words_of_block;
use crate::transform::key_t;

verus! {

/// The four standardized system constants XORed into the master-key words
/// before the expansion recurrence starts.
pub const FK: [u32; 4] = [0xa3b1bac6, 0x56aa3350, 0x677d9197, 0xb27022dc];

/// The 32 standardized round constants, consumed in order, one per derived
/// round key.
pub const CK: [u32; 32] = [
    0x00070E15, 0x1C232A31, 0x383F464D, 0x545B6269, 0x70777E85, 0x8C939AA1, 0xA8AFB6BD, 0xC4CBD2D9,
    0xE0E7EEF5, 0xFC030A11, 0x181F262D, 0x343B4249, 0x50575E65, 0x6C737A81, 0x888F969D, 0xA4ABB2B9,
    0xC0C7CED5, 0xDCE3EAF1, 0xF8FF060D, 0x141B2229, 0x30373E45, 0x4C535A61, 0x686F767D, 0x848B9299,
    0xA0A7AEB5, 0xBCC3CAD1, 0xD8DFE6ED, 0xF4FB0209, 0x10171E25, 0x2C333A41, 0x484F565D, 0x646B7279,
];

/// The rolling words of the key-schedule recurrence. Words 0..3 are the
/// master-key words XORed with `FK`; word `i + 4` is word `i` XORed with the
/// key-schedule transform of the other three rolling words and round
/// constant `i`. Round key `i` is word `i + 4`.
pub open spec fn key_word(key: Seq<u8>, i: int) -> u32
    recommends
        key.len() == 16,
        0 <= i < 36,
    decreases i,
{
    if i < 4 {
        words_of_block(key)[i] ^ FK[i]
    } else {
        key_word(key, i - 4) ^ key_t(
            key_word(key, i - 3) ^ key_word(key, i - 2) ^ key_word(key, i - 1) ^ CK[i - 4],
        )
    }
}

/// The 32 round keys derived from a 16-byte master key, in the order the
/// encrypt direction consumes them.
pub open spec fn round_keys(key: Seq<u8>) -> Seq<u32>
    recommends
        key.len() == 16,
{
    Seq::new(32, |i: int| key_word(key, i + 4))
}

} // verus!
