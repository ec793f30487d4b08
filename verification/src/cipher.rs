//! The SM4 block engine: the 32-round unbalanced Feistel recurrence, the
//! cipher instance holding the derived round keys, and the single-block and
//! four-block transforms.

use vstd::prelude::*;
use vstd::slice::slice_subrange;

use crate::block::{
    bytes_of_words, combine_block, lemma_bytes_of_words_of_block, lemma_words_of_bytes_of_words,
    split_block, words_of_block,
};
use crate::error::Sm4Error;
use crate::schedule::{key_word, round_keys, CK, FK};
use crate::transform::{round_t, sm4_key_sub, t_trans};

verus! {

/// The rolling words of the Feistel recurrence, with the per-round keys
/// `ks` given in the order they are consumed. Words 0..3 are the block's
/// big-endian words; word `i + 4` is word `i` XORed with the round
/// transform of the other three rolling words and key `i`.
pub open spec fn feistel_word(ks: Seq<u32>, x: Seq<u32>, i: int) -> u32
    recommends
        ks.len() == 32,
        x.len() == 4,
        0 <= i < 36,
    decreases i,
{
    if i < 4 {
        x[i]
    } else {
        feistel_word(ks, x, i - 4) ^ round_t(
            feistel_word(ks, x, i - 3) ^ feistel_word(ks, x, i - 2) ^ feistel_word(ks, x, i - 1)
                ^ ks[i - 4],
        )
    }
}

/// The four output words of the 32-round recurrence: the last four rolling
/// words, emitted in reverse order.
pub open spec fn feistel_output(ks: Seq<u32>, x: Seq<u32>) -> Seq<u32>
    recommends
        ks.len() == 32,
        x.len() == 4,
{
    seq![
        feistel_word(ks, x, 35),
        feistel_word(ks, x, 34),
        feistel_word(ks, x, 33),
        feistel_word(ks, x, 32),
    ]
}

/// Encryption of a 16-byte block under round keys `rk`: the Feistel
/// recurrence consuming the keys in ascending order.
pub open spec fn sm4_encrypt_block(rk: Seq<u32>, b: Seq<u8>) -> Seq<u8>
    recommends
        rk.len() == 32,
        b.len() == 16,
{
    bytes_of_words(feistel_output(rk, words_of_block(b)))
}

/// Decryption of a 16-byte block under round keys `rk`: the identical
/// recurrence consuming the same keys in descending order.
pub open spec fn sm4_decrypt_block(rk: Seq<u32>, b: Seq<u8>) -> Seq<u8>
    recommends
        rk.len() == 32,
        b.len() == 16,
{
    bytes_of_words(feistel_output(rk.reverse(), words_of_block(b)))
}

/// Byte `m` of the encryption of a 64-byte batch: the batch is 4
/// independent 16-byte blocks, each encrypted on its own.
pub open spec fn batch_byte(rk: Seq<u32>, input: Seq<u8>, m: int) -> u8
    recommends
        rk.len() == 32,
        input.len() == 64,
        0 <= m < 64,
{
    sm4_encrypt_block(rk, input.subrange(16 * (m / 16), 16 * (m / 16) + 16))[m % 16]
}

/// XOR of four words is unchanged when the first and third operands swap.
proof fn lemma_xor_swap(a: u32, b: u32, c: u32, k: u32)
    by (bit_vector)
    ensures
        a ^ b ^ c ^ k == c ^ b ^ a ^ k,
{
}

/// XORing the same word twice cancels.
proof fn lemma_xor_cancel(x: u32, t: u32)
    by (bit_vector)
    ensures
        x ^ t ^ t == x,
{
}

/// Running the recurrence backwards: round `j` of the reversed-key
/// recurrence, started from the forward output, lands on forward rolling
/// word `35 - j`. This is the heart of the encrypt/decrypt symmetry: each
/// backward round cancels the matching forward round's XOR.
proof fn lemma_feistel_invert(ks: Seq<u32>, x: Seq<u32>, j: int)
    requires
        ks.len() == 32,
        x.len() == 4,
        0 <= j <= 35,
    ensures
        feistel_word(ks.reverse(), feistel_output(ks, x), j) == feistel_word(ks, x, 35 - j),
    decreases j,
{
    let rev = ks.reverse();
    let y = feistel_output(ks, x);
    assert(forall|m: int| 0 <= m < 32 ==> #[trigger] rev[m] == ks[31 - m]);
    if j < 4 {
        assert(y[0] == feistel_word(ks, x, 35));
        assert(y[1] == feistel_word(ks, x, 34));
        assert(y[2] == feistel_word(ks, x, 33));
        assert(y[3] == feistel_word(ks, x, 32));
    } else {
        lemma_feistel_invert(ks, x, j - 4);
        lemma_feistel_invert(ks, x, j - 3);
        lemma_feistel_invert(ks, x, j - 2);
        lemma_feistel_invert(ks, x, j - 1);
        let a = feistel_word(ks, x, 36 - j);
        let b = feistel_word(ks, x, 37 - j);
        let c = feistel_word(ks, x, 38 - j);
        let k = ks[35 - j];
        assert(rev[j - 4] == k);
        lemma_xor_swap(a, b, c, k);
        let t = round_t(a ^ b ^ c ^ k);
        assert(feistel_word(ks, x, 39 - j) == feistel_word(ks, x, 35 - j) ^ t);
        assert(feistel_word(rev, y, j) == (feistel_word(ks, x, 35 - j) ^ t) ^ t);
        lemma_xor_cancel(feistel_word(ks, x, 35 - j), t);
    }
}

/// Round-trip law at the level of a round-key table: decrypting an
/// encryption under the same 32 round keys restores the block.
#[verifier::rlimit(50)]
pub proof fn lemma_decrypt_of_encrypt(rk: Seq<u32>, b: Seq<u8>)
    requires
        rk.len() == 32,
        b.len() == 16,
    ensures
        sm4_decrypt_block(rk, sm4_encrypt_block(rk, b)) == b,
{
    let bw = words_of_block(b);
    let y = feistel_output(rk, bw);
    lemma_words_of_bytes_of_words(y);
    assert(words_of_block(sm4_encrypt_block(rk, b)) == y);
    lemma_feistel_invert(rk, bw, 35);
    lemma_feistel_invert(rk, bw, 34);
    lemma_feistel_invert(rk, bw, 33);
    lemma_feistel_invert(rk, bw, 32);
    assert(feistel_output(rk.reverse(), y) =~= bw);
    lemma_bytes_of_words_of_block(b);
    assert(sm4_decrypt_block(rk, sm4_encrypt_block(rk, b)) == bytes_of_words(bw));
}

/// Round-trip law over master keys: for every 16-byte key and every
/// 16-byte block, decryption inverts encryption.
pub proof fn lemma_round_trip(key: Seq<u8>, b: Seq<u8>)
    requires
        key.len() == 16,
        b.len() == 16,
    ensures
        sm4_decrypt_block(round_keys(key), sm4_encrypt_block(round_keys(key), b)) == b,
{
    lemma_decrypt_of_encrypt(round_keys(key), b);
}

/// An SM4 cipher instance: the 32 round keys derived once from the master
/// key, read ascending by encrypt and descending by decrypt.
pub struct Sm4Cipher {
    /// The derived round keys, in ascending (encrypt) order.
    pub rk: Vec<u32>,
}

impl Sm4Cipher {
    /// A well-formed instance holds exactly 32 round keys.
    pub open spec fn wf(&self) -> bool {
        self.rk@.len() == 32
    }

    /// Derives the round keys from a 16-byte master key; any other key
    /// length is a key-size error.
    pub fn new(key: &[u8]) -> (r: Result<Sm4Cipher, Sm4Error>)
        ensures
            match r {
                Ok(c) => key@.len() == 16 && c.wf() && c.rk@ == round_keys(key@),
                Err(e) => key@.len() != 16 && e == Sm4Error::InvalidKeySize,
            },
    {
        if key.len() != 16 {
            return Err(Sm4Error::InvalidKeySize);
        }
        let ws = match split_block(key) {
            Ok(ws) => ws,
            Err(_) => {
                return Err(Sm4Error::InvalidKeySize);
            },
        };
        let mut k0: u32 = ws[0] ^ FK[0];
        let mut k1: u32 = ws[1] ^ FK[1];
        let mut k2: u32 = ws[2] ^ FK[2];
        let mut k3: u32 = ws[3] ^ FK[3];
        let mut rk: Vec<u32> = Vec::new();
        let mut i: usize = 0;
        while i < 8
            invariant
                0 <= i <= 8,
                key@.len() == 16,
                rk@.len() == 4 * i,
                forall|j: int| 0 <= j < 4 * i ==> #[trigger] rk@[j] == key_word(key@, j + 4),
                k0 == key_word(key@, 4 * i),
                k1 == key_word(key@, 4 * i + 1),
                k2 == key_word(key@, 4 * i + 2),
                k3 == key_word(key@, 4 * i + 3),
            decreases 8 - i,
        {
            k0 = k0 ^ sm4_key_sub(k1 ^ k2 ^ k3 ^ CK[i * 4]);
            proof {
                assert(k0 == key_word(key@, 4 * i + 4));
            }
            k1 = k1 ^ sm4_key_sub(k2 ^ k3 ^ k0 ^ CK[i * 4 + 1]);
            proof {
                assert(k1 == key_word(key@, 4 * i + 5));
            }
            k2 = k2 ^ sm4_key_sub(k3 ^ k0 ^ k1 ^ CK[i * 4 + 2]);
            proof {
                assert(k2 == key_word(key@, 4 * i + 6));
            }
            k3 = k3 ^ sm4_key_sub(k0 ^ k1 ^ k2 ^ CK[i * 4 + 3]);
            proof {
                assert(k3 == key_word(key@, 4 * i + 7));
            }
            rk.push(k0);
            rk.push(k1);
            rk.push(k2);
            rk.push(k3);
            i = i + 1;
        }
        let cipher = Sm4Cipher { rk };
        proof {
            assert(cipher.rk@ =~= round_keys(key@));
        }
        Ok(cipher)
    }

    /// Encrypts one 16-byte block; any other length is a block-size error.
    pub fn encrypt(&self, block_in: &[u8]) -> (r: Result<[u8; 16], Sm4Error>)
        requires
            self.wf(),
        ensures
            match r {
                Ok(ct) => block_in@.len() == 16 && ct@ == sm4_encrypt_block(self.rk@, block_in@),
                Err(e) => block_in@.len() != 16 && e == Sm4Error::InvalidBlockSize,
            },
    {
        let x = match split_block(block_in) {
            Ok(x) => x,
            Err(e) => {
                return Err(e);
            },
        };
        let ghost bw = words_of_block(block_in@);
        let mut x0: u32 = x[0];
        let mut x1: u32 = x[1];
        let mut x2: u32 = x[2];
        let mut x3: u32 = x[3];
        let mut i: usize = 0;
        while i < 8
            invariant
                0 <= i <= 8,
                self.rk@.len() == 32,
                bw.len() == 4,
                x0 == feistel_word(self.rk@, bw, 4 * i),
                x1 == feistel_word(self.rk@, bw, 4 * i + 1),
                x2 == feistel_word(self.rk@, bw, 4 * i + 2),
                x3 == feistel_word(self.rk@, bw, 4 * i + 3),
            decreases 8 - i,
        {
            x0 = x0 ^ t_trans(x1 ^ x2 ^ x3 ^ self.rk[i * 4]);
            proof {
                assert(x0 == feistel_word(self.rk@, bw, 4 * i + 4));
            }
            x1 = x1 ^ t_trans(x2 ^ x3 ^ x0 ^ self.rk[i * 4 + 1]);
            proof {
                assert(x1 == feistel_word(self.rk@, bw, 4 * i + 5));
            }
            x2 = x2 ^ t_trans(x3 ^ x0 ^ x1 ^ self.rk[i * 4 + 2]);
            proof {
                assert(x2 == feistel_word(self.rk@, bw, 4 * i + 6));
            }
            x3 = x3 ^ t_trans(x0 ^ x1 ^ x2 ^ self.rk[i * 4 + 3]);
            proof {
                assert(x3 == feistel_word(self.rk@, bw, 4 * i + 7));
            }
            i = i + 1;
        }
        let y = [x3, x2, x1, x0];
        proof {
            assert(y@.take(4) =~= feistel_output(self.rk@, bw));
        }
        match combine_block(y.as_slice()) {
            Ok(out) => Ok(out),
            Err(e) => Err(e),
        }
    }

    /// Decrypts one 16-byte block: the same recurrence with the round keys
    /// consumed in descending order. Any other length is a block-size error.
    pub fn decrypt(&self, block_in: &[u8]) -> (r: Result<[u8; 16], Sm4Error>)
        requires
            self.wf(),
        ensures
            match r {
                Ok(pt) => block_in@.len() == 16 && pt@ == sm4_decrypt_block(self.rk@, block_in@),
                Err(e) => block_in@.len() != 16 && e == Sm4Error::InvalidBlockSize,
            },
    {
        let x = match split_block(block_in) {
            Ok(x) => x,
            Err(e) => {
                return Err(e);
            },
        };
        let ghost ks = self.rk@.reverse();
        let ghost bw = words_of_block(block_in@);
        proof {
            assert forall|j: int| 0 <= j < 32 implies #[trigger] ks[j] == self.rk@[31 - j] by {
                reveal_with_fuel(Seq::reverse, 1);
            }
        }
        let mut x0: u32 = x[0];
        let mut x1: u32 = x[1];
        let mut x2: u32 = x[2];
        let mut x3: u32 = x[3];
        let mut i: usize = 0;
        while i < 8
            invariant
                0 <= i <= 8,
                self.rk@.len() == 32,
                ks == self.rk@.reverse(),
                ks.len() == 32,
                forall|j: int| 0 <= j < 32 ==> #[trigger] ks[j] == self.rk@[31 - j],
                bw.len() == 4,
                x0 == feistel_word(ks, bw, 4 * i),
                x1 == feistel_word(ks, bw, 4 * i + 1),
                x2 == feistel_word(ks, bw, 4 * i + 2),
                x3 == feistel_word(ks, bw, 4 * i + 3),
            decreases 8 - i,
        {
            x0 = x0 ^ t_trans(x1 ^ x2 ^ x3 ^ self.rk[31 - i * 4]);
            proof {
                assert(x0 == feistel_word(ks, bw, 4 * i + 4));
            }
            x1 = x1 ^ t_trans(x2 ^ x3 ^ x0 ^ self.rk[31 - (i * 4 + 1)]);
            proof {
                assert(x1 == feistel_word(ks, bw, 4 * i + 5));
            }
            x2 = x2 ^ t_trans(x3 ^ x0 ^ x1 ^ self.rk[31 - (i * 4 + 2)]);
            proof {
                assert(x2 == feistel_word(ks, bw, 4 * i + 6));
            }
            x3 = x3 ^ t_trans(x0 ^ x1 ^ x2 ^ self.rk[31 - (i * 4 + 3)]);
            proof {
                assert(x3 == feistel_word(ks, bw, 4 * i + 7));
            }
            i = i + 1;
        }
        let y = [x3, x2, x1, x0];
        proof {
            assert(y@.take(4) =~= feistel_output(ks, bw));
        }
        match combine_block(y.as_slice()) {
            Ok(out) => Ok(out),
            Err(e) => Err(e),
        }
    }

    /// Encrypts a 64-byte batch of four independent 16-byte blocks; the
    /// result is exactly the concatenation of the four single-block
    /// encryptions. Any other length is a block-size error.
    pub fn encrypt_sm4ni(&self, block_in: &[u8]) -> (r: Result<[u8; 64], Sm4Error>)
        requires
            self.wf(),
        ensures
            match r {
                Ok(out) => block_in@.len() == 64 && forall|i: int|
                    0 <= i < 4 ==> #[trigger] out@.subrange(16 * i, 16 * i + 16)
                        == sm4_encrypt_block(self.rk@, block_in@.subrange(16 * i, 16 * i + 16)),
                Err(e) => block_in@.len() != 64 && e == Sm4Error::InvalidBlockSize,
            },
    {
        if block_in.len() != 64 {
            return Err(Sm4Error::InvalidBlockSize);
        }
        let mut res: [u8; 64] = [0; 64];
        let mut i: usize = 0;
        while i < 4
            invariant
                0 <= i <= 4,
                self.rk@.len() == 32,
                block_in@.len() == 64,
                res@.len() == 64,
                forall|m: int| 0 <= m < 16 * i ==> #[trigger] res@[m]
                    == batch_byte(self.rk@, block_in@, m),
            decreases 4 - i,
        {
            let chunk = slice_subrange(block_in, i * 16, i * 16 + 16);
            let tmp = match self.encrypt(chunk) {
                Ok(t) => t,
                Err(e) => {
                    return Err(e);
                },
            };
            let mut z: usize = 0;
            while z < 16
                invariant
                    0 <= z <= 16,
                    0 <= i < 4,
                    self.rk@.len() == 32,
                    block_in@.len() == 64,
                    res@.len() == 64,
                    tmp@ == sm4_encrypt_block(
                        self.rk@,
                        block_in@.subrange(16 * i, 16 * i + 16),
                    ),
                    forall|m: int| 0 <= m < 16 * i + z ==> #[trigger] res@[m]
                        == batch_byte(self.rk@, block_in@, m),
                decreases 16 - z,
            {
                res[i * 16 + z] = tmp[z];
                proof {
                    let m = 16 * i + z;
                    assert(m / 16 == i && m % 16 == z) by (nonlinear_arith)
                        requires
                            0 <= i < 4,
                            0 <= z < 16,
                            m == 16 * i + z,
                    ;
                    assert(res@[m] == batch_byte(self.rk@, block_in@, m));
                }
                z = z + 1;
            }
            i = i + 1;
        }
        proof {
            assert forall|j: int| 0 <= j < 4 implies #[trigger] res@.subrange(16 * j, 16 * j + 16)
                == sm4_encrypt_block(self.rk@, block_in@.subrange(16 * j, 16 * j + 16)) by {
                let enc = sm4_encrypt_block(self.rk@, block_in@.subrange(16 * j, 16 * j + 16));
                assert forall|z: int| 0 <= z < 16 implies res@.subrange(16 * j, 16 * j + 16)[z]
                    == enc[z] by {
                    let m = 16 * j + z;
                    assert(m / 16 == j && m % 16 == z) by (nonlinear_arith)
                        requires
                            0 <= j < 4,
                            0 <= z < 16,
                            m == 16 * j + z,
                    ;
                    assert(res@[m] == batch_byte(self.rk@, block_in@, m));
                }
                assert(res@.subrange(16 * j, 16 * j + 16) =~= enc);
            }
        }
        Ok(res)
    }
}

} // verus!
