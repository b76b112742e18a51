//! AES-128 encoder and decoder: the rounds of the AES instruction set (AESENC,
//! AESENCLAST, AESDEC, AESDECLAST, AESIMC) and the key schedule of AESKEYGENASSIST,
//! computed byte by byte.
use vstd::prelude::*;

use crate::aes_spec::{
    aes_decrypt, aes_encrypt, dec_last_round, dec_round, dec_round_keys, dec_state,
    enc_last_round, enc_round, enc_round_keys, enc_state, inv_mix_columns, inv_shift_rows,
    inv_sub_bytes, lemma_aes_decrypt_encrypt, mix_columns, next_round_key, rcon, round_key,
    shift_rows, sub_bytes, xor_bytes,
};
use crate::gf::{inv_mix_byte, inv_sub_byte, mix_byte, sub_byte};
use crate::traits::{decrypt_spec, encrypt_spec, AESDecoder, AESEncoder, BlockOp};

verus! {

/// ShiftRows on a block.
fn shift_rows_block(s: &[u8; 16]) -> (r: [u8; 16])
    ensures
        r@ == shift_rows(s@),
{
    let r = [
        s[0],
        s[5],
        s[10],
        s[15],
        s[4],
        s[9],
        s[14],
        s[3],
        s[8],
        s[13],
        s[2],
        s[7],
        s[12],
        s[1],
        s[6],
        s[11],
    ];
    assert(r@ =~= shift_rows(s@));
    r
}

/// InvShiftRows on a block.
fn inv_shift_rows_block(s: &[u8; 16]) -> (r: [u8; 16])
    ensures
        r@ == inv_shift_rows(s@),
{
    let r = [
        s[0],
        s[13],
        s[10],
        s[7],
        s[4],
        s[1],
        s[14],
        s[11],
        s[8],
        s[5],
        s[2],
        s[15],
        s[12],
        s[9],
        s[6],
        s[3],
    ];
    assert(r@ =~= inv_shift_rows(s@));
    r
}

/// SubBytes on a block.
fn sub_bytes_block(s: &[u8; 16]) -> (r: [u8; 16])
    ensures
        r@ == sub_bytes(s@),
{
    let mut r = [0u8; 16];
    let mut i: usize = 0;
    while i < 16
        invariant
            i <= 16,
            forall|j: int| 0 <= j < i ==> r@[j] == sub_bytes(s@)[j],
        decreases 16 - i,
    {
        r[i] = sub_byte(s[i]);
        i = i + 1;
    }
    assert(r@ =~= sub_bytes(s@));
    r
}

/// InvSubBytes on a block.
fn inv_sub_bytes_block(s: &[u8; 16]) -> (r: [u8; 16])
    ensures
        r@ == inv_sub_bytes(s@),
{
    let mut r = [0u8; 16];
    let mut i: usize = 0;
    while i < 16
        invariant
            i <= 16,
            forall|j: int| 0 <= j < i ==> r@[j] == inv_sub_bytes(s@)[j],
        decreases 16 - i,
    {
        r[i] = inv_sub_byte(s[i]);
        i = i + 1;
    }
    assert(r@ =~= inv_sub_bytes(s@));
    r
}

/// MixColumns on a block.
fn mix_columns_block(s: &[u8; 16]) -> (r: [u8; 16])
    ensures
        r@ == mix_columns(s@),
{
    let mut r = [0u8; 16];
    let mut c: usize = 0;
    while c < 16
        invariant
            c <= 16,
            c % 4 == 0,
            forall|j: int| 0 <= j < c ==> r@[j] == mix_columns(s@)[j],
        decreases 16 - c,
    {
        let a0 = s[c];
        let a1 = s[c + 1];
        let a2 = s[c + 2];
        let a3 = s[c + 3];
        r[c] = mix_byte(a0, a1, a2, a3);
        r[c + 1] = mix_byte(a1, a2, a3, a0);
        r[c + 2] = mix_byte(a2, a3, a0, a1);
        r[c + 3] = mix_byte(a3, a0, a1, a2);
        c = c + 4;
    }
    assert(r@ =~= mix_columns(s@));
    r
}

/// InvMixColumns on a block (the AESIMC instruction).
fn inv_mix_columns_block(s: &[u8; 16]) -> (r: [u8; 16])
    ensures
        r@ == inv_mix_columns(s@),
{
    let mut r = [0u8; 16];
    let mut c: usize = 0;
    while c < 16
        invariant
            c <= 16,
            c % 4 == 0,
            forall|j: int| 0 <= j < c ==> r@[j] == inv_mix_columns(s@)[j],
        decreases 16 - c,
    {
        let a0 = s[c];
        let a1 = s[c + 1];
        let a2 = s[c + 2];
        let a3 = s[c + 3];
        r[c] = inv_mix_byte(a0, a1, a2, a3);
        r[c + 1] = inv_mix_byte(a1, a2, a3, a0);
        r[c + 2] = inv_mix_byte(a2, a3, a0, a1);
        r[c + 3] = inv_mix_byte(a3, a0, a1, a2);
        c = c + 4;
    }
    assert(r@ =~= inv_mix_columns(s@));
    r
}

/// One step of the AES-128 key schedule: the round key that follows `prev`, with the
/// round constant `rcon`.
fn expand_key_128(prev: [u8; 16], rcon: u8) -> (next: [u8; 16])
    ensures
        next@ == next_round_key(prev@, rcon),
{
    // RotWord(SubWord(last word)) xor Rcon
    let t0 = sub_byte(prev[13]) ^ rcon;
    let t1 = sub_byte(prev[14]);
    let t2 = sub_byte(prev[15]);
    let t3 = sub_byte(prev[12]);
    let mut next = [0u8; 16];
    next[0] = t0 ^ prev[0];
    next[1] = t1 ^ prev[1];
    next[2] = t2 ^ prev[2];
    next[3] = t3 ^ prev[3];
    let mut i: usize = 4;
    while i < 16
        invariant
            4 <= i <= 16,
            forall|j: int| 0 <= j < i ==> next@[j] == next_round_key(prev@, rcon)[j],
        decreases 16 - i,
    {
        next[i] = next[i - 4] ^ prev[i];
        i = i + 1;
    }
    assert(next@ =~= next_round_key(prev@, rcon));
    next
}

/// The eleven round keys of `key`.
fn expand_round_keys(key: [u8; 16]) -> (keys: [[u8; 16]; 11])
    ensures
        forall|i: int| 0 <= i < 11 ==> #[trigger] keys[i]@ == round_key(key@, i as nat),
{
    let mut keys = [[0u8; 16]; 11];
    keys[0] = key;
    keys[1] = expand_key_128(keys[0], 0x01);
    keys[2] = expand_key_128(keys[1], 0x02);
    keys[3] = expand_key_128(keys[2], 0x04);
    keys[4] = expand_key_128(keys[3], 0x08);
    keys[5] = expand_key_128(keys[4], 0x10);
    keys[6] = expand_key_128(keys[5], 0x20);
    keys[7] = expand_key_128(keys[6], 0x40);
    keys[8] = expand_key_128(keys[7], 0x80);
    keys[9] = expand_key_128(keys[8], 0x1b);
    keys[10] = expand_key_128(keys[9], 0x36);
    assert(keys[0]@ == round_key(key@, 0));
    assert(keys[1]@ == round_key(key@, 1));
    assert(keys[2]@ == round_key(key@, 2));
    assert(keys[3]@ == round_key(key@, 3));
    assert(keys[4]@ == round_key(key@, 4));
    assert(keys[5]@ == round_key(key@, 5));
    assert(keys[6]@ == round_key(key@, 6));
    assert(keys[7]@ == round_key(key@, 7));
    assert(keys[8]@ == round_key(key@, 8));
    assert(keys[9]@ == round_key(key@, 9));
    assert(keys[10]@ == round_key(key@, 10));
    keys
}

/// AES-128 encryption with the rounds of the AESENC and AESENCLAST instructions.
pub struct HWAesEncoder {}

impl AESEncoder for HWAesEncoder {
    open spec fn first_round_spec(state: Seq<u8>, rkey: Seq<u8>) -> Seq<u8> {
        xor_bytes(state, rkey)
    }

    open spec fn round_spec(state: Seq<u8>, rkey: Seq<u8>) -> Seq<u8> {
        enc_round(state, rkey)
    }

    open spec fn final_round_spec(state: Seq<u8>, rkey: Seq<u8>) -> Seq<u8> {
        enc_last_round(state, rkey)
    }

    open spec fn round_keys_spec(key: Seq<u8>) -> Seq<Seq<u8>> {
        enc_round_keys(key)
    }

    fn do_round(state: [u8; 16], rkey: &[u8; 16]) -> (r: [u8; 16]) {
        let shifted = shift_rows_block(&state);
        let substituted = sub_bytes_block(&shifted);
        let mixed = mix_columns_block(&substituted);
        mixed.xor(rkey)
    }

    fn do_final_round(state: [u8; 16], rkey: &[u8; 16]) -> (r: [u8; 16]) {
        let shifted = shift_rows_block(&state);
        let substituted = sub_bytes_block(&shifted);
        substituted.xor(rkey)
    }

    fn do_first_round(state: [u8; 16], rkey: &[u8; 16]) -> (r: [u8; 16]) {
        state.xor(rkey)
    }

    fn gen_keys(key: [u8; 16]) -> (keys: [[u8; 16]; 11]) {
        let keys = expand_round_keys(key);
        assert(forall|i: int| 0 <= i < 11 ==> #[trigger] keys[i]@ == enc_round_keys(key@)[i]);
        keys
    }
}

/// AES-128 decryption with the rounds of the AESDEC and AESDECLAST instructions
/// (the equivalent inverse cipher).
pub struct HWAesDecoder {}

impl AESDecoder for HWAesDecoder {
    open spec fn first_round_spec(state: Seq<u8>, rkey: Seq<u8>) -> Seq<u8> {
        xor_bytes(state, rkey)
    }

    open spec fn round_spec(state: Seq<u8>, rkey: Seq<u8>) -> Seq<u8> {
        dec_round(state, rkey)
    }

    open spec fn final_round_spec(state: Seq<u8>, rkey: Seq<u8>) -> Seq<u8> {
        dec_last_round(state, rkey)
    }

    open spec fn round_keys_spec(key: Seq<u8>) -> Seq<Seq<u8>> {
        dec_round_keys(key)
    }

    fn do_round(state: [u8; 16], rkey: &[u8; 16]) -> (r: [u8; 16]) {
        let shifted = inv_shift_rows_block(&state);
        let substituted = inv_sub_bytes_block(&shifted);
        let mixed = inv_mix_columns_block(&substituted);
        mixed.xor(rkey)
    }

    fn do_final_round(state: [u8; 16], rkey: &[u8; 16]) -> (r: [u8; 16]) {
        let shifted = inv_shift_rows_block(&state);
        let substituted = inv_sub_bytes_block(&shifted);
        substituted.xor(rkey)
    }

    fn do_first_round(state: [u8; 16], rkey: &[u8; 16]) -> (r: [u8; 16]) {
        state.xor(rkey)
    }

    fn gen_keys(key: [u8; 16]) -> (dkeys: [[u8; 16]; 11]) {
        let keys = expand_round_keys(key);
        let mut dkeys = [[0u8; 16]; 11];
        dkeys[0] = keys[10];
        let mut i: usize = 1;
        while i < 10
            invariant
                1 <= i <= 10,
                forall|j: int| 0 <= j < 11 ==> #[trigger] keys[j]@ == round_key(key@, j as nat),
                dkeys[0]@ == dec_round_keys(key@)[0],
                forall|j: int| 1 <= j < i ==> #[trigger] dkeys[j]@ == dec_round_keys(key@)[j],
            decreases 10 - i,
        {
            // InvMixColumns turns the encryption round keys into those of the
            // equivalent inverse cipher
            dkeys[i] = inv_mix_columns_block(&keys[10 - i]);
            i = i + 1;
        }
        dkeys[10] = keys[0];
        dkeys
    }
}

/// Encryption with `HWAesEncoder` is AES-128 encryption.
pub proof fn lemma_hw_encrypt_is_aes(p: Seq<u8>, key: Seq<u8>)
    ensures
        encrypt_spec::<HWAesEncoder>(p, key) == aes_encrypt(p, key),
{
    reveal(encrypt_spec);
    let ks = enc_round_keys(key);
    assert(ks[0] == key);
    assert(xor_bytes(p, ks[0]) == enc_state(p, key, 0));
    assert(enc_round(enc_state(p, key, 0), ks[1]) == enc_state(p, key, 1));
    assert(enc_round(enc_state(p, key, 1), ks[2]) == enc_state(p, key, 2));
    assert(enc_round(enc_state(p, key, 2), ks[3]) == enc_state(p, key, 3));
    assert(enc_round(enc_state(p, key, 3), ks[4]) == enc_state(p, key, 4));
    assert(enc_round(enc_state(p, key, 4), ks[5]) == enc_state(p, key, 5));
    assert(enc_round(enc_state(p, key, 5), ks[6]) == enc_state(p, key, 6));
    assert(enc_round(enc_state(p, key, 6), ks[7]) == enc_state(p, key, 7));
    assert(enc_round(enc_state(p, key, 7), ks[8]) == enc_state(p, key, 8));
    assert(enc_round(enc_state(p, key, 8), ks[9]) == enc_state(p, key, 9));
}

/// Decryption with `HWAesDecoder` is AES-128 decryption.
pub proof fn lemma_hw_decrypt_is_aes(c: Seq<u8>, key: Seq<u8>)
    ensures
        decrypt_spec::<HWAesDecoder>(c, key) == aes_decrypt(c, key),
{
    reveal(decrypt_spec);
    let ks = dec_round_keys(key);
    assert(xor_bytes(c, ks[0]) == dec_state(c, key, 0));
    assert(dec_round(dec_state(c, key, 0), ks[1]) == dec_state(c, key, 1));
    assert(dec_round(dec_state(c, key, 1), ks[2]) == dec_state(c, key, 2));
    assert(dec_round(dec_state(c, key, 2), ks[3]) == dec_state(c, key, 3));
    assert(dec_round(dec_state(c, key, 3), ks[4]) == dec_state(c, key, 4));
    assert(dec_round(dec_state(c, key, 4), ks[5]) == dec_state(c, key, 5));
    assert(dec_round(dec_state(c, key, 5), ks[6]) == dec_state(c, key, 6));
    assert(dec_round(dec_state(c, key, 6), ks[7]) == dec_state(c, key, 7));
    assert(dec_round(dec_state(c, key, 7), ks[8]) == dec_state(c, key, 8));
    assert(dec_round(dec_state(c, key, 8), ks[9]) == dec_state(c, key, 9));
}

/// Decrypting with `HWAesDecoder` a block that `HWAesEncoder` encrypted under the same
/// key gives back the plaintext.
pub proof fn lemma_decrypt_encrypt(p: Seq<u8>, key: Seq<u8>)
    requires
        p.len() == 16,
        key.len() == 16,
    ensures
        decrypt_spec::<HWAesDecoder>(encrypt_spec::<HWAesEncoder>(p, key), key) == p,
{
    lemma_hw_encrypt_is_aes(p, key);
    lemma_hw_decrypt_is_aes(aes_encrypt(p, key), key);
    lemma_aes_decrypt_encrypt(p, key);
}

/// `HWAesEncoder` encrypts every input to a block of 16 bytes.
pub proof fn lemma_hw_encrypt_len(p: Seq<u8>, key: Seq<u8>)
    ensures
        encrypt_spec::<HWAesEncoder>(p, key).len() == 16,
{
    reveal(encrypt_spec);
}

/// `HWAesDecoder` decrypts every input to a block of 16 bytes.
pub proof fn lemma_hw_decrypt_len(c: Seq<u8>, key: Seq<u8>)
    ensures
        decrypt_spec::<HWAesDecoder>(c, key).len() == 16,
{
    reveal(decrypt_spec);
}

} // verus!
