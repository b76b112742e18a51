//! The AES-128 block cipher as mathematical functions on byte sequences (FIPS-197).
//!
//! A 16-byte state is laid out column by column: byte `i` is row `i % 4` of column `i / 4`.
use vstd::prelude::*;

use crate::gf::{lemma_xor_cancel, lemma_xor_cancel_left, inv_mix0, inv_sbox, lemma_inv_mix_linear, lemma_inv_mix_mix, lemma_inv_sbox_sbox, mix0, sbox};

verus! {

/// Bytewise xor of two byte sequences of the same length.
pub open spec fn xor_bytes(a: Seq<u8>, b: Seq<u8>) -> Seq<u8> {
    Seq::new(a.len(), |i: int| a[i] ^ b[i])
}

/// SubBytes: the S-box applied to every byte.
pub open spec fn sub_bytes(s: Seq<u8>) -> Seq<u8> {
    Seq::new(s.len(), |i: int| sbox(s[i]))
}

/// InvSubBytes: the inverse S-box applied to every byte.
pub open spec fn inv_sub_bytes(s: Seq<u8>) -> Seq<u8> {
    Seq::new(s.len(), |i: int| inv_sbox(s[i]))
}

/// ShiftRows: row `r` is rotated left by `r` columns.
pub open spec fn shift_rows(s: Seq<u8>) -> Seq<u8> {
    Seq::new(16, |i: int| s[(i + 4 * (i % 4)) % 16])
}

/// InvShiftRows: row `r` is rotated right by `r` columns.
pub open spec fn inv_shift_rows(s: Seq<u8>) -> Seq<u8> {
    Seq::new(16, |i: int| s[(i + 12 * (i % 4)) % 16])
}

/// Byte `r` of column `c` of the state, with the row taken modulo 4.
pub open spec fn cell(s: Seq<u8>, c: int, r: int) -> u8 {
    s[4 * c + r % 4]
}

/// MixColumns: every column is multiplied by the MixColumns matrix.
pub open spec fn mix_columns(s: Seq<u8>) -> Seq<u8> {
    Seq::new(
        16,
        |i: int|
            {
                let c = i / 4;
                let r = i % 4;
                mix0(cell(s, c, r), cell(s, c, r + 1), cell(s, c, r + 2), cell(s, c, r + 3))
            },
    )
}

/// InvMixColumns: every column is multiplied by the InvMixColumns matrix.
pub open spec fn inv_mix_columns(s: Seq<u8>) -> Seq<u8> {
    Seq::new(
        16,
        |i: int|
            {
                let c = i / 4;
                let r = i % 4;
                inv_mix0(cell(s, c, r), cell(s, c, r + 1), cell(s, c, r + 2), cell(s, c, r + 3))
            },
    )
}

/// One full encryption round (the AESENC instruction).
pub open spec fn enc_round(state: Seq<u8>, rkey: Seq<u8>) -> Seq<u8> {
    xor_bytes(mix_columns(sub_bytes(shift_rows(state))), rkey)
}

/// The last encryption round, without MixColumns (the AESENCLAST instruction).
pub open spec fn enc_last_round(state: Seq<u8>, rkey: Seq<u8>) -> Seq<u8> {
    xor_bytes(sub_bytes(shift_rows(state)), rkey)
}

/// One full round of the equivalent inverse cipher (the AESDEC instruction).
pub open spec fn dec_round(state: Seq<u8>, rkey: Seq<u8>) -> Seq<u8> {
    xor_bytes(inv_mix_columns(inv_sub_bytes(inv_shift_rows(state))), rkey)
}

/// The last round of the equivalent inverse cipher (the AESDECLAST instruction).
pub open spec fn dec_last_round(state: Seq<u8>, rkey: Seq<u8>) -> Seq<u8> {
    xor_bytes(inv_sub_bytes(inv_shift_rows(state)), rkey)
}

/// The round constant of key-schedule round `round` (1 to 10).
pub open spec fn rcon(round: int) -> u8 {
    if round == 1 {
        0x01
    } else if round == 2 {
        0x02
    } else if round == 3 {
        0x04
    } else if round == 4 {
        0x08
    } else if round == 5 {
        0x10
    } else if round == 6 {
        0x20
    } else if round == 7 {
        0x40
    } else if round == 8 {
        0x80
    } else if round == 9 {
        0x1b
    } else {
        0x36
    }
}

/// RotWord(SubWord(w3)) xor Rcon, where `w3` is the last word of the previous round key.
pub open spec fn key_core(prev: Seq<u8>, rc: u8) -> Seq<u8> {
    seq![sbox(prev[13]) ^ rc, sbox(prev[14]), sbox(prev[15]), sbox(prev[12])]
}

/// The AES-128 key expansion step: word `j` of the next round key is the xor of
/// `key_core` and words `0..=j` of the previous round key.
pub open spec fn next_round_key(prev: Seq<u8>, rc: u8) -> Seq<u8> {
    Seq::new(
        16,
        |i: int|
            {
                let r = i % 4;
                let t = key_core(prev, rc)[r] ^ prev[r];
                let t1 = if i >= 4 {
                    t ^ prev[r + 4]
                } else {
                    t
                };
                let t2 = if i >= 8 {
                    t1 ^ prev[r + 8]
                } else {
                    t1
                };
                if i >= 12 {
                    t2 ^ prev[r + 12]
                } else {
                    t2
                }
            },
    )
}

/// Round key `n` (0 to 10) of the cipher key `key`.
pub open spec fn round_key(key: Seq<u8>, n: nat) -> Seq<u8>
    decreases n,
{
    if n == 0 {
        key
    } else {
        next_round_key(round_key(key, (n - 1) as nat), rcon(n as int))
    }
}

/// The eleven round keys of the cipher.
pub open spec fn enc_round_keys(key: Seq<u8>) -> Seq<Seq<u8>> {
    Seq::new(11, |i: int| round_key(key, i as nat))
}

/// The eleven round keys of the equivalent inverse cipher: the encryption keys in
/// reverse order, the nine inner ones passed through InvMixColumns.
pub open spec fn dec_round_keys(key: Seq<u8>) -> Seq<Seq<u8>> {
    Seq::new(
        11,
        |i: int|
            if i == 0 {
                round_key(key, 10)
            } else if i == 10 {
                key
            } else {
                inv_mix_columns(round_key(key, (10 - i) as nat))
            },
    )
}

/// InvShiftRows and InvSubBytes undo SubBytes and ShiftRows.
pub proof fn lemma_inv_sub_shift(s: Seq<u8>)
    requires
        s.len() == 16,
    ensures
        inv_sub_bytes(inv_shift_rows(sub_bytes(shift_rows(s)))) == s,
{
    assert forall|i: int| 0 <= i < 16 implies #[trigger] inv_sub_bytes(
        inv_shift_rows(sub_bytes(shift_rows(s))),
    )[i] == s[i] by {
        let j = (i + 12 * (i % 4)) % 16;
        assert((j + 4 * (j % 4)) % 16 == i);
        lemma_inv_sbox_sbox(s[i]);
    }
    assert(inv_sub_bytes(inv_shift_rows(sub_bytes(shift_rows(s)))) =~= s);
}

/// InvMixColumns undoes MixColumns.
pub proof fn lemma_inv_mix_columns(s: Seq<u8>)
    requires
        s.len() == 16,
    ensures
        inv_mix_columns(mix_columns(s)) == s,
{
    let m = mix_columns(s);
    assert forall|i: int| 0 <= i < 16 implies #[trigger] inv_mix_columns(m)[i] == s[i] by {
        let c = i / 4;
        let r = i % 4;
        let a0 = cell(s, c, r);
        let a1 = cell(s, c, r + 1);
        let a2 = cell(s, c, r + 2);
        let a3 = cell(s, c, r + 3);
        assert(cell(s, c, r + 4) == a0);
        assert(cell(s, c, r + 5) == a1);
        assert(cell(s, c, r + 6) == a2);
        assert(cell(m, c, r) == mix0(a0, a1, a2, a3));
        assert(cell(m, c, r + 1) == mix0(a1, a2, a3, a0));
        assert(cell(m, c, r + 2) == mix0(a2, a3, a0, a1));
        assert(cell(m, c, r + 3) == mix0(a3, a0, a1, a2));
        lemma_inv_mix_mix(a0, a1, a2, a3);
    }
    assert(inv_mix_columns(m) =~= s);
}

/// InvMixColumns maps a xor of states to the xor of their images.
pub proof fn lemma_inv_mix_columns_xor(a: Seq<u8>, k: Seq<u8>)
    requires
        a.len() == 16,
        k.len() == 16,
    ensures
        inv_mix_columns(xor_bytes(a, k)) == xor_bytes(inv_mix_columns(a), inv_mix_columns(k)),
{
    let x = xor_bytes(a, k);
    assert forall|i: int| 0 <= i < 16 implies #[trigger] inv_mix_columns(x)[i] == xor_bytes(
        inv_mix_columns(a),
        inv_mix_columns(k),
    )[i] by {
        let c = i / 4;
        let r = i % 4;
        assert(cell(x, c, r) == cell(a, c, r) ^ cell(k, c, r));
        assert(cell(x, c, r + 1) == cell(a, c, r + 1) ^ cell(k, c, r + 1));
        assert(cell(x, c, r + 2) == cell(a, c, r + 2) ^ cell(k, c, r + 2));
        assert(cell(x, c, r + 3) == cell(a, c, r + 3) ^ cell(k, c, r + 3));
        lemma_inv_mix_linear(
            cell(a, c, r),
            cell(a, c, r + 1),
            cell(a, c, r + 2),
            cell(a, c, r + 3),
            cell(k, c, r),
            cell(k, c, r + 1),
            cell(k, c, r + 2),
            cell(k, c, r + 3),
        );
    }
    assert(inv_mix_columns(x) =~= xor_bytes(inv_mix_columns(a), inv_mix_columns(k)));
}

/// The state after the initial key addition and `n` full rounds of AES-128 encryption.
pub open spec fn enc_state(plaintext: Seq<u8>, key: Seq<u8>, n: nat) -> Seq<u8>
    decreases n,
{
    if n == 0 {
        xor_bytes(plaintext, key)
    } else {
        enc_round(enc_state(plaintext, key, (n - 1) as nat), round_key(key, n))
    }
}

/// AES-128 encryption of one block.
pub open spec fn aes_encrypt(plaintext: Seq<u8>, key: Seq<u8>) -> Seq<u8> {
    enc_last_round(enc_state(plaintext, key, 9), round_key(key, 10))
}

/// The state of the equivalent inverse cipher after the initial key addition and `n`
/// full rounds.
pub open spec fn dec_state(ciphertext: Seq<u8>, key: Seq<u8>, n: nat) -> Seq<u8>
    decreases n,
{
    if n == 0 {
        xor_bytes(ciphertext, round_key(key, 10))
    } else {
        dec_round(
            dec_state(ciphertext, key, (n - 1) as nat),
            inv_mix_columns(round_key(key, (10 - n) as nat)),
        )
    }
}

/// AES-128 decryption of one block (the equivalent inverse cipher).
pub open spec fn aes_decrypt(ciphertext: Seq<u8>, key: Seq<u8>) -> Seq<u8> {
    dec_last_round(dec_state(ciphertext, key, 9), key)
}

/// Xoring the same bytes twice gives back the original.
pub proof fn lemma_xor_bytes_cancel(a: Seq<u8>, b: Seq<u8>)
    requires
        a.len() == b.len(),
    ensures
        xor_bytes(xor_bytes(a, b), b) == a,
{
    assert forall|i: int| 0 <= i < a.len() implies #[trigger] xor_bytes(xor_bytes(a, b), b)[i]
        == a[i] by {
        lemma_xor_cancel(a[i], b[i]);
    }
    assert(xor_bytes(xor_bytes(a, b), b) =~= a);
}

/// Xoring with the same bytes on the left, or on both sides, cancels.
pub proof fn lemma_xor_bytes_cancel_left(a: Seq<u8>, b: Seq<u8>)
    requires
        a.len() == b.len(),
    ensures
        xor_bytes(a, xor_bytes(a, b)) == b,
        xor_bytes(a, xor_bytes(b, a)) == b,
{
    assert forall|i: int| 0 <= i < a.len() implies #[trigger] xor_bytes(a, xor_bytes(a, b))[i]
        == b[i] && xor_bytes(a, xor_bytes(b, a))[i] == b[i] by {
        lemma_xor_cancel_left(a[i], b[i]);
    }
    assert(xor_bytes(a, xor_bytes(a, b)) =~= b);
    assert(xor_bytes(a, xor_bytes(b, a)) =~= b);
}

pub proof fn lemma_round_key_len(key: Seq<u8>, n: nat)
    requires
        key.len() == 16,
    ensures
        round_key(key, n).len() == 16,
    decreases n,
{
    if n > 0 {
        lemma_round_key_len(key, (n - 1) as nat);
    }
}

pub proof fn lemma_enc_state_len(p: Seq<u8>, key: Seq<u8>, n: nat)
    requires
        p.len() == 16,
    ensures
        enc_state(p, key, n).len() == 16,
    decreases n,
{
    if n > 0 {
        lemma_enc_state_len(p, key, (n - 1) as nat);
    }
}

/// The inner rounds of decryption retrace the inner rounds of encryption:
/// after `j` decryption rounds the state is SubBytes(ShiftRows(.)) of the
/// encryption state after `9 - j` rounds.
proof fn lemma_dec_state_retraces(p: Seq<u8>, key: Seq<u8>, j: nat)
    requires
        p.len() == 16,
        key.len() == 16,
        j <= 9,
    ensures
        dec_state(aes_encrypt(p, key), key, j) == sub_bytes(
            shift_rows(enc_state(p, key, (9 - j) as nat)),
        ),
    decreases j,
{
    lemma_round_key_len(key, 10);
    if j == 0 {
        lemma_xor_bytes_cancel(sub_bytes(shift_rows(enc_state(p, key, 9))), round_key(key, 10));
    } else {
        lemma_dec_state_retraces(p, key, (j - 1) as nat);
        let n = (10 - j) as nat;
        let k = round_key(key, n);
        let s = enc_state(p, key, n);
        let prev = enc_state(p, key, (n - 1) as nat);
        lemma_round_key_len(key, n);
        lemma_enc_state_len(p, key, n);
        lemma_enc_state_len(p, key, (n - 1) as nat);
        lemma_inv_sub_shift(s);
        let m = mix_columns(sub_bytes(shift_rows(prev)));
        assert(s == xor_bytes(m, k));
        lemma_xor_bytes_cancel(m, k);
        lemma_inv_mix_columns_xor(s, k);
        lemma_inv_mix_columns(sub_bytes(shift_rows(prev)));
    }
}

/// AES-128 decryption undoes AES-128 encryption.
pub proof fn lemma_aes_decrypt_encrypt(p: Seq<u8>, key: Seq<u8>)
    requires
        p.len() == 16,
        key.len() == 16,
    ensures
        aes_decrypt(aes_encrypt(p, key), key) == p,
{
    lemma_dec_state_retraces(p, key, 9);
    lemma_enc_state_len(p, key, 0);
    lemma_inv_sub_shift(enc_state(p, key, 0));
    lemma_xor_bytes_cancel(p, key);
}

} // verus!
