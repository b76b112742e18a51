use lib::attacks::padding_oracle::{
    do_padding_oracle_attack, padding_oracle, padding_oracle_attack_helper,
    try_padding_oracle_attack,
};
use std::cell::Cell;

use lib::hw::{HWAesDecoder, HWAesEncoder};
use lib::modes::cbc::CBCEncrypt;
use lib::modes::traits::BlockCipherEncoderMode;
use lib::padding::pkcs7::PCKCS7Padding;
use lib::padding::traits::Padding;
use lib::traits::{AESDecoder, BlockOp};

const KEY: [u8; 16] = [3, 1, 4, 1, 5, 9, 2, 6, 5, 3, 5, 8, 9, 7, 9, 3];
const IV: [u8; 16] = [2, 7, 1, 8, 2, 8, 1, 8, 2, 8, 4, 5, 9, 0, 4, 5];

/// Decrypts the second block of a query with the block cipher, chains it to the first
/// block, and tells whether the padding is valid.
fn honest(guess: &[u8]) -> bool {
    if guess.len() != 32 {
        return false;
    }
    let mut c1 = [0u8; 16];
    let mut c2 = [0u8; 16];
    c1.copy_from_slice(&guess[..16]);
    c2.copy_from_slice(&guess[16..]);
    let p = HWAesDecoder::decrypt(c2, KEY).xor(&c1);
    PCKCS7Padding::<16>::remove_padding(&p).is_ok()
}

fn encrypt(msg: &[u8]) -> Vec<u8> {
    let mut ct = Vec::new();
    let mut enc: CBCEncrypt<HWAesEncoder, PCKCS7Padding<16>> = CBCEncrypt::new(KEY, IV);
    enc.write_bytes(msg, &mut ct);
    enc.finalise(&mut ct);
    ct
}

/// The block that `_mm_set_epi32(e3, e2, e1, e0)` builds: `e0` in the lowest four bytes.
fn block_from_epi32(e3: i32, e2: i32, e1: i32, e0: i32) -> [u8; 16] {
    let mut out = [0u8; 16];
    out[0..4].copy_from_slice(&e0.to_le_bytes());
    out[4..8].copy_from_slice(&e1.to_le_bytes());
    out[8..12].copy_from_slice(&e2.to_le_bytes());
    out[12..16].copy_from_slice(&e3.to_le_bytes());
    out
}

#[test]
fn padding_oracle_accepts_valid_padding_only() {
    // 20 bytes of message: two blocks, the last one padded with twelve 12s
    let msg = b"twenty bytes of text";
    let ct = encrypt(msg);
    assert_eq!(ct.len(), 32);
    let mut decoded = Vec::new();
    assert!(padding_oracle(&ct, &mut decoded, KEY, IV));
    assert_eq!(decoded.len(), 32);
    assert_eq!(&decoded[..20], &msg[..]);
    // turn the last plaintext byte from 12 into 0x55
    let mut tampered = ct.clone();
    tampered[15] ^= 12 ^ 0x55;
    let mut decoded = Vec::new();
    assert!(!padding_oracle(&tampered, &mut decoded, KEY, IV));
    assert_eq!(decoded[31], 0x55);
    // turn it into 1: valid again
    let mut one = ct.clone();
    one[15] ^= 12 ^ 1;
    assert!(padding_oracle(&one, &mut Vec::new(), KEY, IV));
}

#[test]
fn padding_oracle_on_partial_and_empty_input() {
    let ct = encrypt(b"x");
    let mut decoded = Vec::new();
    assert!(!padding_oracle(&ct[..15], &mut decoded, KEY, IV));
    assert!(decoded.is_empty());
    // the decoder finishes an empty input without error
    let mut decoded = Vec::new();
    assert!(padding_oracle(&[], &mut decoded, KEY, IV));
    assert!(decoded.is_empty());
    let mut longer = ct.clone();
    longer.extend_from_slice(&[1, 2, 3]);
    let mut decoded = Vec::new();
    assert!(!padding_oracle(&longer, &mut decoded, KEY, IV));
    assert_eq!(decoded.len(), 16);
}

#[test]
fn padding_oracle_attack_on_two_blocks() {
    let key = block_from_epi32(5222, 15122, -8686, 122225);
    let iv = block_from_epi32(5, -12432, 42314, 111111);
    let to_decrypt: [u8; 32] = [
        0xe4, 0xb8, 0x39, 0xd9, 0x2d, 0x5a, 0x1e, 0x9c, 0x55, 0x5d, 0x81, 0xd7, 0x4a, 0x57, 0x3e,
        0x83, 0xdf, 0x35, 0xe5, 0xc7, 0xeb, 0xa7, 0xce, 0x40, 0x3c, 0x01, 0x17, 0x9a, 0x4c, 0xf7,
        0xf8, 0x46,
    ];
    let mut c1 = [0u8; 16];
    let mut c2 = [0u8; 16];
    c1.copy_from_slice(&to_decrypt[..16]);
    c2.copy_from_slice(&to_decrypt[16..]);
    let oracle = |guess: &[u8]| {
        let mut scratch = Vec::new();
        padding_oracle(guess, &mut scratch, key, iv)
    };
    let (p2, a2) = do_padding_oracle_attack(c1, c2, oracle);
    let (p1, a1) = do_padding_oracle_attack(iv, c1, oracle);
    let mut plaintext = [0u8; 32];
    plaintext[..16].copy_from_slice(&p1);
    plaintext[16..].copy_from_slice(&p2);
    let expected = [
        0x68, 0x69, 0x20, 0x31, 0x32, 0x33, 0x20, 0x78, 0x64, 0x20, 0x31, 0x32, 0x34, 0x35, 0x36,
        0x37, 0x38, 0x39, 0x31, 0x32, 0x33,
    ];
    assert_eq!(&plaintext[..21], &expected[..]);
    assert_eq!(&plaintext[21..], &[11u8; 11][..]);
    assert!(a1 >= 16 && a1 <= 16 * 256 && a2 >= 16 && a2 <= 16 * 256);
}

#[test]
fn attack_recovers_a_block_with_an_honest_oracle() {
    let msg = b"attack at dawn!";
    let ct = encrypt(msg);
    assert_eq!(ct.len(), 16);
    let mut c2 = [0u8; 16];
    c2.copy_from_slice(&ct);
    let (p2, attempts) = do_padding_oracle_attack(IV, c2, honest);
    assert_eq!(&p2[..15], &msg[..]);
    assert_eq!(p2[15], 1);
    assert!(attempts >= 16 && attempts <= 16 * 256);
}

#[test]
fn attack_with_an_always_true_oracle_takes_the_first_candidate() {
    let c1 = [0u8; 16];
    let c2 = [9u8; 16];
    let (p2, attempts) = do_padding_oracle_attack(c1, c2, |_g: &[u8]| true);
    assert_eq!(attempts, 16);
    // the first candidate is c1[i] + 1 = 1; it decrypts to the padding value 16 - i
    for i in 0..16 {
        assert_eq!(p2[i], 1 ^ (16 - i as u8));
    }
}

/// A padding oracle over the identity block cipher with two-byte blocks.
fn identity_oracle_2(g: &[u8]) -> bool {
    let p0 = g[0] ^ g[2];
    let p1 = g[1] ^ g[3];
    p1 == 1 || (p1 == 2 && p0 == 2)
}

#[test]
fn attack_on_two_byte_blocks() {
    assert_eq!(do_padding_oracle_attack([0x01, 0x01], [0x04, 0x05], identity_oracle_2), ([0x05, 0x04], 8));
}

#[test]
fn attack_reports_the_byte_no_candidate_fits() {
    assert_eq!(try_padding_oracle_attack([0u8; 16], [1u8; 16], |_g: &[u8]| false), Err(15));
    assert_eq!(try_padding_oracle_attack([0u8], [0u8], |_g: &[u8]| false), Err(0));
}

#[test]
fn try_attack_succeeds_like_the_attack() {
    let r = try_padding_oracle_attack([0x01, 0x01], [0x04, 0x05], identity_oracle_2);
    assert_eq!(r, Ok(([0x05, 0x04], 8)));
}

#[test]
fn try_attack_counts_every_call() {
    let calls = Cell::new(0u32);
    let r = try_padding_oracle_attack([0u8], [0u8], |_g: &[u8]| {
        calls.set(calls.get() + 1);
        false
    });
    assert_eq!(r, Err(0));
    assert_eq!(calls.get(), 256);
}

/// A padding oracle over the identity block cipher with four-byte blocks.
fn identity_oracle_4(g: &[u8]) -> bool {
    let mut p = [0u8; 4];
    for i in 0..4 {
        p[i] = g[i] ^ g[4 + i];
    }
    PCKCS7Padding::<4>::remove_padding(&p).is_ok()
}

#[test]
fn helper_on_four_byte_blocks() {
    // with the identity block cipher, CBC gives C1 = P1 ^ IV and C2 = P2 ^ C1
    let iv = [1u8, 2, 3, 4];
    let plain = [0x61u8, 0x62, 0x63, 0x64, 0x65, 0x66, 0x02, 0x02];
    let mut ct = [0u8; 8];
    for i in 0..4 {
        ct[i] = plain[i] ^ iv[i];
        ct[4 + i] = plain[4 + i] ^ ct[i];
    }
    let pt = padding_oracle_attack_helper(&ct, &iv, identity_oracle_4);
    assert_eq!(pt, plain.to_vec());
}

#[test]
fn helper_recovers_every_block() {
    let msg = b"three blocks of secret text, nearly three full.";
    let ct = encrypt(msg);
    assert_eq!(ct.len(), 48);
    let pt = padding_oracle_attack_helper(&ct, &IV, honest);
    assert_eq!(&pt[..msg.len()], &msg[..]);
    assert_eq!(pt[msg.len()..].to_vec(), vec![(48 - msg.len()) as u8; 48 - msg.len()]);
}
