use lib::hw::{HWAesDecoder, HWAesEncoder};
use lib::traits::{AESDecoder, AESEncoder, BlockOp};

fn hex16(s: &str) -> [u8; 16] {
    let mut out = [0u8; 16];
    for i in 0..16 {
        out[i] = u8::from_str_radix(&s[2 * i..2 * i + 2], 16).unwrap();
    }
    out
}

#[test]
fn fips197_appendix_c1_encrypt() {
    let key = hex16("000102030405060708090a0b0c0d0e0f");
    let pt = hex16("00112233445566778899aabbccddeeff");
    let ct = HWAesEncoder::encrypt(pt, key);
    assert_eq!(ct, hex16("69c4e0d86a7b0430d8cdb78070b4c55a"));
}

#[test]
fn fips197_appendix_c1_decrypt() {
    let key = hex16("000102030405060708090a0b0c0d0e0f");
    let ct = hex16("69c4e0d86a7b0430d8cdb78070b4c55a");
    assert_eq!(HWAesDecoder::decrypt(ct, key), hex16("00112233445566778899aabbccddeeff"));
}

#[test]
fn fips197_appendix_b_cipher_example() {
    let key = hex16("2b7e151628aed2a6abf7158809cf4f3c");
    let pt = hex16("3243f6a8885a308d313198a2e0370734");
    let ct = HWAesEncoder::encrypt(pt, key);
    assert_eq!(ct, hex16("3925841d02dc09fbdc118597196a0b32"));
    assert_eq!(HWAesDecoder::decrypt(ct, key), pt);
}

#[test]
fn key_expansion_matches_fips197_appendix_a1() {
    let key = hex16("2b7e151628aed2a6abf7158809cf4f3c");
    let keys = HWAesEncoder::gen_keys(key);
    assert_eq!(keys[0], key);
    assert_eq!(keys[1], hex16("a0fafe1788542cb123a339392a6c7605"));
    assert_eq!(keys[10], hex16("d014f9a8c9ee2589e13f0cc8b6630ca6"));
}

#[test]
fn decoder_keys_are_reversed_with_inverse_mix_columns() {
    let key = hex16("2b7e151628aed2a6abf7158809cf4f3c");
    let ekeys = HWAesEncoder::gen_keys(key);
    let dkeys = HWAesDecoder::gen_keys(key);
    assert_eq!(dkeys[0], ekeys[10]);
    assert_eq!(dkeys[10], ekeys[0]);
    // InvMixColumns of a round key differs from the key itself
    assert_ne!(dkeys[1], ekeys[9]);
}

#[test]
fn single_rounds_of_fips197_appendix_b() {
    let key = hex16("2b7e151628aed2a6abf7158809cf4f3c");
    let keys = HWAesEncoder::gen_keys(key);
    let pt = hex16("3243f6a8885a308d313198a2e0370734");
    let s0 = HWAesEncoder::do_first_round(pt, &keys[0]);
    assert_eq!(s0, hex16("193de3bea0f4e22b9ac68d2ae9f84808"));
    let s1 = HWAesEncoder::do_round(s0, &keys[1]);
    assert_eq!(s1, hex16("a49c7ff2689f352b6b5bea43026a5049"));
}

#[test]
fn decrypt_undoes_encrypt_for_many_blocks() {
    let mut key = [0u8; 16];
    let mut pt = [0u8; 16];
    for round in 0..50u8 {
        for i in 0..16 {
            key[i] = key[i].wrapping_mul(31).wrapping_add(round ^ i as u8);
            pt[i] = pt[i].wrapping_mul(17).wrapping_add(round.wrapping_add(3 * i as u8));
        }
        let ct = HWAesEncoder::encrypt(pt, key);
        assert_ne!(ct, pt);
        assert_eq!(HWAesDecoder::decrypt(ct, key), pt);
    }
}

#[test]
fn block_xor_and_display() {
    let a = hex16("00ff00ff00ff00ff00ff00ff00ff00ff");
    let b = hex16("0f0f0f0f0f0f0f0f0f0f0f0f0f0f0f0f");
    let x = a.xor(&b);
    assert_eq!(x, hex16("0ff00ff00ff00ff00ff00ff00ff00ff0"));
    assert_eq!(x.display(), "0ff00ff00ff00ff00ff00ff00ff00ff0");
    assert_eq!(<[u8; 16] as BlockOp<16>>::size(), 16);
    assert_eq!(<[u8; 16] as BlockOp<16>>::from_slice(&a), a);
    assert_eq!(a.to_slice(), a);
}
