use lib::hw::{HWAesDecoder, HWAesEncoder};
use lib::modes::cbc::{CBCDecrypt, CBCEncrypt};
use lib::modes::ctr::CTREncrypt;
use lib::modes::ecb::{ECBDecrypt, ECBEncrypt};
use lib::modes::traits::{
    BlockCipherDecoderMode, BlockCipherEncoderMode, ModeError, StreamCipherEncoderMode,
};
use lib::padding::pkcs7::PCKCS7Padding;
use lib::padding::traits::PaddingError;
use lib::padding::zeropad::ZeroPadding;

fn hex(s: &str) -> Vec<u8> {
    (0..s.len() / 2).map(|i| u8::from_str_radix(&s[2 * i..2 * i + 2], 16).unwrap()).collect()
}

fn hex16(s: &str) -> [u8; 16] {
    let v = hex(s);
    let mut out = [0u8; 16];
    out.copy_from_slice(&v);
    out
}

const KEY: &str = "2b7e151628aed2a6abf7158809cf4f3c";
const PT: &str = "6bc1bee22e409f96e93d7e117393172aae2d8a571e03ac9c9eb76fac45af8e51";

#[test]
fn ecb_sp800_38a_f11() {
    let mut out = Vec::new();
    let mut enc: ECBEncrypt<HWAesEncoder, PCKCS7Padding<16>> = ECBEncrypt::new(hex16(KEY));
    let n = enc.write_bytes(&hex(PT), &mut out);
    assert_eq!(n, 32);
    assert_eq!(enc.finalise(&mut out), 0);
    assert_eq!(out, hex("3ad77bb40d7a3660a89ecaf32466ef97f5d3d58503b9699de785895a96fdbaaf"));
}

#[test]
fn ecb_roundtrip_with_pkcs7() {
    let msg = b"hello world, this message is not a whole number of blocks".to_vec();
    let mut ct = Vec::new();
    let mut enc: ECBEncrypt<HWAesEncoder, PCKCS7Padding<16>> = ECBEncrypt::new(hex16(KEY));
    enc.write_bytes(&msg, &mut ct);
    assert_eq!(enc.finalise(&mut ct), 16);
    assert_eq!(ct.len(), 64);
    let mut pt = Vec::new();
    let mut dec: ECBDecrypt<HWAesDecoder, PCKCS7Padding<16>> = ECBDecrypt::new(hex16(KEY));
    assert_eq!(dec.write_bytes(&ct, &mut pt), 64);
    assert_eq!(pt.len(), 48);
    let last = dec.finalise(&mut pt).unwrap();
    assert_eq!(last, msg.len() - 48);
    assert_eq!(pt, msg);
}

#[test]
fn ecb_roundtrip_with_zero_padding() {
    let msg = b"ends in a nonzero byte!".to_vec();
    let mut ct = Vec::new();
    let mut enc: ECBEncrypt<HWAesEncoder, ZeroPadding<16>> = ECBEncrypt::new(hex16(KEY));
    enc.write_bytes(&msg, &mut ct);
    enc.finalise(&mut ct);
    let mut pt = Vec::new();
    let mut dec: ECBDecrypt<HWAesDecoder, ZeroPadding<16>> = ECBDecrypt::new(hex16(KEY));
    dec.write_bytes(&ct, &mut pt);
    dec.finalise(&mut pt).unwrap();
    assert_eq!(pt, msg);
}

#[test]
fn ecb_split_writes_equal_one_write() {
    let msg: Vec<u8> = (0..77u8).collect();
    let mut whole = Vec::new();
    let mut enc: ECBEncrypt<HWAesEncoder, PCKCS7Padding<16>> = ECBEncrypt::new(hex16(KEY));
    enc.write_bytes(&msg, &mut whole);
    enc.finalise(&mut whole);
    let mut parts = Vec::new();
    let mut enc2: ECBEncrypt<HWAesEncoder, PCKCS7Padding<16>> = ECBEncrypt::new(hex16(KEY));
    let a = enc2.write_bytes(&msg[..5], &mut parts);
    let b = enc2.write_bytes(&msg[5..30], &mut parts);
    let c = enc2.write_bytes(&msg[30..], &mut parts);
    assert_eq!((a, b, c), (0, 16, 48));
    enc2.finalise(&mut parts);
    assert_eq!(parts, whole);
}

#[test]
fn ecb_decrypt_refuses_a_partial_block() {
    let mut pt = Vec::new();
    let mut dec: ECBDecrypt<HWAesDecoder, PCKCS7Padding<16>> = ECBDecrypt::new(hex16(KEY));
    dec.write_bytes(&[1u8; 20], &mut pt);
    assert!(matches!(dec.finalise(&mut pt), Err(ModeError::PartialBlock(4))));
}

#[test]
fn ecb_decrypt_refuses_bad_padding() {
    // a whole-block message gets no padding block, so its last block is read as padding
    let mut ct = Vec::new();
    let mut enc: ECBEncrypt<HWAesEncoder, PCKCS7Padding<16>> = ECBEncrypt::new(hex16(KEY));
    enc.write_bytes(&[0u8; 16], &mut ct);
    enc.finalise(&mut ct);
    let mut pt = Vec::new();
    let mut dec: ECBDecrypt<HWAesDecoder, PCKCS7Padding<16>> = ECBDecrypt::new(hex16(KEY));
    dec.write_bytes(&ct, &mut pt);
    match dec.finalise(&mut pt) {
        Err(ModeError::Padding(PaddingError::InvalidPadding(m))) => {
            assert_eq!(m, "Zero padding is not allowed")
        },
        _ => panic!("expected a padding error"),
    }
    assert!(pt.is_empty());
}

#[test]
fn ecb_decrypt_of_nothing_is_nothing() {
    let mut pt = Vec::new();
    let dec: ECBDecrypt<HWAesDecoder, PCKCS7Padding<16>> = ECBDecrypt::new(hex16(KEY));
    assert_eq!(dec.finalise(&mut pt).unwrap(), 0);
    assert!(pt.is_empty());
}

#[test]
fn cbc_sp800_38a_f21() {
    let iv = hex16("000102030405060708090a0b0c0d0e0f");
    let mut out = Vec::new();
    let mut enc: CBCEncrypt<HWAesEncoder, PCKCS7Padding<16>> = CBCEncrypt::new(hex16(KEY), iv);
    assert_eq!(enc.write_bytes(&hex(PT), &mut out), 32);
    assert_eq!(enc.finalise(&mut out), 0);
    assert_eq!(out, hex("7649abac8119b246cee98e9b12e9197d5086cb9b507219ee95db113a917678b2"));
    let mut back = Vec::new();
    let mut dec: CBCDecrypt<HWAesDecoder, PCKCS7Padding<16>> = CBCDecrypt::new(hex16(KEY), iv);
    assert_eq!(dec.write_bytes(&out, &mut back), 32);
    assert_eq!(dec.finalise(&mut back).unwrap(), 0);
    assert_eq!(back, hex(PT));
}

#[test]
fn cbc_roundtrip_keeps_the_padding() {
    let iv = hex16("0f0e0d0c0b0a09080706050403020100");
    let msg: Vec<u8> = (0..21u8).collect();
    let mut ct = Vec::new();
    let mut enc: CBCEncrypt<HWAesEncoder, PCKCS7Padding<16>> = CBCEncrypt::new(hex16(KEY), iv);
    enc.write_bytes(&msg[..3], &mut ct);
    enc.write_bytes(&msg[3..], &mut ct);
    assert_eq!(enc.finalise(&mut ct), 16);
    assert_eq!(ct.len(), 32);
    let mut pt = Vec::new();
    let mut dec: CBCDecrypt<HWAesDecoder, PCKCS7Padding<16>> = CBCDecrypt::new(hex16(KEY), iv);
    dec.write_bytes(&ct[..7], &mut pt);
    dec.write_bytes(&ct[7..], &mut pt);
    dec.finalise(&mut pt).unwrap();
    let mut expected = msg.clone();
    expected.extend([11u8; 11]);
    assert_eq!(pt, expected);
}

#[test]
fn cbc_decrypt_refuses_a_partial_block() {
    let mut pt = Vec::new();
    let mut dec: CBCDecrypt<HWAesDecoder, PCKCS7Padding<16>> =
        CBCDecrypt::new(hex16(KEY), [0u8; 16]);
    assert_eq!(dec.write_bytes(&[5u8; 35], &mut pt), 32);
    assert_eq!(pt.len(), 32);
    assert!(matches!(dec.finalise(&mut pt), Err(ModeError::PartialBlock(3))));
}

#[test]
fn ctr_sp800_38a_f51() {
    // the encoder moves to the next counter before the first block
    let iv = hex16("f0f1f2f3f4f5f6f7f8f9fafbfcfdfefe");
    let mut out = Vec::new();
    let mut enc: CTREncrypt<HWAesEncoder> = CTREncrypt::new(hex16(KEY), iv);
    assert_eq!(enc.write_bytes(&hex(PT), &mut out), 32);
    assert_eq!(enc.finalise(&mut out), 0);
    assert_eq!(out, hex("874d6191b620e3261bef6864990db6ce9806f66b7970fdff8617187bb9fffdff"));
}

#[test]
fn ctr_decrypts_by_encrypting_again() {
    let iv = hex16("00000000000000000000000000000000");
    let msg: Vec<u8> = (0..100u8).map(|b| b.wrapping_mul(7)).collect();
    let mut ct = Vec::new();
    let mut enc: CTREncrypt<HWAesEncoder> = CTREncrypt::new(hex16(KEY), iv);
    enc.write_bytes(&msg, &mut ct);
    let mut pt = Vec::new();
    let mut dec: CTREncrypt<HWAesEncoder> = CTREncrypt::new(hex16(KEY), iv);
    dec.write_bytes(&ct[..33], &mut pt);
    dec.write_bytes(&ct[33..], &mut pt);
    assert_eq!(pt, msg);
}

#[test]
fn ctr_counter_wraps_in_the_last_eight_bytes() {
    // counter ff..ff wraps to 0 and the first 8 bytes stay
    let iv = hex16("0102030405060708ffffffffffffffff");
    let mut out = Vec::new();
    let mut enc: CTREncrypt<HWAesEncoder> = CTREncrypt::new(hex16(KEY), iv);
    enc.write_bytes(&[0u8; 16], &mut out);
    let expected = <HWAesEncoder as lib::traits::AESEncoder>::encrypt(
        hex16("01020304050607080000000000000000"),
        hex16(KEY),
    );
    assert_eq!(out, expected.to_vec());
}

#[test]
fn ctr_make_next_block_and_increment_key() {
    let iv = hex16("000000000000000000000000000000fe");
    let mut a: CTREncrypt<HWAesEncoder> = CTREncrypt::new(hex16(KEY), iv);
    a.increment_key();
    a.make_next_block();
    let mut out = Vec::new();
    a.write_bytes(&[0u8; 4], &mut out);
    let expected = <HWAesEncoder as lib::traits::AESEncoder>::encrypt(
        hex16("00000000000000000000000000000101"),
        hex16(KEY),
    );
    assert_eq!(out, expected[..4].to_vec());
}

#[test]
fn ecb_zero_padding_cannot_finalise_an_all_zero_block() {
    let mut ct = Vec::new();
    let mut enc: ECBEncrypt<HWAesEncoder, PCKCS7Padding<16>> = ECBEncrypt::new(hex16(KEY));
    enc.write_bytes(&[0u8; 16], &mut ct);
    let mut pt = Vec::new();
    let mut dec: ECBDecrypt<HWAesDecoder, ZeroPadding<16>> = ECBDecrypt::new(hex16(KEY));
    assert!(dec.can_finalise_now());
    dec.write_bytes(&ct, &mut pt);
    assert!(!dec.can_finalise_now());
    dec.write_bytes(&ct[..5], &mut pt);
    assert!(dec.can_finalise_now());
}

#[test]
fn ecb_pkcs7_and_cbc_can_always_finalise() {
    let mut pt = Vec::new();
    let mut dec: ECBDecrypt<HWAesDecoder, PCKCS7Padding<16>> = ECBDecrypt::new(hex16(KEY));
    dec.write_bytes(&[0u8; 16], &mut pt);
    assert!(dec.can_finalise_now());
    let cbc: CBCDecrypt<HWAesDecoder, PCKCS7Padding<16>> = CBCDecrypt::new(hex16(KEY), [0u8; 16]);
    assert!(cbc.can_finalise_now());
}
