use lib::padding::pkcs7::PCKCS7Padding;
use lib::padding::traits::{Padding, PaddingError};
use lib::padding::zeropad::ZeroPadding;

fn message(r: Result<usize, PaddingError>) -> &'static str {
    match r {
        Err(PaddingError::InvalidPadding(m)) => m,
        Ok(_) => "",
    }
}

#[test]
fn pkcs7_pads_with_the_number_of_added_bytes() {
    let block = PCKCS7Padding::<16>::pad_block(&[1, 2, 3]);
    let mut expected = [13u8; 16];
    expected[0] = 1;
    expected[1] = 2;
    expected[2] = 3;
    assert_eq!(block, expected);
}

#[test]
fn pkcs7_pads_an_empty_block_fully() {
    assert_eq!(PCKCS7Padding::<16>::pad_block(&[]), [16u8; 16]);
}

#[test]
fn pkcs7_full_block_is_left_as_is() {
    let data = [7u8; 16];
    assert_eq!(PCKCS7Padding::<16>::pad_block(&data), data);
}

#[test]
fn pkcs7_remove_gives_the_message_length() {
    for len in 0..16usize {
        let data: Vec<u8> = (0..len as u8).map(|b| b.wrapping_mul(37)).collect();
        let block = PCKCS7Padding::<16>::pad_block(&data);
        assert_eq!(PCKCS7Padding::<16>::remove_padding(&block).unwrap(), len);
    }
}

#[test]
fn pkcs7_refuses_zero_padding() {
    let block = [0u8; 16];
    assert_eq!(message(PCKCS7Padding::<16>::remove_padding(&block)), "Zero padding is not allowed");
}

#[test]
fn pkcs7_refuses_padding_longer_than_a_block() {
    let mut block = [0u8; 16];
    block[15] = 17;
    assert_eq!(
        message(PCKCS7Padding::<16>::remove_padding(&block)),
        "Padding len greater than block len"
    );
}

#[test]
fn pkcs7_refuses_inconsistent_padding() {
    let mut block = [0u8; 16];
    block[15] = 3;
    block[14] = 3;
    block[13] = 2;
    assert_eq!(
        message(PCKCS7Padding::<16>::remove_padding(&block)),
        "Padding is not of expected length"
    );
}

#[test]
fn pkcs7_accepts_a_block_of_sixteens() {
    assert_eq!(PCKCS7Padding::<16>::remove_padding(&[16u8; 16]).unwrap(), 0);
}

#[test]
fn zero_padding_pads_with_zeros() {
    let block = ZeroPadding::<16>::pad_block(&[9, 8, 7]);
    let mut expected = [0u8; 16];
    expected[0] = 9;
    expected[1] = 8;
    expected[2] = 7;
    assert_eq!(block, expected);
}

#[test]
fn zero_padding_remove_drops_trailing_zeros() {
    let block = ZeroPadding::<16>::pad_block(&[9, 8, 7]);
    assert_eq!(ZeroPadding::<16>::remove_padding(&block).unwrap(), 3);
    let mut inner_zero = [0u8; 16];
    inner_zero[0] = 5;
    inner_zero[2] = 6;
    assert_eq!(ZeroPadding::<16>::remove_padding(&inner_zero).unwrap(), 3);
    assert_eq!(ZeroPadding::<16>::remove_padding(&[1u8; 16]).unwrap(), 16);
}

#[test]
fn zero_padding_loses_trailing_zeros_of_the_message() {
    let block = ZeroPadding::<16>::pad_block(&[4, 0]);
    assert_eq!(ZeroPadding::<16>::remove_padding(&block).unwrap(), 1);
}

#[test]
fn pkcs7_pads_four_byte_blocks() {
    assert_eq!(PCKCS7Padding::<4>::pad_block(&[0xAA, 0xBB]), [0xAA, 0xBB, 0x02, 0x02]);
    assert_eq!(PCKCS7Padding::<4>::pad_block(&[]), [0x04, 0x04, 0x04, 0x04]);
    assert_eq!(PCKCS7Padding::<4>::pad_block(&[1, 2, 3]), [1, 2, 3, 0x01]);
}

#[test]
fn pkcs7_removes_padding_of_four_byte_blocks() {
    assert_eq!(PCKCS7Padding::<4>::remove_padding(&[1, 2, 2, 2]).unwrap(), 2);
    assert_eq!(PCKCS7Padding::<4>::remove_padding(&[4, 4, 4, 4]).unwrap(), 0);
    assert_eq!(
        message(PCKCS7Padding::<4>::remove_padding(&[1, 2, 3, 2])),
        "Padding is not of expected length"
    );
    assert_eq!(
        message(PCKCS7Padding::<4>::remove_padding(&[1, 2, 3, 0])),
        "Zero padding is not allowed"
    );
    assert_eq!(
        message(PCKCS7Padding::<4>::remove_padding(&[9, 9, 9, 5])),
        "Padding len greater than block len"
    );
}

#[test]
fn zero_padding_of_four_byte_blocks() {
    assert_eq!(ZeroPadding::<4>::pad_block(&[7, 0]), [7, 0, 0, 0]);
    assert_eq!(ZeroPadding::<4>::remove_padding(&[5, 0, 6, 0]).unwrap(), 3);
    assert_eq!(ZeroPadding::<4>::remove_padding(&ZeroPadding::<4>::pad_block(&[7, 0])).unwrap(), 1);
}

#[test]
fn pkcs7_pads_one_byte_blocks() {
    assert_eq!(PCKCS7Padding::<1>::pad_block(&[]), [1]);
    assert_eq!(PCKCS7Padding::<1>::remove_padding(&[1]).unwrap(), 0);
}

#[test]
fn can_remove_tells_which_blocks_are_accepted() {
    assert!(PCKCS7Padding::<16>::can_remove(&[0u8; 16]));
    assert!(!PCKCS7Padding::<0>::can_remove(&[]));
    assert!(!ZeroPadding::<4>::can_remove(&[0, 0, 0, 0]));
    assert!(ZeroPadding::<4>::can_remove(&[0, 0, 3, 0]));
}
