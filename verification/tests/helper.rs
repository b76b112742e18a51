use lib::modes::helpers::PartialBlockHelper;

#[test]
fn helper_hands_out_whole_blocks_and_keeps_the_rest() {
    let data: Vec<u8> = (0..40u8).collect();
    let mut h = PartialBlockHelper::new([0u8; 16], 0, &data);
    let b1 = h.take().unwrap();
    let b2 = h.take().unwrap();
    assert_eq!(b1.to_vec(), (0..16u8).collect::<Vec<u8>>());
    assert_eq!(b2.to_vec(), (16..32u8).collect::<Vec<u8>>());
    assert!(h.take().is_none());
    let (partial, len) = h.into_partial();
    assert_eq!(len, 8);
    assert_eq!(partial[..8].to_vec(), (32..40u8).collect::<Vec<u8>>());
}

#[test]
fn helper_completes_a_partial_block_first() {
    let mut partial = [0u8; 16];
    partial[0] = 100;
    partial[1] = 101;
    let data: Vec<u8> = (0..20u8).collect();
    let mut h = PartialBlockHelper::new(partial, 2, &data);
    let b = h.take().unwrap();
    let mut expected = vec![100u8, 101];
    expected.extend(0..14u8);
    assert_eq!(b.to_vec(), expected);
    assert!(h.take().is_none());
    let (partial, len) = h.into_partial();
    assert_eq!(len, 6);
    assert_eq!(partial[..6].to_vec(), (14..20u8).collect::<Vec<u8>>());
}

#[test]
fn helper_with_no_data_returns_nothing() {
    let mut h = PartialBlockHelper::new([3u8; 16], 5, &[]);
    assert!(h.take().is_none());
    let (partial, len) = h.into_partial();
    assert_eq!(len, 5);
    assert_eq!(partial, [3u8; 16]);
}

#[test]
fn helper_short_data_goes_into_the_partial_block() {
    let mut h = PartialBlockHelper::new([0u8; 16], 3, &[7, 8]);
    assert!(h.take().is_none());
    let (partial, len) = h.into_partial();
    assert_eq!(len, 5);
    assert_eq!(partial[3], 7);
    assert_eq!(partial[4], 8);
}

#[test]
fn helper_on_four_byte_blocks_keeps_the_rest_of_the_partial_block() {
    let data = [1u8, 2, 3, 4, 5, 6, 7];
    let mut h = PartialBlockHelper::new([9u8, 8, 0, 0], 2, &data);
    assert_eq!(h.take(), Some([9, 8, 1, 2]));
    assert_eq!(h.take(), Some([3, 4, 5, 6]));
    assert_eq!(h.take(), None);
    let (partial, len) = h.into_partial();
    assert_eq!(len, 1);
    assert_eq!(partial, [7, 8, 0, 0]);
}

#[test]
fn helper_hands_out_a_full_partial_block() {
    let mut h = PartialBlockHelper::new([1u8, 2, 3, 4], 4, &[5]);
    assert_eq!(h.take(), Some([1, 2, 3, 4]));
    assert_eq!(h.take(), None);
    let (partial, len) = h.into_partial();
    assert_eq!(len, 1);
    assert_eq!(partial, [5, 2, 3, 4]);
}

#[test]
fn helper_blocks_and_rest_are_the_whole_input() {
    // pending bytes [10, 11] and 9 data bytes make 2 blocks of 4 and 3 bytes left
    let data: Vec<u8> = (20..29u8).collect();
    let mut h = PartialBlockHelper::new([10u8, 11, 0, 0], 2, &data);
    let mut out = Vec::new();
    while let Some(block) = h.take() {
        out.extend_from_slice(&block);
    }
    let (partial, len) = h.into_partial();
    assert_eq!(out.len(), 8);
    assert_eq!(len, 3);
    out.extend_from_slice(&partial[..len]);
    let mut expected = vec![10u8, 11];
    expected.extend(20..29u8);
    assert_eq!(out, expected);
}

#[test]
fn helper_with_a_long_partial_length_and_no_data() {
    let mut h = PartialBlockHelper::new([1u8, 2, 3, 4], 9, &[]);
    assert_eq!(h.take(), None);
    let (partial, len) = h.into_partial();
    assert_eq!(len, 9);
    assert_eq!(partial, [1, 2, 3, 4]);
}
