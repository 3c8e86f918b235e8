use bellman::gadgets::multipack;
use sha256d_groth16::bits::{byte_bit, bytes_to_bits_le, reverse_bits_per_byte};

#[test]
fn byte_bit_counts_from_the_least_significant_bit() {
    let v: u8 = 0b0110_0001;
    let got: Vec<bool> = (0..8).map(|i| byte_bit(v, i)).collect();
    assert_eq!(got, vec![true, false, false, false, false, true, true, false]);
    assert!(byte_bit(0x80, 7));
    assert!(!byte_bit(0x80, 0));
    assert!(byte_bit(0x01, 0));
}

#[test]
fn bytes_expand_least_significant_bit_first() {
    let bits = bytes_to_bits_le(&[0x01, 0x80, 0xA5]);
    let expected = vec![
        true, false, false, false, false, false, false, false, // 0x01
        false, false, false, false, false, false, false, true, // 0x80
        true, false, true, false, false, true, false, true, // 0xA5
    ];
    assert_eq!(bits, expected);
}

#[test]
fn empty_input_has_no_bits() {
    assert_eq!(bytes_to_bits_le(&[]), Vec::<bool>::new());
    assert_eq!(reverse_bits_per_byte(Vec::<bool>::new()), Vec::<bool>::new());
}

#[test]
fn expansion_agrees_with_the_gadget_library() {
    let bytes: Vec<u8> = (0..=255u8).collect();
    assert_eq!(bytes_to_bits_le(&bytes), multipack::bytes_to_bits_le(&bytes));
}

#[test]
fn mirroring_reverses_every_group_of_eight() {
    let input: Vec<u32> = (0..16).collect();
    let expected: Vec<u32> = vec![7, 6, 5, 4, 3, 2, 1, 0, 15, 14, 13, 12, 11, 10, 9, 8];
    assert_eq!(reverse_bits_per_byte(input), expected);
}

#[test]
fn a_short_last_group_is_mirrored_within_itself() {
    let input: Vec<u32> = (0..11).collect();
    let expected: Vec<u32> = vec![7, 6, 5, 4, 3, 2, 1, 0, 10, 9, 8];
    assert_eq!(reverse_bits_per_byte(input), expected);
    assert_eq!(reverse_bits_per_byte(vec![1u32]), vec![1u32]);
    assert_eq!(reverse_bits_per_byte(vec![1u32, 2]), vec![2u32, 1]);
    assert_eq!(reverse_bits_per_byte(vec![1u32, 2, 3]), vec![3u32, 2, 1]);
}

#[test]
fn mirroring_agrees_with_chunked_reversal() {
    for len in 0..40usize {
        let input: Vec<usize> = (0..len).collect();
        let expected: Vec<usize> = input.chunks(8).flat_map(|c| c.iter().rev()).cloned().collect();
        assert_eq!(reverse_bits_per_byte(input), expected);
    }
}

#[test]
fn mirroring_twice_is_the_identity() {
    for len in [0usize, 1, 7, 8, 9, 16, 255, 256, 640] {
        let input: Vec<usize> = (0..len).collect();
        let twice = reverse_bits_per_byte(reverse_bits_per_byte(input.clone()));
        assert_eq!(twice, input);
    }
}

#[test]
fn mirroring_turns_lsb_first_into_msb_first() {
    let bytes: Vec<u8> = (0..=255u8).rev().collect();
    let mirrored = reverse_bits_per_byte(bytes_to_bits_le(&bytes));
    assert_eq!(mirrored, multipack::bytes_to_bits(&bytes));
    assert_eq!(reverse_bits_per_byte(multipack::bytes_to_bits(&bytes)), bytes_to_bits_le(&bytes));
}
