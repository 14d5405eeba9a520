use draw::codec::{bits_to_bytes, bytes_to_bits, point_to_index};

#[test]
fn packs_least_significant_bit_first() {
    let bits = vec![true, false, true, false, true, false];
    assert_eq!(bits_to_bytes(&bits), vec![0b0001_0101]);
}

#[test]
fn packs_nine_bits_into_two_bytes() {
    let mut bits = vec![false; 9];
    bits[7] = true;
    bits[8] = true;
    assert_eq!(bits_to_bytes(&bits), vec![0b1000_0000, 0b0000_0001]);
}

#[test]
fn packs_nothing_into_nothing() {
    assert_eq!(bits_to_bytes(&Vec::new()), Vec::<u8>::new());
    assert_eq!(bytes_to_bits(&Vec::new()), Vec::<bool>::new());
}

#[test]
fn unpacks_every_bit() {
    let bits = bytes_to_bits(&vec![0b1000_0001, 0x02]);
    assert_eq!(bits.len(), 16);
    let expected = vec![
        true, false, false, false, false, false, false, true, false, true, false, false, false,
        false, false, false,
    ];
    assert_eq!(bits, expected);
}

#[test]
fn unpacking_a_packing_of_whole_bytes_round_trips() {
    let bits: Vec<bool> = (0..24).map(|i| i % 3 == 0 || i % 7 == 1).collect();
    assert_eq!(bytes_to_bits(&bits_to_bytes(&bits)), bits);
}

#[test]
fn index_is_row_major() {
    assert_eq!(point_to_index(4, 0, 0), 0);
    assert_eq!(point_to_index(4, 3, 0), 3);
    assert_eq!(point_to_index(4, 1, 2), 9);
}
