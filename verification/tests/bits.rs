use mutation_fuzzer::utils::{flip_bit, to_bits, to_u8};

#[test]
fn to_bits_lists_most_significant_bit_first() {
    assert_eq!(to_bits(0b1010_0001), vec![1, 0, 1, 0, 0, 0, 0, 1]);
    assert_eq!(to_bits(0), vec![0; 8]);
    assert_eq!(to_bits(255), vec![1; 8]);
}

#[test]
fn to_u8_reads_a_bit_list() {
    assert_eq!(to_u8(&[1, 0, 1, 0, 0, 0, 0, 1]), 0b1010_0001);
    assert_eq!(to_u8(&[]), 0);
    assert_eq!(to_u8(&[1]), 0x80);
    assert_eq!(to_u8(&[0, 0, 0, 0, 0, 0, 0, 1]), 1);
}

#[test]
fn to_u8_counts_only_ones_as_set() {
    assert_eq!(to_u8(&[2, 1, 7, 0, 0, 0, 0, 0]), 0x40);
    assert_eq!(to_u8(&[1, 1, 1, 1, 1, 1, 1, 1, 0, 5]), 0xFF);
}

#[test]
fn bits_round_trip_for_every_byte() {
    for n in 0..=255u8 {
        assert_eq!(to_u8(&to_bits(n)), n);
    }
}

#[test]
fn flip_bit_inverts_the_named_bit() {
    assert_eq!(flip_bit(0, 0), 0x80);
    assert_eq!(flip_bit(0, 7), 0x01);
    assert_eq!(flip_bit(0xFF, 3), 0xEF);
    for n in 0..=255u8 {
        for p in 0..8usize {
            let f = flip_bit(n, p);
            assert_eq!((f ^ n).count_ones(), 1);
            assert_eq!(f ^ n, 0x80 >> p);
            assert_eq!(flip_bit(f, p), n);
        }
    }
}
