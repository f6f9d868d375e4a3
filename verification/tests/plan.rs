use mutation_fuzzer::plan::{
    apply_bit_flips, apply_deletions, apply_insertions, apply_magic, apply_mutation, magic_number,
    BitFlip, Insertion, MagicNumber, MagicWrite, Mutation, MAGIC_MAX_WIDTH, MAGIC_TABLE_LEN,
};
use mutation_fuzzer::strategy::Strategy;

#[test]
fn bit_flips_invert_the_named_bits() {
    let mut data = vec![0u8; 6];
    let flips = vec![
        BitFlip { offset: 1, position: 0 },
        BitFlip { offset: 3, position: 7 },
        BitFlip { offset: 4, position: 4 },
    ];
    apply_bit_flips(&mut data, &flips);
    assert_eq!(data, vec![0, 0x80, 0, 0x01, 0x08, 0]);
}

#[test]
fn bit_flips_at_one_offset_add_up() {
    let mut data = vec![0xF0u8, 0x0F];
    let flips = vec![
        BitFlip { offset: 0, position: 0 },
        BitFlip { offset: 0, position: 1 },
        BitFlip { offset: 1, position: 7 },
        BitFlip { offset: 1, position: 7 },
    ];
    apply_bit_flips(&mut data, &flips);
    assert_eq!(data, vec![0x30, 0x0F]);
}

#[test]
fn no_bit_flips_change_nothing() {
    let mut data = vec![1u8, 2, 3];
    apply_bit_flips(&mut data, &vec![]);
    assert_eq!(data, vec![1, 2, 3]);
}

#[test]
fn the_magic_table_has_its_entries_in_order() {
    let expected: [(usize, u8); 11] = [
        (1, 255),
        (1, 255),
        (1, 127),
        (1, 0),
        (2, 255),
        (2, 0),
        (4, 255),
        (4, 0),
        (4, 128),
        (4, 64),
        (4, 127),
    ];
    assert_eq!(MAGIC_TABLE_LEN, expected.len());
    for (choice, (width, value)) in expected.iter().enumerate() {
        assert_eq!(magic_number(choice), Some(MagicNumber { width: *width, value: *value }));
        assert!(*width <= MAGIC_MAX_WIDTH);
    }
    assert_eq!(magic_number(11), None);
    assert_eq!(magic_number(usize::MAX), None);
}

#[test]
fn a_magic_number_overwrites_a_run_of_bytes() {
    let mut data: Vec<u8> = (0..12).collect();
    apply_magic(&mut data, MagicWrite { offset: 3, entry: MagicNumber { width: 4, value: 0x80 } });
    assert_eq!(data, vec![0, 1, 2, 0x80, 0x80, 0x80, 0x80, 7, 8, 9, 10, 11]);
    apply_magic(&mut data, MagicWrite { offset: 0, entry: MagicNumber { width: 1, value: 0xFF } });
    assert_eq!(data, vec![0xFF, 1, 2, 0x80, 0x80, 0x80, 0x80, 7, 8, 9, 10, 11]);
    apply_magic(&mut data, MagicWrite { offset: 10, entry: MagicNumber { width: 2, value: 0 } });
    assert_eq!(data, vec![0xFF, 1, 2, 0x80, 0x80, 0x80, 0x80, 7, 8, 9, 0, 0]);
}

#[test]
fn a_magic_number_of_no_width_writes_nothing() {
    let mut data = vec![5u8, 6];
    apply_magic(&mut data, MagicWrite { offset: 2, entry: MagicNumber { width: 0, value: 9 } });
    assert_eq!(data, vec![5, 6]);
}

#[test]
fn insertions_from_the_highest_offset_down_land_where_the_seed_had_the_offset() {
    let mut data = vec![10u8, 11, 12, 13, 14];
    let insertions = vec![
        Insertion { offset: 4, byte: 0xAA },
        Insertion { offset: 2, byte: 0xBB },
        Insertion { offset: 2, byte: 0xCC },
        Insertion { offset: 0, byte: 0xDD },
    ];
    apply_insertions(&mut data, &insertions);
    assert_eq!(data, vec![0xDD, 10, 11, 0xCC, 0xBB, 12, 13, 0xAA, 14]);
}

#[test]
fn an_insertion_may_stand_at_the_end() {
    let mut data = vec![1u8];
    apply_insertions(
        &mut data,
        &vec![Insertion { offset: 1, byte: 2 }, Insertion { offset: 2, byte: 3 }],
    );
    assert_eq!(data, vec![1, 2, 3]);
}

#[test]
fn deletions_from_the_highest_offset_down_remove_the_named_bytes() {
    let mut data = vec![10u8, 11, 12, 13, 14, 15];
    apply_deletions(&mut data, &vec![4, 2, 0]);
    assert_eq!(data, vec![11, 13, 15]);
}

#[test]
fn deletions_at_one_offset_remove_a_run() {
    let mut data = vec![10u8, 11, 12, 13, 14, 15];
    apply_deletions(&mut data, &vec![1, 1, 1]);
    assert_eq!(data, vec![10, 14, 15]);
}

#[test]
fn a_mutation_applies_as_its_strategy_does() {
    let mut data = vec![0u8; 4];
    let flip = Mutation::BitFlip(vec![BitFlip { offset: 2, position: 6 }]);
    apply_mutation(&mut data, &flip);
    assert_eq!(data, vec![0, 0, 2, 0]);
    assert_eq!(flip.strategy(), Strategy::BitFlip);

    let insert = Mutation::Insertion(vec![Insertion { offset: 1, byte: 9 }]);
    apply_mutation(&mut data, &insert);
    assert_eq!(data, vec![0, 9, 0, 2, 0]);
    assert_eq!(insert.strategy(), Strategy::Insertion);

    let delete = Mutation::Deletion(vec![3, 0]);
    apply_mutation(&mut data, &delete);
    assert_eq!(data, vec![9, 0, 0]);
    assert_eq!(delete.strategy(), Strategy::Deletion);

    let write = Mutation::Magic(MagicWrite { offset: 1, entry: MagicNumber { width: 2, value: 0x7F } });
    apply_mutation(&mut data, &write);
    assert_eq!(data, vec![9, 0x7F, 0x7F]);
    assert_eq!(write.strategy(), Strategy::Magic);
}
