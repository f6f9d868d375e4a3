use mutation_fuzzer::mutate::{
    bitflip, check_seed, deletion, insertion, magic, mutate, mutate_input, MutationError,
    INSERTED_BYTE_LIMIT, MAGIC_RESERVE, MARGIN,
};
use mutation_fuzzer::plan::{
    apply_bit_flips, apply_deletions, apply_insertions, apply_magic, magic_number, MAGIC_TABLE_LEN,
};
use mutation_fuzzer::rate::MutationRate;
use mutation_fuzzer::strategy::Strategy;

fn percent(n: u64) -> MutationRate {
    MutationRate::new(n, 100).unwrap()
}

fn counting_seed(len: usize) -> Vec<u8> {
    (0..len).map(|i| (i % 251) as u8).collect()
}

#[test]
fn bitflip_on_a_thousand_zero_bytes_flips_one_bit_in_each_of_nine_bytes() {
    let mut rng = rand::thread_rng();
    for _ in 0..200 {
        let mut data = vec![0u8; 1000];
        let flips = bitflip(&mut rng, &mut data, percent(1), 4).unwrap();
        assert_eq!(flips.len(), 9);
        assert_eq!(data.len(), 1000);
        let mut changed = 0;
        for (offset, byte) in data.iter().enumerate() {
            if *byte != 0 {
                changed += 1;
                assert!(offset >= 4 && offset < 996);
                assert_eq!(byte.count_ones(), 1);
            }
        }
        assert_eq!(changed, 9);
        for flip in &flips {
            assert!(flip.offset >= 4 && flip.offset < 996);
            assert!(flip.position < 8);
            assert_eq!(data[flip.offset], 0x80 >> flip.position);
        }
    }
}

#[test]
fn bitflip_never_touches_the_margins() {
    let mut rng = rand::thread_rng();
    let seed = counting_seed(40);
    for margin in [0usize, 1, 4, 10, 19] {
        for _ in 0..100 {
            let mut data = seed.clone();
            let rate = MutationRate::new(1, 20).unwrap();
            let flips = bitflip(&mut rng, &mut data, rate, margin).unwrap();
            assert_eq!(flips.len(), (40 - margin) / 20);
            assert_eq!(data.len(), seed.len());
            assert_eq!(&data[..margin], &seed[..margin]);
            assert_eq!(&data[40 - margin..], &seed[40 - margin..]);
        }
    }
}

#[test]
fn bitflip_names_no_byte_twice_even_when_it_takes_them_all() {
    let mut rng = rand::thread_rng();
    let rate = MutationRate::new(10, 11).unwrap();
    for _ in 0..200 {
        let seed = counting_seed(11);
        let mut data = seed.clone();
        let flips = bitflip(&mut rng, &mut data, rate, 1).unwrap();
        assert_eq!(flips.len(), 9);
        let mut offsets: Vec<usize> = flips.iter().map(|f| f.offset).collect();
        offsets.sort_unstable();
        assert_eq!(offsets, (1..10).collect::<Vec<usize>>());
        assert_eq!(data[0], seed[0]);
        assert_eq!(data[10], seed[10]);
        for offset in 1..10 {
            assert_eq!((data[offset] ^ seed[offset]).count_ones(), 1);
        }
    }
}

#[test]
fn bitflip_does_what_its_flips_say() {
    let mut rng = rand::thread_rng();
    let seed = counting_seed(300);
    for _ in 0..50 {
        let mut data = seed.clone();
        let flips = bitflip(&mut rng, &mut data, percent(10), 4).unwrap();
        let mut replay = seed.clone();
        apply_bit_flips(&mut replay, &flips);
        assert_eq!(data, replay);
    }
}

#[test]
fn bitflip_at_a_rate_that_selects_nothing_changes_nothing() {
    let mut rng = rand::thread_rng();
    let seed = counting_seed(50);
    let mut data = seed.clone();
    let flips = bitflip(&mut rng, &mut data, percent(1), 4).unwrap();
    assert!(flips.is_empty());
    assert_eq!(data, seed);
}

#[test]
fn bitflip_refuses_a_seed_without_bytes_between_its_margins() {
    let mut rng = rand::thread_rng();
    for len in 0..=8usize {
        let seed = counting_seed(len);
        let mut data = seed.clone();
        assert_eq!(
            bitflip(&mut rng, &mut data, percent(1), 4),
            Err(MutationError::SeedTooShort)
        );
        assert_eq!(data, seed);
    }
    let mut data = counting_seed(9);
    assert!(bitflip(&mut rng, &mut data, percent(1), 4).is_ok());
    let mut data = counting_seed(3);
    assert_eq!(
        bitflip(&mut rng, &mut data, percent(1), usize::MAX),
        Err(MutationError::SeedTooShort)
    );
}

#[test]
fn bitflip_refuses_a_rate_that_asks_for_more_bytes_than_lie_between_the_margins() {
    let mut rng = rand::thread_rng();
    let seed = counting_seed(10);
    let mut data = seed.clone();
    let rate = MutationRate::new(9, 10).unwrap();
    assert_eq!(rate.mutation_count(10, 4), 5);
    assert_eq!(bitflip(&mut rng, &mut data, rate, 4), Err(MutationError::RateTooDense));
    assert_eq!(data, seed);
    let rate = MutationRate::new(1, 3).unwrap();
    assert_eq!(rate.mutation_count(10, 4), 2);
    assert!(bitflip(&mut rng, &mut data, rate, 4).is_ok());
}

#[test]
fn insertion_makes_the_seed_longer_by_the_rates_share() {
    let mut rng = rand::thread_rng();
    let seed = counting_seed(1000);
    for _ in 0..50 {
        let mut data = seed.clone();
        let insertions = insertion(&mut rng, &mut data, percent(1), 4).unwrap();
        assert_eq!(insertions.len(), 9);
        assert_eq!(data.len(), 1009);
        for pair in insertions.windows(2) {
            assert!(pair[0].offset >= pair[1].offset);
        }
        for made in &insertions {
            assert!(made.offset >= 4 && made.offset < 996);
            assert!((made.byte as usize) < INSERTED_BYTE_LIMIT);
        }
        let mut replay = seed.clone();
        apply_insertions(&mut replay, &insertions);
        assert_eq!(data, replay);
        assert_eq!(&data[..4], &seed[..4]);
        assert_eq!(&data[1005..], &seed[996..]);
    }
}

#[test]
fn insertion_keeps_the_seeds_bytes_in_their_order() {
    let mut rng = rand::thread_rng();
    let seed = counting_seed(200);
    for _ in 0..50 {
        let mut data = seed.clone();
        let insertions = insertion(&mut rng, &mut data, percent(25), 4).unwrap();
        assert_eq!(insertions.len(), 49);
        let mut expected: Vec<u8> = Vec::new();
        for (offset, byte) in seed.iter().enumerate() {
            for made in insertions.iter().rev().filter(|made| made.offset == offset) {
                expected.push(made.byte);
            }
            expected.push(*byte);
        }
        assert_eq!(data, expected);
    }
}

#[test]
fn insertion_draws_offsets_that_vary_and_sorts_them() {
    let mut rng = rand::thread_rng();
    let mut data = counting_seed(10_000);
    let insertions = insertion(&mut rng, &mut data, percent(10), 4).unwrap();
    assert_eq!(insertions.len(), 999);
    let first = insertions[0].offset;
    let last = insertions[insertions.len() - 1].offset;
    assert!(first > last);
    assert!(insertions.iter().any(|made| made.byte != insertions[0].byte));
}

#[test]
fn insertion_refuses_a_seed_without_bytes_between_its_margins() {
    let mut rng = rand::thread_rng();
    let seed = counting_seed(8);
    let mut data = seed.clone();
    assert_eq!(
        insertion(&mut rng, &mut data, percent(50), 4),
        Err(MutationError::SeedTooShort)
    );
    assert_eq!(data, seed);
    let mut data = counting_seed(9);
    let made = insertion(&mut rng, &mut data, percent(50), 4).unwrap();
    assert_eq!(made.len(), 2);
    assert_eq!(made[0].offset, 4);
    assert_eq!(made[1].offset, 4);
    assert_eq!(data.len(), 11);
}

#[test]
fn deletion_makes_the_seed_shorter_by_the_rates_share() {
    let mut rng = rand::thread_rng();
    let seed = counting_seed(1000);
    for _ in 0..50 {
        let mut data = seed.clone();
        let offsets = deletion(&mut rng, &mut data, percent(1), 4).unwrap();
        assert_eq!(offsets.len(), 9);
        assert_eq!(data.len(), 991);
        for pair in offsets.windows(2) {
            assert!(pair[0] >= pair[1]);
        }
        for offset in &offsets {
            assert!(*offset >= 4 && *offset < 991);
        }
        let mut replay = seed.clone();
        apply_deletions(&mut replay, &offsets);
        assert_eq!(data, replay);
        assert_eq!(&data[..4], &seed[..4]);
    }
}

#[test]
fn deletion_at_a_high_rate_still_finds_every_byte() {
    let mut rng = rand::thread_rng();
    let rate = MutationRate::new(99, 100).unwrap();
    for len in 9..60usize {
        let seed = counting_seed(len);
        let mut data = seed.clone();
        let offsets = deletion(&mut rng, &mut data, rate, 4).unwrap();
        let count = rate.mutation_count(len, 4);
        assert_eq!(offsets.len(), count);
        assert_eq!(data.len(), len - count);
        assert!(data.len() > 4);
        assert_eq!(&data[..4], &seed[..4]);
    }
}

#[test]
fn deletion_refuses_a_seed_without_bytes_between_its_margins() {
    let mut rng = rand::thread_rng();
    let seed = counting_seed(6);
    let mut data = seed.clone();
    assert_eq!(
        deletion(&mut rng, &mut data, percent(50), 3),
        Err(MutationError::SeedTooShort)
    );
    assert_eq!(data, seed);
    assert!(deletion(&mut rng, &mut data, percent(50), 2).is_ok());
}

#[test]
fn magic_writes_one_table_entry_in_one_run() {
    let mut rng = rand::thread_rng();
    let seed: Vec<u8> = (0..64).map(|i| 0x21 + i as u8).collect();
    let mut seen_offsets = std::collections::BTreeSet::new();
    for _ in 0..500 {
        let mut data = seed.clone();
        let write = magic(&mut rng, &mut data).unwrap();
        assert!(write.offset < 64 - MAGIC_RESERVE);
        assert!((0..MAGIC_TABLE_LEN).any(|choice| magic_number(choice) == Some(write.entry)));
        assert_eq!(data.len(), seed.len());
        for (offset, byte) in data.iter().enumerate() {
            if offset >= write.offset && offset < write.offset + write.entry.width {
                assert_eq!(*byte, write.entry.value);
            } else {
                assert_eq!(*byte, seed[offset]);
            }
        }
        let mut replay = seed.clone();
        apply_magic(&mut replay, write);
        assert_eq!(data, replay);
        seen_offsets.insert(write.offset);
    }
    assert!(seen_offsets.len() > 1);
}

#[test]
fn magic_refuses_a_seed_without_room() {
    let mut rng = rand::thread_rng();
    for len in 0..=8usize {
        let seed = counting_seed(len);
        let mut data = seed.clone();
        assert_eq!(magic(&mut rng, &mut data), Err(MutationError::SeedTooShort));
        assert_eq!(data, seed);
    }
    let mut data = counting_seed(9);
    let write = magic(&mut rng, &mut data).unwrap();
    assert_eq!(write.offset, 0);
}

#[test]
fn mutate_input_changes_the_length_as_its_strategy_says() {
    let mut rng = rand::thread_rng();
    let seed = counting_seed(1000);
    let rate = percent(1);
    let mut seen = [false; 4];
    for _ in 0..400 {
        let mut data = seed.clone();
        let strategy = mutate_input(&mut rng, &mut data, rate).unwrap();
        match strategy {
            Strategy::BitFlip => {
                seen[0] = true;
                assert_eq!(data.len(), 1000);
                let changed = data.iter().zip(seed.iter()).filter(|(a, b)| a != b).count();
                assert_eq!(changed, 9);
                assert_eq!(&data[..MARGIN], &seed[..MARGIN]);
                assert_eq!(&data[1000 - MARGIN..], &seed[1000 - MARGIN..]);
            }
            Strategy::Insertion => {
                seen[1] = true;
                assert_eq!(data.len(), 1009);
            }
            Strategy::Deletion => {
                seen[2] = true;
                assert_eq!(data.len(), 991);
            }
            Strategy::Magic => {
                seen[3] = true;
                assert_eq!(data.len(), 1000);
                let changed: Vec<usize> =
                    (0..1000).filter(|offset| data[*offset] != seed[*offset]).collect();
                assert!(changed.len() <= 4);
                if let (Some(first), Some(last)) = (changed.first(), changed.last()) {
                    assert!(last - first < 4);
                    assert!(*last < 1000 - MAGIC_RESERVE + 4);
                }
            }
        }
    }
    assert_eq!(seen, [true; 4]);
}

#[test]
fn mutate_input_refuses_before_it_draws_a_strategy() {
    let mut rng = rand::thread_rng();
    for _ in 0..50 {
        let seed = counting_seed(8);
        let mut data = seed.clone();
        assert_eq!(
            mutate_input(&mut rng, &mut data, percent(1)),
            Err(MutationError::SeedTooShort)
        );
        assert_eq!(data, seed);

        let seed = counting_seed(10);
        let mut data = seed.clone();
        let rate = MutationRate::new(9, 10).unwrap();
        assert_eq!(
            mutate_input(&mut rng, &mut data, rate),
            Err(MutationError::RateTooDense)
        );
        assert_eq!(data, seed);
    }
}

#[test]
fn mutate_leaves_the_seed_alone() {
    let mut rng = rand::thread_rng();
    let seed = counting_seed(500);
    let copy = seed.clone();
    let rate = percent(5);
    for _ in 0..100 {
        let mutant = mutate(&mut rng, &seed, rate).unwrap();
        assert_eq!(seed, copy);
        let expected = match mutant.strategy {
            Strategy::BitFlip | Strategy::Magic => 500,
            Strategy::Insertion => 500 + 24,
            Strategy::Deletion => 500 - 24,
        };
        assert_eq!(mutant.bytes.len(), expected);
    }
    assert_eq!(
        mutate(&mut rng, &vec![1, 2, 3], rate),
        Err(MutationError::SeedTooShort)
    );
}

#[test]
fn deletion_keeps_the_seeds_last_byte_last() {
    let mut rng = rand::thread_rng();
    let rate = MutationRate::new(1, 2).unwrap();
    for _ in 0..200 {
        let mut seed = counting_seed(30);
        seed[29] = 0xEE;
        let mut data = seed.clone();
        let offsets = deletion(&mut rng, &mut data, rate, 4).unwrap();
        assert_eq!(offsets.len(), 13);
        assert_eq!(data.len(), 17);
        assert_eq!(data[16], 0xEE);
        // what is left is the seed with some bytes taken out
        let mut next = 0;
        for byte in &data {
            while seed[next] != *byte {
                next += 1;
            }
            next += 1;
        }
    }
}

#[test]
fn insertion_puts_each_byte_at_its_offset_counted_from_the_highest() {
    let mut rng = rand::thread_rng();
    let seed = counting_seed(120);
    for _ in 0..100 {
        let mut data = seed.clone();
        let insertions = insertion(&mut rng, &mut data, percent(20), 4).unwrap();
        let n = insertions.len();
        assert_eq!(n, 23);
        for (k, made) in insertions.iter().enumerate() {
            assert_eq!(data[made.offset + (n - 1 - k)], made.byte);
        }
        for (x, byte) in seed.iter().enumerate() {
            let up_to = insertions.iter().filter(|made| made.offset <= x).count();
            assert_eq!(data[x + up_to], *byte);
        }
    }
}

#[test]
fn check_seed_tells_beforehand_what_the_engine_refuses() {
    assert_eq!(MARGIN, 4);
    assert_eq!(MAGIC_RESERVE, 8);
    for len in 0..=8usize {
        assert_eq!(check_seed(len, percent(1)), Err(MutationError::SeedTooShort));
    }
    assert_eq!(check_seed(9, percent(1)), Ok(()));
    assert_eq!(check_seed(1000, percent(1)), Ok(()));
    assert_eq!(check_seed(1000, percent(99)), Ok(()));
    let dense = MutationRate::new(9, 10).unwrap();
    assert_eq!(check_seed(10, dense), Err(MutationError::RateTooDense));
    assert_eq!(check_seed(9, dense), Err(MutationError::RateTooDense));
    assert_eq!(check_seed(60, dense), Ok(()));
    let mut rng = rand::thread_rng();
    for len in 0..80usize {
        let seed = counting_seed(len);
        for _ in 0..20 {
            let mut data = seed.clone();
            assert_eq!(
                mutate_input(&mut rng, &mut data, dense).is_ok(),
                check_seed(len, dense).is_ok()
            );
        }
    }
}
