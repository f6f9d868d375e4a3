use mutation_fuzzer::strategy::{Strategy, STRATEGY_COUNT};

#[test]
fn strategies_have_their_labels() {
    assert_eq!(Strategy::BitFlip.label(), "bitflip");
    assert_eq!(Strategy::Insertion.label(), "insertion");
    assert_eq!(Strategy::Deletion.label(), "deletion");
    assert_eq!(Strategy::Magic.label(), "magic");
}

#[test]
fn strategies_are_drawn_by_index() {
    assert_eq!(STRATEGY_COUNT, 4);
    assert_eq!(Strategy::from_index(0), Some(Strategy::BitFlip));
    assert_eq!(Strategy::from_index(1), Some(Strategy::Insertion));
    assert_eq!(Strategy::from_index(2), Some(Strategy::Deletion));
    assert_eq!(Strategy::from_index(3), Some(Strategy::Magic));
    assert_eq!(Strategy::from_index(4), None);
}
