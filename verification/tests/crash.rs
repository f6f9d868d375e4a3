use mutation_fuzzer::crash::{classify, AttemptEvents, CrashKind, FuzzStats, FPE_SIG, SEG_SIG};
use mutation_fuzzer::strategy::Strategy;

fn crashed(strategy: Strategy, signal: i32) -> AttemptEvents {
    AttemptEvents { strategy, dos: false, crash: Some(classify(signal)) }
}

#[test]
fn signals_stand_for_their_kind_of_crash() {
    assert_eq!(SEG_SIG, 11);
    assert_eq!(FPE_SIG, 8);
    assert_eq!(classify(11), CrashKind::Segfault);
    assert_eq!(classify(8), CrashKind::FloatingPointException);
    assert_eq!(classify(6), CrashKind::Unknown(6));
    assert_eq!(classify(0), CrashKind::Unknown(0));
    assert_eq!(classify(-1), CrashKind::Unknown(-1));
    assert_eq!(classify(i32::MAX), CrashKind::Unknown(i32::MAX));
}

#[test]
fn new_tallies_are_all_zero() {
    let stats = FuzzStats::new();
    assert_eq!(
        stats,
        FuzzStats {
            total_crashes: 0,
            total_doses: 0,
            seg_faults: 0,
            floating_points: 0,
            bitflip_events: 0,
            insertion_events: 0,
            deletion_events: 0,
            magic_events: 0,
        }
    );
    assert_eq!(stats.total_hits(), 0);
}

#[test]
fn signal_eleven_adds_one_segmentation_fault() {
    let mut stats = FuzzStats::new();
    stats.record(crashed(Strategy::BitFlip, 11));
    assert_eq!(stats.seg_faults, 1);
    assert_eq!(stats.floating_points, 0);
    assert_eq!(stats.total_crashes, 1);
    assert_eq!(stats.total_doses, 0);
    assert_eq!(stats.bitflip_events, 1);
    assert_eq!(stats.insertion_events + stats.deletion_events + stats.magic_events, 0);
}

#[test]
fn signal_eight_adds_one_floating_point_exception() {
    let mut stats = FuzzStats::new();
    stats.record(crashed(Strategy::Magic, 8));
    assert_eq!(stats.seg_faults, 0);
    assert_eq!(stats.floating_points, 1);
    assert_eq!(stats.total_crashes, 1);
    assert_eq!(stats.magic_events, 1);
}

#[test]
fn any_other_signal_is_a_crash_of_no_known_kind() {
    for signal in [1, 2, 6, 7, 9, 10, 12, 15, 31, -11, 0] {
        let mut stats = FuzzStats::new();
        stats.record(crashed(Strategy::Deletion, signal));
        assert_eq!(stats.seg_faults, 0);
        assert_eq!(stats.floating_points, 0);
        assert_eq!(stats.total_crashes, 1);
        assert_eq!(stats.deletion_events, 1);
    }
}

#[test]
fn a_denial_of_service_counts_without_a_crash() {
    let mut stats = FuzzStats::new();
    stats.record(AttemptEvents { strategy: Strategy::Insertion, dos: true, crash: None });
    assert_eq!(stats.total_doses, 1);
    assert_eq!(stats.total_crashes, 0);
    assert_eq!(stats.insertion_events, 1);
    assert_eq!(stats.total_hits(), 1);
}

#[test]
fn an_attempt_that_is_both_counts_twice_as_a_hit_and_once_as_an_event() {
    let mut stats = FuzzStats::new();
    stats.record(AttemptEvents {
        strategy: Strategy::BitFlip,
        dos: true,
        crash: Some(CrashKind::Segfault),
    });
    assert_eq!(stats.total_doses, 1);
    assert_eq!(stats.total_crashes, 1);
    assert_eq!(stats.seg_faults, 1);
    assert_eq!(stats.bitflip_events, 1);
    assert_eq!(stats.total_hits(), 2);
}

#[test]
fn a_quiet_attempt_changes_nothing() {
    let mut stats = FuzzStats::new();
    stats.record(crashed(Strategy::Magic, 11));
    let before = stats;
    stats.record(AttemptEvents { strategy: Strategy::Magic, dos: false, crash: None });
    assert_eq!(stats, before);
}

#[test]
fn tallies_add_up_over_many_attempts() {
    let mut stats = FuzzStats::new();
    let strategies = [Strategy::BitFlip, Strategy::Insertion, Strategy::Deletion, Strategy::Magic];
    for i in 0..400u32 {
        let strategy = strategies[(i % 4) as usize];
        let crash = match i % 5 {
            0 => Some(classify(11)),
            1 => Some(classify(8)),
            2 => Some(classify(6)),
            _ => None,
        };
        stats.record(AttemptEvents { strategy, dos: i % 3 == 0, crash });
    }
    assert_eq!(stats.total_crashes, 240);
    assert_eq!(stats.seg_faults, 80);
    assert_eq!(stats.floating_points, 80);
    assert_eq!(stats.total_doses, 134);
    let events =
        stats.bitflip_events + stats.insertion_events + stats.deletion_events + stats.magic_events;
    assert_eq!(events, 240 + 134 - 80);
    assert_eq!(stats.total_hits(), 374);
}

#[test]
fn total_hits_does_not_wrap() {
    let stats = FuzzStats {
        total_crashes: u64::MAX,
        total_doses: u64::MAX,
        seg_faults: 0,
        floating_points: 0,
        bitflip_events: u64::MAX,
        insertion_events: 0,
        deletion_events: 0,
        magic_events: 0,
    };
    assert_eq!(stats.total_hits(), 2 * (u64::MAX as u128));
}
