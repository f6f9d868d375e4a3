use mutation_fuzzer::crash::FuzzStats;
use mutation_fuzzer::summary::{final_summary, progress_line};

fn sample() -> FuzzStats {
    FuzzStats {
        total_crashes: 12,
        total_doses: 3,
        seg_faults: 7,
        floating_points: 4,
        bitflip_events: 5,
        insertion_events: 0,
        deletion_events: 6,
        magic_events: 2,
    }
}

#[test]
fn the_progress_line_shows_attempt_budget_and_hits() {
    assert_eq!(progress_line(&sample(), 120, 10_000), "\rAttempt: 120/10000     Total Hits:15");
    assert_eq!(progress_line(&FuzzStats::new(), 10, 11), "\rAttempt: 10/11     Total Hits:0");
}

#[test]
fn the_summary_lists_every_tally() {
    let expected = "
======= Fuzzing finished =======
Total crashes               : 12
Total denials of service    : 3
Segmentation faults         : 7
Floating point exceptions   : 4

Issues caused by bitflips   : 5
Issues caused by insertions : 0
Issues caused by deletions  : 6
Issues caused by magic      : 2";
    assert_eq!(final_summary(&sample()), expected);
}

#[test]
fn the_summary_of_a_run_without_events_shows_zeros() {
    let summary = final_summary(&FuzzStats::new());
    assert_eq!(summary.matches(": 0").count(), 8);
    assert_eq!(summary.lines().count(), 11);
}
