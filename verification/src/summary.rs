//! What a run says of itself: the progress line and the closing summary.

use crate::crash::FuzzStats;
use crate::text::{append_decimal, decimal_text};
use vstd::prelude::*;
use vstd::string::*;

verus! {

/// The line that shows progress: the attempt that comes next, the number
/// of attempts in all, and the crashes and denials of service so far. It
/// begins with a carriage return, so that it overwrites the line before it.
pub open spec fn progress_text(stats: FuzzStats, current_attempt: nat, total_attempts: nat) -> Seq<char> {
    "\rAttempt: "@ + decimal_text(current_attempt) + "/"@ + decimal_text(total_attempts)
        + "     Total Hits:"@ + decimal_text((stats.total_crashes + stats.total_doses) as nat)
}

/// Builds the line that shows progress.
pub fn progress_line(stats: &FuzzStats, current_attempt: u64, total_attempts: u64) -> (line: String)
    ensures
        line@ == progress_text(*stats, current_attempt as nat, total_attempts as nat),
{
    let mut line: String = "\rAttempt: ".to_owned();
    append_decimal(&mut line, current_attempt as u128);
    line.append("/");
    append_decimal(&mut line, total_attempts as u128);
    line.append("     Total Hits:");
    append_decimal(&mut line, stats.total_hits());
    line
}

/// The summary at the end of a run: every tally under its heading.
pub open spec fn summary_text(stats: FuzzStats) -> Seq<char> {
    "\n======= Fuzzing finished =======\nTotal crashes               : "@ + decimal_text(
        stats.total_crashes as nat,
    ) + "\nTotal denials of service    : "@ + decimal_text(stats.total_doses as nat)
        + "\nSegmentation faults         : "@ + decimal_text(stats.seg_faults as nat)
        + "\nFloating point exceptions   : "@ + decimal_text(stats.floating_points as nat)
        + "\n\nIssues caused by bitflips   : "@ + decimal_text(stats.bitflip_events as nat)
        + "\nIssues caused by insertions : "@ + decimal_text(stats.insertion_events as nat)
        + "\nIssues caused by deletions  : "@ + decimal_text(stats.deletion_events as nat)
        + "\nIssues caused by magic      : "@ + decimal_text(stats.magic_events as nat)
}

/// Builds the summary at the end of a run.
pub fn final_summary(stats: &FuzzStats) -> (summary: String)
    ensures
        summary@ == summary_text(*stats),
{
    let mut summary: String =
        "\n======= Fuzzing finished =======\nTotal crashes               : ".to_owned();
    append_decimal(&mut summary, stats.total_crashes as u128);
    summary.append("\nTotal denials of service    : ");
    append_decimal(&mut summary, stats.total_doses as u128);
    summary.append("\nSegmentation faults         : ");
    append_decimal(&mut summary, stats.seg_faults as u128);
    summary.append("\nFloating point exceptions   : ");
    append_decimal(&mut summary, stats.floating_points as u128);
    summary.append("\n\nIssues caused by bitflips   : ");
    append_decimal(&mut summary, stats.bitflip_events as u128);
    summary.append("\nIssues caused by insertions : ");
    append_decimal(&mut summary, stats.insertion_events as u128);
    summary.append("\nIssues caused by deletions  : ");
    append_decimal(&mut summary, stats.deletion_events as u128);
    summary.append("\nIssues caused by magic      : ");
    append_decimal(&mut summary, stats.magic_events as u128);
    summary
}

} // verus!
