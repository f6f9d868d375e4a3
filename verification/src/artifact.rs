//! The names under which inputs are kept that made the target misbehave.

use crate::strategy::Strategy;
use crate::text::{append_decimal, decimal_text, lemma_numbered_texts_differ};
use crate::triage::INPUT_SUFFIX;
use vstd::prelude::*;
use vstd::string::*;

verus! {

/// The name of a crashing input: the strategy that made it, and the number
/// of the attempt.
pub open spec fn crash_path_text(strategy: Strategy, attempt: nat) -> Seq<char> {
    "crashes/crash."@ + strategy.label_text() + "."@ + decimal_text(attempt) + INPUT_SUFFIX@
}

/// Where the input of a crashed attempt is kept.
pub fn crash_path(strategy: Strategy, attempt: u64) -> (path: String)
    ensures
        path@ == crash_path_text(strategy, attempt as nat),
{
    let mut path: String = "crashes/crash.".to_owned();
    path.append(strategy.label());
    path.append(".");
    append_decimal(&mut path, attempt as u128);
    path.append(INPUT_SUFFIX);
    path
}

/// Law: the crashing inputs of two attempts are kept under two names,
/// so that none takes the place of another.
pub proof fn lemma_crash_paths_differ(first: Strategy, first_attempt: nat, second: Strategy, second_attempt: nat)
    requires
        first_attempt != second_attempt,
    ensures
        crash_path_text(first, first_attempt) != crash_path_text(second, second_attempt),
{
    reveal_strlit(".");
    lemma_numbered_texts_differ(
        "crashes/crash."@ + first.label_text() + "."@,
        first_attempt,
        "crashes/crash."@ + second.label_text() + "."@,
        second_attempt,
        INPUT_SUFFIX@,
    );
}

/// The name of an input on which the target ran too long: how long, in
/// microseconds, the strategy that made it, and the number of the attempt.
pub open spec fn dos_path_text(strategy: Strategy, attempt: nat, duration_micros: nat) -> Seq<char> {
    "dos/dos."@ + decimal_text(duration_micros) + ".micros."@ + strategy.label_text() + "."@
        + decimal_text(attempt) + INPUT_SUFFIX@
}

/// Where the input of an attempt that was a denial of service is kept.
pub fn dos_path(strategy: Strategy, attempt: u64, duration_micros: u64) -> (path: String)
    ensures
        path@ == dos_path_text(strategy, attempt as nat, duration_micros as nat),
{
    let mut path: String = "dos/dos.".to_owned();
    append_decimal(&mut path, duration_micros as u128);
    path.append(".micros.");
    path.append(strategy.label());
    path.append(".");
    append_decimal(&mut path, attempt as u128);
    path.append(INPUT_SUFFIX);
    path
}

/// Law: the slow inputs of two attempts are kept under two names.
pub proof fn lemma_dos_paths_differ(
    first: Strategy,
    first_attempt: nat,
    first_micros: nat,
    second: Strategy,
    second_attempt: nat,
    second_micros: nat,
)
    requires
        first_attempt != second_attempt,
    ensures
        dos_path_text(first, first_attempt, first_micros) != dos_path_text(
            second,
            second_attempt,
            second_micros,
        ),
{
    reveal_strlit(".");
    lemma_numbered_texts_differ(
        "dos/dos."@ + decimal_text(first_micros) + ".micros."@ + first.label_text() + "."@,
        first_attempt,
        "dos/dos."@ + decimal_text(second_micros) + ".micros."@ + second.label_text() + "."@,
        second_attempt,
        INPUT_SUFFIX@,
    );
}

} // verus!
