//! The mutation engine: it draws a mutation at random and applies it.
//!
//! Nothing here depends on which values the random source hands out: each
//! contract states what holds of the buffer whatever was drawn.

use crate::order::{descending, lemma_bounds_carry_over, sort_descending};
use crate::plan::{
    apply_bit_flips, apply_deletions, apply_insertions, apply_magic, deleted, flipped,
    changed_offsets, flipped_once_each, flips_distinct, flips_fit, flips_within_margin, inserted,
    lemma_applied_len, lemma_changed_count, lemma_deleted_ends, lemma_flipped_distinct,
    lemma_flipped_elsewhere, lemma_inserted_ends, lemma_magic_table_shape, magic_number,
    magic_table, names, offsets_descend, overwritten, BitFlip, Insertion, MagicWrite, Mutation,
    MAGIC_TABLE_LEN,
};
use crate::random::random_in;
use crate::rate::MutationRate;
use crate::strategy::{Strategy, STRATEGY_COUNT};
use rand::rngs::ThreadRng;
use vstd::prelude::*;

verus! {

/// The number of bytes at either end of a seed that mutations leave alone,
/// unless a caller asks for another margin.
pub const MARGIN: usize = 4;

/// Why a seed cannot be mutated at a given rate.
#[derive(Clone, Copy, Debug, PartialEq, Eq, Structural)]
pub enum MutationError {
    /// Between its two margins the seed holds no byte.
    SeedTooShort,
    /// The rate asks for more offsets than the seed holds between its margins.
    RateTooDense,
}

/// The offsets from `margin` up to, and without, `len - margin`.
pub open spec fn in_safe_range(offset: int, len: nat, margin: nat) -> bool {
    margin <= offset < len - margin
}

/// What bit-flip mutation draws for a seed of `len` bytes: as many flips as
/// the rate asks for, no byte twice, none inside a margin.
pub open spec fn bitflip_plan(flips: Seq<BitFlip>, len: nat, margin: nat, count: nat) -> bool {
    &&& flips.len() == count
    &&& flips_fit(flips, len)
    &&& flips_within_margin(flips, len, margin)
    &&& flips_distinct(flips)
}

/// Why bit-flip mutation refuses a seed, if it does.
pub open spec fn bitflip_refusal(len: nat, margin: nat, count: nat) -> Option<MutationError> {
    if len <= 2 * margin {
        Some(MutationError::SeedTooShort)
    } else if count > len - 2 * margin {
        Some(MutationError::RateTooDense)
    } else {
        None
    }
}

/// Draws `count` flips for a buffer of `len` bytes, no two at the same
/// offset. Each step widens the range drawn from by one offset, and takes the
/// new offset itself where the draw names one that is taken.
fn draw_flips(rng: &mut ThreadRng, len: usize, margin: usize, count: usize) -> (flips: Vec<BitFlip>)
    requires
        len >= 2 * margin,
        count <= len - 2 * margin,
    ensures
        bitflip_plan(flips@, len as nat, margin as nat, count as nat),
{
    let span: usize = len - margin - margin;
    let mut taken: Vec<bool> = vec![false; span];
    let mut flips: Vec<BitFlip> = Vec::with_capacity(count);
    let mut bound: usize = span - count;
    while bound < span
        invariant
            span == len - 2 * margin,
            span - count <= bound <= span,
            taken@.len() == span,
            flips@.len() == bound - (span - count),
            flips_fit(flips@, len as nat),
            flips_distinct(flips@),
            forall|k: int| 0 <= k < flips@.len() ==> margin <= (#[trigger] flips@[k]).offset < margin + bound,
            forall|k: int| 0 <= k < flips@.len() ==> taken@[(#[trigger] flips@[k]).offset - margin],
        decreases span - bound,
    {
        let drawn: usize = random_in(rng, 0, bound + 1);
        let ghost marks = taken@;
        let pick: usize = if taken[drawn] {
            bound
        } else {
            drawn
        };
        let position: usize = random_in(rng, 0, 8);
        let flip = BitFlip { offset: margin + pick, position };
        let ghost before = flips@;
        taken.set(pick, true);
        flips.push(flip);
        bound += 1;
        proof {
            assert forall|k: int| 0 <= k < before.len() implies (#[trigger] before[k]).offset != flip.offset by {
                assert(marks[before[k].offset - margin]);
                assert(before[k].offset < margin + bound - 1);
            }
            assert forall|j: int, k: int| 0 <= j < k < flips@.len() implies (#[trigger] flips@[j]).offset != (
            #[trigger] flips@[k]).offset by {
                if k < before.len() {
                    assert(flips@[j] == before[j]);
                    assert(flips@[k] == before[k]);
                } else {
                    assert(flips@[j] == before[j]);
                }
            }
            assert forall|k: int| 0 <= k < flips@.len() implies taken@[(#[trigger] flips@[k]).offset - margin] by {
                if k < before.len() {
                    assert(flips@[k] == before[k]);
                }
            }
        }
    }
    flips
}

/// Bit-flip mutation: inverts one bit in each of as many bytes as the rate
/// asks for, all of them between the two margins.
///
/// Returns the flips that were made, or the reason why none was, in which
/// case the buffer is as it was.
pub fn bitflip(rng: &mut ThreadRng, data: &mut Vec<u8>, mutation_rate: MutationRate, margin: usize) -> (made:
    Result<Vec<BitFlip>, MutationError>)
    ensures
        match made {
            Ok(flips) => {
                &&& bitflip_refusal(
                    old(data)@.len(),
                    margin as nat,
                    mutation_rate.share_of(old(data)@.len(), margin as nat),
                ) is None
                &&& bitflip_plan(
                    flips@,
                    old(data)@.len(),
                    margin as nat,
                    mutation_rate.share_of(old(data)@.len(), margin as nat),
                )
                &&& final(data)@ == flipped(old(data)@, flips@)
                &&& final(data)@.len() == old(data)@.len()
                &&& flipped_once_each(old(data)@, final(data)@, flips@)
                &&& changed_offsets(old(data)@, final(data)@).len() == flips@.len()
                &&& forall|i: int|
                    0 <= i < old(data)@.len() && !in_safe_range(i, old(data)@.len(), margin as nat)
                        ==> #[trigger] final(data)@[i] == old(data)@[i]
            },
            Err(reason) => {
                &&& bitflip_refusal(
                    old(data)@.len(),
                    margin as nat,
                    mutation_rate.share_of(old(data)@.len(), margin as nat),
                ) == Some(reason)
                &&& final(data)@ == old(data)@
            },
        },
{
    let len: usize = data.len();
    if len < margin || len - margin <= margin {
        return Err(MutationError::SeedTooShort);
    }
    let count: usize = mutation_rate.mutation_count(len, margin);
    if count > len - margin - margin {
        return Err(MutationError::RateTooDense);
    }
    let flips = draw_flips(rng, len, margin, count);
    apply_bit_flips(data, &flips);
    proof {
        lemma_flipped_distinct(old(data)@, flips@);
        lemma_changed_count(old(data)@, data@, flips@);
        lemma_margins_untouched(old(data)@, flips@, margin as nat);
    }
    Ok(flips)
}

/// Law: flips that stay out of the margins leave every byte of the margins
/// as it was.
pub proof fn lemma_margins_untouched(bytes: Seq<u8>, flips: Seq<BitFlip>, margin: nat)
    requires
        flips_fit(flips, bytes.len()),
        flips_within_margin(flips, bytes.len(), margin),
    ensures
        flipped(bytes, flips).len() == bytes.len(),
        forall|i: int|
            0 <= i < bytes.len() && !in_safe_range(i, bytes.len(), margin) ==> #[trigger] flipped(
                bytes,
                flips,
            )[i] == bytes[i],
{
    lemma_flipped_elsewhere(bytes, flips);
    assert forall|i: int|
        0 <= i < bytes.len() && !in_safe_range(i, bytes.len(), margin) implies !names(flips, i) by {
        if names(flips, i) {
            let k = choose|k: int| 0 <= k < flips.len() && (#[trigger] flips[k]).offset == i;
            assert(in_safe_range(flips[k].offset as int, bytes.len(), margin));
        }
    }
}

/// Why insertion and deletion refuse a seed, if they do.
pub open spec fn seed_refusal(len: nat, margin: nat) -> Option<MutationError> {
    if len <= 2 * margin {
        Some(MutationError::SeedTooShort)
    } else {
        None
    }
}

/// Draws `count` offsets, each from `low` up to and without `high`.
fn draw_offsets(rng: &mut ThreadRng, low: usize, high: usize, count: usize) -> (offsets: Vec<usize>)
    requires
        low < high,
    ensures
        offsets@.len() == count,
        forall|k: int| 0 <= k < offsets@.len() ==> low <= #[trigger] offsets@[k] < high,
{
    let mut offsets: Vec<usize> = Vec::new();
    let mut drawn: usize = 0;
    while drawn < count
        invariant
            low < high,
            drawn <= count,
            offsets@.len() == drawn,
            forall|k: int| 0 <= k < offsets@.len() ==> low <= #[trigger] offsets@[k] < high,
        decreases count - drawn,
    {
        let offset: usize = random_in(rng, low, high);
        offsets.push(offset);
        drawn += 1;
    }
    offsets
}

/// The first value that insertion never draws for a byte: the bytes it
/// inserts lie below it.
pub const INSERTED_BYTE_LIMIT: usize = 255;

/// What insertion draws for a seed of `len` bytes: as many insertions as
/// the rate asks for, each between the margins of the seed, from the
/// highest offset down.
pub open spec fn insertion_plan(insertions: Seq<Insertion>, len: nat, margin: nat, count: nat) -> bool {
    &&& insertions.len() == count
    &&& forall|k: int|
        0 <= k < insertions.len() ==> in_safe_range((#[trigger] insertions[k]).offset as int, len, margin)
            && insertions[k].byte < INSERTED_BYTE_LIMIT
    &&& offsets_descend(insertions)
}

/// Insertion mutation: inserts as many random bytes as the rate asks for,
/// each at an offset between the two margins of the seed. The offsets are
/// taken from the highest down, so that each is still where the seed had it
/// when its turn comes.
///
/// Returns the insertions that were made, or the reason why none was, in
/// which case the buffer is as it was.
pub fn insertion(rng: &mut ThreadRng, data: &mut Vec<u8>, insertion_rate: MutationRate, margin: usize) -> (made:
    Result<Vec<Insertion>, MutationError>)
    ensures
        match made {
            Ok(insertions) => {
                &&& seed_refusal(old(data)@.len(), margin as nat) is None
                &&& insertion_plan(
                    insertions@,
                    old(data)@.len(),
                    margin as nat,
                    insertion_rate.share_of(old(data)@.len(), margin as nat),
                )
                &&& final(data)@ == inserted(old(data)@, insertions@)
                &&& final(data)@.len() == old(data)@.len() + insertion_rate.share_of(
                    old(data)@.len(),
                    margin as nat,
                )
                &&& forall|x: int| 0 <= x < margin ==> #[trigger] final(data)@[x] == old(data)@[x]
                &&& forall|x: int|
                    old(data)@.len() - margin <= x < old(data)@.len() ==> final(data)@[x
                        + insertions@.len()] == #[trigger] old(data)@[x]
            },
            Err(reason) => {
                &&& seed_refusal(old(data)@.len(), margin as nat) == Some(reason)
                &&& final(data)@ == old(data)@
            },
        },
{
    let len: usize = data.len();
    if len < margin || len - margin <= margin {
        return Err(MutationError::SeedTooShort);
    }
    let count: usize = insertion_rate.mutation_count(len, margin);
    let mut offsets = draw_offsets(rng, margin, len - margin, count);
    let ghost drawn = offsets@;
    sort_descending(&mut offsets);
    proof {
        lemma_bounds_carry_over(drawn, offsets@, margin as int, len - margin);
    }
    let mut insertions: Vec<Insertion> = Vec::with_capacity(count);
    let mut built: usize = 0;
    while built < count
        invariant
            built <= count,
            offsets@.len() == count,
            insertions@.len() == built,
            forall|k: int| 0 <= k < built ==> (#[trigger] insertions@[k]).offset == offsets@[k],
            forall|k: int| 0 <= k < built ==> (#[trigger] insertions@[k]).byte < INSERTED_BYTE_LIMIT,
        decreases count - built,
    {
        let byte: usize = random_in(rng, 0, INSERTED_BYTE_LIMIT);
        insertions.push(Insertion { offset: offsets[built], byte: byte as u8 });
        built += 1;
    }
    apply_insertions(data, &insertions);
    proof {
        lemma_inserted_ends(old(data)@, insertions@, margin as int, len - margin);
    }
    Ok(insertions)
}

/// What deletion draws for a seed of `len` bytes: as many offsets as the
/// rate asks for, each behind the leading margin and so far from the end
/// that all the deletions find their byte, from the highest offset down.
pub open spec fn deletion_plan(offsets: Seq<usize>, len: nat, margin: nat, count: nat) -> bool {
    &&& offsets.len() == count
    &&& forall|k: int| 0 <= k < offsets.len() ==> margin <= #[trigger] offsets[k] < len - count
    &&& descending(offsets)
}

/// Deletion mutation: removes as many bytes as the rate asks for, from the
/// highest offset down. No offset lies in the leading margin, and none among
/// the last bytes, as many as there are deletions.
///
/// Returns the offsets at which a byte was removed, or the reason why none
/// was, in which case the buffer is as it was.
pub fn deletion(rng: &mut ThreadRng, data: &mut Vec<u8>, deletion_rate: MutationRate, margin: usize) -> (made:
    Result<Vec<usize>, MutationError>)
    ensures
        match made {
            Ok(offsets) => {
                &&& seed_refusal(old(data)@.len(), margin as nat) is None
                &&& deletion_plan(
                    offsets@,
                    old(data)@.len(),
                    margin as nat,
                    deletion_rate.share_of(old(data)@.len(), margin as nat),
                )
                &&& final(data)@ == deleted(old(data)@, offsets@)
                &&& final(data)@.len() == old(data)@.len() - deletion_rate.share_of(
                    old(data)@.len(),
                    margin as nat,
                )
                &&& final(data)@.len() > margin
                &&& forall|x: int| 0 <= x < margin ==> #[trigger] final(data)@[x] == old(data)@[x]
                &&& final(data)@.last() == old(data)@.last()
            },
            Err(reason) => {
                &&& seed_refusal(old(data)@.len(), margin as nat) == Some(reason)
                &&& final(data)@ == old(data)@
            },
        },
{
    let len: usize = data.len();
    if len < margin || len - margin <= margin {
        return Err(MutationError::SeedTooShort);
    }
    let count: usize = deletion_rate.mutation_count(len, margin);
    let mut offsets = draw_offsets(rng, margin, len - count, count);
    let ghost drawn = offsets@;
    sort_descending(&mut offsets);
    proof {
        lemma_bounds_carry_over(drawn, offsets@, margin as int, len - count);
    }
    apply_deletions(data, &offsets);
    proof {
        lemma_deleted_ends(old(data)@, offsets@, margin as int, len - count);
    }
    Ok(offsets)
}

/// Magic numbers are written at an offset that leaves this many bytes
/// behind it: room for the widest entry of the table, twice over.
pub const MAGIC_RESERVE: usize = 8;

/// Why magic-number injection refuses a seed, if it does.
pub open spec fn magic_refusal(len: nat) -> Option<MutationError> {
    if len <= MAGIC_RESERVE {
        Some(MutationError::SeedTooShort)
    } else {
        None
    }
}

/// What magic-number injection draws for a seed of `len` bytes: an entry
/// of the table, and an offset with the reserve behind it.
pub open spec fn magic_plan(write: MagicWrite, len: nat) -> bool {
    &&& write.offset < len - MAGIC_RESERVE
    &&& exists|choice: int| 0 <= choice < magic_table().len() && #[trigger] magic_table()[choice] == write.entry
}

/// Magic-number injection: overwrites one run of bytes with an entry of the
/// table of boundary values. The run is as long as the entry is wide, each
/// of its bytes becomes the entry's value, and no other byte changes.
///
/// Returns what was written and where, or the reason why nothing was, in
/// which case the buffer is as it was.
pub fn magic(rng: &mut ThreadRng, data: &mut Vec<u8>) -> (made: Result<MagicWrite, MutationError>)
    ensures
        match made {
            Ok(write) => {
                &&& magic_refusal(old(data)@.len()) is None
                &&& magic_plan(write, old(data)@.len())
                &&& final(data)@ == overwritten(
                    old(data)@,
                    write.offset as int,
                    write.entry.width as int,
                    write.entry.value,
                )
                &&& final(data)@.len() == old(data)@.len()
            },
            Err(reason) => {
                &&& magic_refusal(old(data)@.len()) == Some(reason)
                &&& final(data)@ == old(data)@
            },
        },
{
    let len: usize = data.len();
    if len <= MAGIC_RESERVE {
        return Err(MutationError::SeedTooShort);
    }
    let offset: usize = random_in(rng, 0, len - MAGIC_RESERVE);
    let choice: usize = random_in(rng, 0, MAGIC_TABLE_LEN);
    let write = MagicWrite { offset, entry: magic_number(choice).unwrap() };
    assert(magic_table()[choice as int] == write.entry);
    apply_magic(data, write);
    Ok(write)
}

/// The mutation is one that the engine draws for a seed of `len` bytes at
/// the given rate and margin.
pub open spec fn drawn_for(mutation: Mutation, len: nat, rate: MutationRate, margin: nat) -> bool {
    let count = rate.share_of(len, margin);
    match mutation {
        Mutation::BitFlip(flips) => bitflip_plan(flips@, len, margin, count),
        Mutation::Insertion(insertions) => insertion_plan(insertions@, len, margin, count),
        Mutation::Deletion(offsets) => deletion_plan(offsets@, len, margin, count),
        Mutation::Magic(write) => magic_plan(write, len),
    }
}

/// Law: what the engine draws for a seed can be applied to it.
pub proof fn lemma_drawn_fits(mutation: Mutation, len: nat, rate: MutationRate, margin: nat)
    requires
        drawn_for(mutation, len, rate, margin),
    ensures
        mutation.fits(len),
        mutation.growth() == match mutation.kind() {
            Strategy::BitFlip => 0,
            Strategy::Magic => 0,
            Strategy::Insertion => rate.share_of(len, margin) as int,
            Strategy::Deletion => -(rate.share_of(len, margin) as int),
        },
{
    match mutation {
        Mutation::BitFlip(flips) => {},
        Mutation::Insertion(insertions) => {},
        Mutation::Deletion(offsets) => {},
        Mutation::Magic(write) => {
            let choice = choose|choice: int|
                0 <= choice < magic_table().len() && #[trigger] magic_table()[choice] == write.entry;
            lemma_magic_table_shape(choice);
        },
    }
}

/// Why the engine refuses a seed at a rate, if it does. The test is made
/// before a strategy is drawn, so it is the same for all four.
pub open spec fn refusal(len: nat, rate: MutationRate) -> Option<MutationError> {
    if len <= MAGIC_RESERVE || len <= 2 * MARGIN {
        Some(MutationError::SeedTooShort)
    } else if rate.share_of(len, MARGIN as nat) > len - 2 * MARGIN {
        Some(MutationError::RateTooDense)
    } else {
        None
    }
}

/// Tells whether the engine takes a seed of `len` bytes at the given rate.
/// A run makes this test once, before its first attempt: what passes it is
/// never refused later.
pub fn check_seed(len: usize, mutation_rate: MutationRate) -> (verdict: Result<(), MutationError>)
    ensures
        match verdict {
            Ok(_) => refusal(len as nat, mutation_rate) is None,
            Err(reason) => refusal(len as nat, mutation_rate) == Some(reason),
        },
{
    if len <= MAGIC_RESERVE || len <= 2 * MARGIN {
        return Err(MutationError::SeedTooShort);
    }
    if mutation_rate.mutation_count(len, MARGIN) > len - 2 * MARGIN {
        return Err(MutationError::RateTooDense);
    }
    Ok(())
}

/// `after` is what one of the engine's mutations, of the given strategy,
/// makes of `before`.
pub open spec fn mutated_by(strategy: Strategy, before: Seq<u8>, after: Seq<u8>, rate: MutationRate) -> bool {
    exists|mutation: Mutation|
        #![trigger mutation.applied(before)]
        mutation.kind() == strategy && drawn_for(mutation, before.len(), rate, MARGIN as nat)
            && after == mutation.applied(before)
}

/// A mutation that made `after` of `before`.
proof fn witness(strategy: Strategy, before: Seq<u8>, after: Seq<u8>, rate: MutationRate) -> (mutation: Mutation)
    requires
        mutated_by(strategy, before, after, rate),
    ensures
        mutation.kind() == strategy,
        drawn_for(mutation, before.len(), rate, MARGIN as nat),
        after == mutation.applied(before),
{
    choose|mutation: Mutation|
        #![trigger mutation.applied(before)]
        mutation.kind() == strategy && drawn_for(mutation, before.len(), rate, MARGIN as nat)
            && after == mutation.applied(before)
}

/// The length that a seed of `len` bytes has after a mutation of the given
/// strategy: the same after bit flips and magic numbers, and longer or
/// shorter by the rate's share after insertion and deletion.
pub open spec fn mutated_len(strategy: Strategy, len: nat, rate: MutationRate) -> int {
    match strategy {
        Strategy::BitFlip => len as int,
        Strategy::Magic => len as int,
        Strategy::Insertion => (len + rate.share_of(len, MARGIN as nat)) as int,
        Strategy::Deletion => len - rate.share_of(len, MARGIN as nat),
    }
}

/// Law: a mutation of the engine keeps the length of the seed where it
/// flips bits or writes a magic number, and changes it by exactly the rate's
/// share where it inserts or deletes.
pub proof fn lemma_mutated_len(strategy: Strategy, before: Seq<u8>, after: Seq<u8>, rate: MutationRate)
    requires
        mutated_by(strategy, before, after, rate),
    ensures
        after.len() == mutated_len(strategy, before.len(), rate),
{
    let mutation = witness(strategy, before, after, rate);
    lemma_drawn_fits(mutation, before.len(), rate, MARGIN as nat);
    lemma_applied_len(mutation, before);
}

/// Law: bit-flip mutation leaves every byte of the two margins as it was.
pub proof fn lemma_bitflip_spares_margins(before: Seq<u8>, after: Seq<u8>, rate: MutationRate)
    requires
        mutated_by(Strategy::BitFlip, before, after, rate),
    ensures
        after.len() == before.len(),
        forall|i: int|
            0 <= i < before.len() && !in_safe_range(i, before.len(), MARGIN as nat) ==> #[trigger] after[i]
                == before[i],
{
    let mutation = witness(Strategy::BitFlip, before, after, rate);
    match mutation {
        Mutation::BitFlip(flips) => lemma_margins_untouched(before, flips@, MARGIN as nat),
        _ => {},
    }
}

/// Law: bit-flip mutation changes exactly as many bytes as the rate asks
/// for, and each of them in exactly one bit.
pub proof fn lemma_bitflip_changes_one_bit_each(before: Seq<u8>, after: Seq<u8>, rate: MutationRate)
    requires
        mutated_by(Strategy::BitFlip, before, after, rate),
    ensures
        changed_offsets(before, after).finite(),
        changed_offsets(before, after).len() == rate.share_of(before.len(), MARGIN as nat),
        exists|flips: Seq<BitFlip>|
            bitflip_plan(flips, before.len(), MARGIN as nat, rate.share_of(before.len(), MARGIN as nat))
                && #[trigger] flipped_once_each(before, after, flips),
{
    let mutation = witness(Strategy::BitFlip, before, after, rate);
    match mutation {
        Mutation::BitFlip(flips) => {
            lemma_flipped_distinct(before, flips@);
            lemma_changed_count(before, after, flips@);
            assert(flipped_once_each(before, after, flips@));
        },
        _ => {},
    }
}

/// Law: insertion leaves the leading margin as it was, and the trailing
/// margin too, which it moves on by as many places as it inserts bytes.
pub proof fn lemma_insertion_spares_margins(before: Seq<u8>, after: Seq<u8>, rate: MutationRate)
    requires
        mutated_by(Strategy::Insertion, before, after, rate),
    ensures
        after.len() == before.len() + rate.share_of(before.len(), MARGIN as nat),
        forall|x: int| 0 <= x < MARGIN && x < before.len() ==> #[trigger] after[x] == before[x],
        forall|x: int|
            0 <= x < before.len() && before.len() - MARGIN <= x ==> after[x + rate.share_of(
                before.len(),
                MARGIN as nat,
            )] == #[trigger] before[x],
{
    let mutation = witness(Strategy::Insertion, before, after, rate);
    match mutation {
        Mutation::Insertion(insertions) => {
            if insertions@.len() > 0 {
                assert(in_safe_range(insertions@[0].offset as int, before.len(), MARGIN as nat));
                lemma_inserted_ends(before, insertions@, MARGIN as int, before.len() - MARGIN);
            }
        },
        _ => {},
    }
}

/// Law: deletion leaves the leading margin as it was, and leaves more
/// than the margin of the seed.
pub proof fn lemma_deletion_spares_leading_margin(before: Seq<u8>, after: Seq<u8>, rate: MutationRate)
    requires
        mutated_by(Strategy::Deletion, before, after, rate),
    ensures
        after.len() == before.len() - rate.share_of(before.len(), MARGIN as nat),
        rate.share_of(before.len(), MARGIN as nat) > 0 ==> after.len() > MARGIN,
        forall|x: int| 0 <= x < MARGIN && x < after.len() ==> #[trigger] after[x] == before[x],
{
    let mutation = witness(Strategy::Deletion, before, after, rate);
    match mutation {
        Mutation::Deletion(offsets) => {
            let count = rate.share_of(before.len(), MARGIN as nat);
            if offsets@.len() > 0 {
                assert(MARGIN <= offsets@[0] < before.len() - count);
            }
            lemma_deleted_ends(before, offsets@, MARGIN as int, before.len() - count);
        },
        _ => {},
    }
}

/// Law: magic-number injection writes one entry of the table, as wide as
/// the entry says, in one run, and changes nothing else.
pub proof fn lemma_magic_writes_one_run(before: Seq<u8>, after: Seq<u8>, rate: MutationRate)
    requires
        mutated_by(Strategy::Magic, before, after, rate),
    ensures
        exists|offset: int, choice: int|
            0 <= offset < before.len() - MAGIC_RESERVE && 0 <= choice < magic_table().len() && after
                == #[trigger] overwritten(
                before,
                offset,
                magic_table()[choice].width as int,
                magic_table()[choice].value,
            ),
{
    let mutation = witness(Strategy::Magic, before, after, rate);
    match mutation {
        Mutation::Magic(write) => {
            let choice = choose|choice: int|
                0 <= choice < magic_table().len() && #[trigger] magic_table()[choice] == write.entry;
            assert(after == overwritten(
                before,
                write.offset as int,
                magic_table()[choice].width as int,
                magic_table()[choice].value,
            ));
        },
        _ => {},
    }
}

/// Mutates the buffer by a strategy drawn at random, and says which one
/// it was.
///
/// A seed that the engine refuses is left as it was.
pub fn mutate_input(rng: &mut ThreadRng, data_buf: &mut Vec<u8>, mutation_rate: MutationRate) -> (method:
    Result<Strategy, MutationError>)
    ensures
        match method {
            Ok(strategy) => {
                &&& refusal(old(data_buf)@.len(), mutation_rate) is None
                &&& mutated_by(strategy, old(data_buf)@, final(data_buf)@, mutation_rate)
                &&& final(data_buf)@.len() == mutated_len(strategy, old(data_buf)@.len(), mutation_rate)
            },
            Err(reason) => {
                &&& refusal(old(data_buf)@.len(), mutation_rate) == Some(reason)
                &&& final(data_buf)@ == old(data_buf)@
            },
        },
{
    match check_seed(data_buf.len(), mutation_rate) {
        Ok(_) => {},
        Err(reason) => {
            return Err(reason);
        },
    }
    let fuzz_method: usize = random_in(rng, 0, STRATEGY_COUNT);
    let strategy: Strategy = Strategy::from_index(fuzz_method).unwrap();
    match strategy {
        Strategy::BitFlip => match bitflip(rng, data_buf, mutation_rate, MARGIN) {
            Ok(flips) => {
                assert(Mutation::BitFlip(flips).applied(old(data_buf)@) == data_buf@);
                Ok(strategy)
            },
            Err(reason) => Err(reason),
        },
        Strategy::Insertion => match insertion(rng, data_buf, mutation_rate, MARGIN) {
            Ok(insertions) => {
                assert(Mutation::Insertion(insertions).applied(old(data_buf)@) == data_buf@);
                Ok(strategy)
            },
            Err(reason) => Err(reason),
        },
        Strategy::Deletion => match deletion(rng, data_buf, mutation_rate, MARGIN) {
            Ok(offsets) => {
                assert(Mutation::Deletion(offsets).applied(old(data_buf)@) == data_buf@);
                Ok(strategy)
            },
            Err(reason) => Err(reason),
        },
        Strategy::Magic => match magic(rng, data_buf) {
            Ok(write) => {
                assert(Mutation::Magic(write).applied(old(data_buf)@) == data_buf@);
                Ok(strategy)
            },
            Err(reason) => Err(reason),
        },
    }
}

/// A mutated copy of a seed, with the strategy that made it.
#[derive(Debug, PartialEq, Eq)]
pub struct MutatedInput {
    pub bytes: Vec<u8>,
    pub strategy: Strategy,
}

/// Mutates a copy of the seed. The seed itself is only read.
pub fn mutate(rng: &mut ThreadRng, seed: &Vec<u8>, mutation_rate: MutationRate) -> (mutant: Result<
    MutatedInput,
    MutationError,
>)
    ensures
        match mutant {
            Ok(input) => {
                &&& refusal(seed@.len(), mutation_rate) is None
                &&& mutated_by(input.strategy, seed@, input.bytes@, mutation_rate)
                &&& input.bytes@.len() == mutated_len(input.strategy, seed@.len(), mutation_rate)
            },
            Err(reason) => refusal(seed@.len(), mutation_rate) == Some(reason),
        },
{
    let mut bytes: Vec<u8> = seed.clone();
    assert(bytes@ =~= seed@);
    match mutate_input(rng, &mut bytes, mutation_rate) {
        Ok(strategy) => Ok(MutatedInput { bytes, strategy }),
        Err(reason) => Err(reason),
    }
}

} // verus!
