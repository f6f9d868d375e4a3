//! Mutations as plain data, and what each does to a buffer.
//!
//! A mutation is first chosen (at random, elsewhere) and then applied. This
//! module holds the second half: given the choices, the result is fixed.

use crate::strategy::Strategy;
use crate::utils::{flip_bit, lemma_flip_changes, with_bit_flipped};
use vstd::prelude::*;

verus! {

/// One bit to invert: the byte at `offset`, and the bit at `position` of its
/// bit list (position 0 is the most significant bit).
#[derive(Clone, Copy, Debug, PartialEq, Eq, Structural)]
pub struct BitFlip {
    pub offset: usize,
    pub position: usize,
}

/// Every flip names a byte of a buffer of `len` bytes and one of its eight bits.
pub open spec fn flips_fit(flips: Seq<BitFlip>, len: nat) -> bool {
    forall|k: int| 0 <= k < flips.len() ==> (#[trigger] flips[k]).offset < len && flips[k].position < 8
}

/// The flips stay out of the first and the last `margin` bytes.
pub open spec fn flips_within_margin(flips: Seq<BitFlip>, len: nat, margin: nat) -> bool {
    forall|k: int| 0 <= k < flips.len() ==> margin <= (#[trigger] flips[k]).offset < len - margin
}

/// No byte is named twice.
pub open spec fn flips_distinct(flips: Seq<BitFlip>) -> bool {
    forall|j: int, k: int|
        0 <= j < k < flips.len() ==> (#[trigger] flips[j]).offset != (#[trigger] flips[k]).offset
}

/// The buffer after the flips were made one after the other.
pub open spec fn flipped(bytes: Seq<u8>, flips: Seq<BitFlip>) -> Seq<u8>
    decreases flips.len(),
{
    if flips.len() == 0 {
        bytes
    } else {
        let before = flipped(bytes, flips.drop_last());
        let flip = flips.last();
        before.update(flip.offset as int, with_bit_flipped(before[flip.offset as int], flip.position as int))
    }
}

/// Inverts the named bits of `data`, in the order given.
pub fn apply_bit_flips(data: &mut Vec<u8>, flips: &Vec<BitFlip>)
    requires
        flips_fit(flips@, old(data)@.len()),
    ensures
        final(data)@ == flipped(old(data)@, flips@),
        final(data)@.len() == old(data)@.len(),
{
    let mut done: usize = 0;
    assert(flips@.take(0) =~= Seq::<BitFlip>::empty());
    while done < flips.len()
        invariant
            done <= flips@.len(),
            flips_fit(flips@, old(data)@.len()),
            data@.len() == old(data)@.len(),
            data@ == flipped(old(data)@, flips@.take(done as int)),
        decreases flips@.len() - done,
    {
        let flip: BitFlip = flips[done];
        let byte: u8 = data[flip.offset];
        data.set(flip.offset, flip_bit(byte, flip.position));
        proof {
            assert(flips@.take(done + 1).drop_last() =~= flips@.take(done as int));
            assert(flips@.take(done + 1).last() == flip);
        }
        done += 1;
    }
    assert(flips@.take(done as int) =~= flips@);
}

/// One of the flips names the byte at `offset`.
pub open spec fn names(flips: Seq<BitFlip>, offset: int) -> bool {
    exists|k: int| 0 <= k < flips.len() && (#[trigger] flips[k]).offset == offset
}

/// `after` is `before` with each named byte changed in its one named bit,
/// and with every other byte as it was.
pub open spec fn flipped_once_each(before: Seq<u8>, after: Seq<u8>, flips: Seq<BitFlip>) -> bool {
    &&& after.len() == before.len()
    &&& forall|k: int|
        0 <= k < flips.len() ==> after[(#[trigger] flips[k]).offset as int] == with_bit_flipped(
            before[flips[k].offset as int],
            flips[k].position as int,
        )
    &&& forall|i: int| 0 <= i < before.len() && !names(flips, i) ==> #[trigger] after[i] == before[i]
}

/// The offsets at which two buffers of one length differ.
pub open spec fn changed_offsets(before: Seq<u8>, after: Seq<u8>) -> Set<int> {
    Set::new(|i: int| 0 <= i < before.len() && i < after.len() && before[i] != after[i])
}

/// Law: flips keep the length, and leave alone every byte that none of them names.
pub proof fn lemma_flipped_elsewhere(bytes: Seq<u8>, flips: Seq<BitFlip>)
    requires
        flips_fit(flips, bytes.len()),
    ensures
        flipped(bytes, flips).len() == bytes.len(),
        forall|i: int|
            0 <= i < bytes.len() && !names(flips, i) ==> #[trigger] flipped(bytes, flips)[i] == bytes[i],
    decreases flips.len(),
{
    if flips.len() > 0 {
        let rest = flips.drop_last();
        lemma_flipped_elsewhere(bytes, rest);
        let before = flipped(bytes, rest);
        assert forall|i: int| 0 <= i < bytes.len() && !names(flips, i) implies #[trigger] flipped(
            bytes,
            flips,
        )[i] == bytes[i] by {
            if names(rest, i) {
                let k = choose|k: int| 0 <= k < rest.len() && (#[trigger] rest[k]).offset == i;
                assert(flips[k].offset == i);
            }
            assert(before[i] == bytes[i]);
            assert(flips[flips.len() - 1].offset != i);
        }
    }
}

/// Law: where no byte is named twice, each named byte ends with exactly its
/// one named bit inverted, and the other bytes are as they were.
pub proof fn lemma_flipped_distinct(bytes: Seq<u8>, flips: Seq<BitFlip>)
    requires
        flips_fit(flips, bytes.len()),
        flips_distinct(flips),
    ensures
        flipped_once_each(bytes, flipped(bytes, flips), flips),
    decreases flips.len(),
{
    lemma_flipped_elsewhere(bytes, flips);
    if flips.len() > 0 {
        let rest = flips.drop_last();
        let last = flips.last();
        lemma_flipped_distinct(bytes, rest);
        lemma_flipped_elsewhere(bytes, rest);
        let before = flipped(bytes, rest);
        if names(rest, last.offset as int) {
            let k = choose|k: int| 0 <= k < rest.len() && (#[trigger] rest[k]).offset == last.offset;
            assert(flips[k].offset == flips[flips.len() - 1].offset);
        }
        assert(before[last.offset as int] == bytes[last.offset as int]);
        assert forall|k: int| 0 <= k < flips.len() implies flipped(bytes, flips)[(#[trigger] flips[k]).offset as int]
            == with_bit_flipped(bytes[flips[k].offset as int], flips[k].position as int) by {
            if k < rest.len() {
                assert(rest[k] == flips[k]);
                assert(flips[k].offset != last.offset);
            }
        }
    }
}

/// Law: flips that name no byte twice change as many bytes as there are
/// flips: the named ones, and each of them.
pub proof fn lemma_changed_count(before: Seq<u8>, after: Seq<u8>, flips: Seq<BitFlip>)
    requires
        flips_fit(flips, before.len()),
        flips_distinct(flips),
        flipped_once_each(before, after, flips),
    ensures
        changed_offsets(before, after).finite(),
        changed_offsets(before, after).len() == flips.len(),
        forall|i: int| changed_offsets(before, after).contains(i) <==> 0 <= i < before.len() && names(flips, i),
{
    let offsets = Seq::new(flips.len(), |k: int| flips[k].offset as int);
    assert(offsets.no_duplicates());
    offsets.unique_seq_to_set();
    assert forall|i: int| changed_offsets(before, after).contains(i) <==> offsets.to_set().contains(
        i,
    ) by {
        if changed_offsets(before, after).contains(i) {
            assert(names(flips, i));
            let k = choose|k: int| 0 <= k < flips.len() && (#[trigger] flips[k]).offset == i;
            assert(offsets[k] == i);
        }
        if offsets.to_set().contains(i) {
            let k = choose|k: int| 0 <= k < offsets.len() && offsets[k] == i;
            assert(flips[k].offset == i);
            lemma_flip_changes(before[i], flips[k].position as int);
        }
    }
    assert(changed_offsets(before, after) =~= offsets.to_set());
    assert forall|i: int| changed_offsets(before, after).contains(i) <==> 0 <= i < before.len() && names(
        flips,
        i,
    ) by {
        if changed_offsets(before, after).contains(i) {
            let k = choose|k: int| 0 <= k < offsets.len() && offsets[k] == i;
            assert(flips[k].offset == i);
        }
        if 0 <= i < before.len() && names(flips, i) {
            let k = choose|k: int| 0 <= k < flips.len() && (#[trigger] flips[k]).offset == i;
            assert(offsets[k] == i);
        }
    }
}

/// An entry of the magic-number table: `width` bytes, each of them `value`.
#[derive(Clone, Copy, Debug, PartialEq, Eq, Structural)]
pub struct MagicNumber {
    pub width: usize,
    pub value: u8,
}

/// The table of boundary values that magic-number injection picks from.
/// An entry that stands twice is picked twice as often.
pub open spec fn magic_table() -> Seq<MagicNumber> {
    seq![
        MagicNumber { width: 1, value: 255 },
        MagicNumber { width: 1, value: 255 },
        MagicNumber { width: 1, value: 127 },
        MagicNumber { width: 1, value: 0 },
        MagicNumber { width: 2, value: 255 },
        MagicNumber { width: 2, value: 0 },
        MagicNumber { width: 4, value: 255 },
        MagicNumber { width: 4, value: 0 },
        MagicNumber { width: 4, value: 128 },
        MagicNumber { width: 4, value: 64 },
        MagicNumber { width: 4, value: 127 },
    ]
}

/// The number of entries of the table.
pub const MAGIC_TABLE_LEN: usize = 11;

/// The widest entry of the table, in bytes.
pub const MAGIC_MAX_WIDTH: usize = 4;

/// Entry `choice` of the table.
pub fn magic_number(choice: usize) -> (entry: Option<MagicNumber>)
    ensures
        magic_table().len() == MAGIC_TABLE_LEN,
        choice < MAGIC_TABLE_LEN ==> entry == Some(magic_table()[choice as int]),
        choice >= MAGIC_TABLE_LEN ==> entry is None,
        entry matches Some(e) ==> 1 <= e.width <= MAGIC_MAX_WIDTH,
{
    if choice == 0 || choice == 1 {
        Some(MagicNumber { width: 1, value: 255 })
    } else if choice == 2 {
        Some(MagicNumber { width: 1, value: 127 })
    } else if choice == 3 {
        Some(MagicNumber { width: 1, value: 0 })
    } else if choice == 4 {
        Some(MagicNumber { width: 2, value: 255 })
    } else if choice == 5 {
        Some(MagicNumber { width: 2, value: 0 })
    } else if choice == 6 {
        Some(MagicNumber { width: 4, value: 255 })
    } else if choice == 7 {
        Some(MagicNumber { width: 4, value: 0 })
    } else if choice == 8 {
        Some(MagicNumber { width: 4, value: 128 })
    } else if choice == 9 {
        Some(MagicNumber { width: 4, value: 64 })
    } else if choice == 10 {
        Some(MagicNumber { width: 4, value: 127 })
    } else {
        None
    }
}

/// Law: every entry is 1, 2 or 4 bytes wide and holds one of the five
/// boundary values.
pub proof fn lemma_magic_table_shape(choice: int)
    requires
        0 <= choice < magic_table().len(),
    ensures
        ({
            let e = magic_table()[choice];
            &&& (e.width == 1 || e.width == 2 || e.width == 4)
            &&& (e.value == 0x00 || e.value == 0x7F || e.value == 0x80 || e.value == 0x40 || e.value
                == 0xFF)
        }),
{
}

/// A magic number and the place where it is written.
#[derive(Clone, Copy, Debug, PartialEq, Eq, Structural)]
pub struct MagicWrite {
    pub offset: usize,
    pub entry: MagicNumber,
}

/// The buffer with `width` bytes from `offset` on replaced by `value`.
pub open spec fn overwritten(bytes: Seq<u8>, offset: int, width: int, value: u8) -> Seq<u8> {
    Seq::new(
        bytes.len(),
        |i: int|
            if offset <= i < offset + width {
                value
            } else {
                bytes[i]
            },
    )
}

/// Writes the magic number over the bytes from its offset on.
pub fn apply_magic(data: &mut Vec<u8>, write: MagicWrite)
    requires
        write.offset + write.entry.width <= old(data)@.len(),
    ensures
        final(data)@ == overwritten(
            old(data)@,
            write.offset as int,
            write.entry.width as int,
            write.entry.value,
        ),
        final(data)@.len() == old(data)@.len(),
{
    let len: usize = data.len();
    let mut counter: usize = 0;
    while counter < write.entry.width
        invariant
            counter <= write.entry.width,
            len == data@.len(),
            write.offset + write.entry.width <= old(data)@.len(),
            data@.len() == old(data)@.len(),
            data@ == overwritten(old(data)@, write.offset as int, counter as int, write.entry.value),
        decreases write.entry.width - counter,
    {
        data.set(write.offset + counter, write.entry.value);
        counter += 1;
        assert(data@ =~= overwritten(
            old(data)@,
            write.offset as int,
            counter as int,
            write.entry.value,
        ));
    }
}

/// One byte to insert, and the offset at which it comes to stand.
#[derive(Clone, Copy, Debug, PartialEq, Eq, Structural)]
pub struct Insertion {
    pub offset: usize,
    pub byte: u8,
}

/// Each insertion finds its offset in the buffer as the ones before it left
/// it: a buffer of `len` bytes that has grown by one byte per insertion.
pub open spec fn insertions_fit(insertions: Seq<Insertion>, len: nat) -> bool {
    forall|k: int| 0 <= k < insertions.len() ==> (#[trigger] insertions[k]).offset <= len + k
}

/// The buffer after the insertions were made one after the other.
pub open spec fn inserted(bytes: Seq<u8>, insertions: Seq<Insertion>) -> Seq<u8>
    decreases insertions.len(),
{
    if insertions.len() == 0 {
        bytes
    } else {
        let last = insertions.last();
        inserted(bytes, insertions.drop_last()).insert(last.offset as int, last.byte)
    }
}

/// Law: each insertion makes the buffer one byte longer.
pub proof fn lemma_inserted_len(bytes: Seq<u8>, insertions: Seq<Insertion>)
    requires
        insertions_fit(insertions, bytes.len()),
    ensures
        inserted(bytes, insertions).len() == bytes.len() + insertions.len(),
    decreases insertions.len(),
{
    if insertions.len() > 0 {
        let rest = insertions.drop_last();
        assert forall|k: int| 0 <= k < rest.len() implies (#[trigger] rest[k]).offset <= bytes.len()
            + k by {
            assert(rest[k] == insertions[k]);
        }
        lemma_inserted_len(bytes, rest);
        assert(insertions[insertions.len() - 1].offset <= bytes.len() + insertions.len() - 1);
    }
}

/// Law: insertions at offsets from `low` up to `high` leave alone what
/// stands before `low`, and move on what stands from `high` on by as many
/// places as there are insertions.
pub proof fn lemma_inserted_ends(bytes: Seq<u8>, insertions: Seq<Insertion>, low: int, high: int)
    requires
        0 <= low,
        high <= bytes.len(),
        forall|k: int| 0 <= k < insertions.len() ==> low <= (#[trigger] insertions[k]).offset <= high,
    ensures
        inserted(bytes, insertions).len() == bytes.len() + insertions.len(),
        forall|x: int| 0 <= x < low ==> #[trigger] inserted(bytes, insertions)[x] == bytes[x],
        forall|x: int|
            high <= x < bytes.len() ==> inserted(bytes, insertions)[x + insertions.len()] == #[trigger] bytes[x],
    decreases insertions.len(),
{
    if insertions.len() > 0 {
        let rest = insertions.drop_last();
        let last = insertions.last();
        assert forall|k: int| 0 <= k < rest.len() implies low <= (#[trigger] rest[k]).offset <= high by {
            assert(rest[k] == insertions[k]);
        }
        lemma_inserted_ends(bytes, rest, low, high);
        let before = inserted(bytes, rest);
        assert(low <= insertions[insertions.len() - 1].offset <= high);
        assert forall|x: int| high <= x < bytes.len() implies inserted(bytes, insertions)[x
            + insertions.len()] == #[trigger] bytes[x] by {
            assert(before[x + rest.len()] == bytes[x]);
        }
    }
}

/// The insertions go from the highest offset down.
pub open spec fn offsets_descend(insertions: Seq<Insertion>) -> bool {
    forall|j: int, k: int|
        0 <= j <= k < insertions.len() ==> (#[trigger] insertions[j]).offset >= (
        #[trigger] insertions[k]).offset
}

/// How many of the insertions stand at `offset` or before it.
pub open spec fn inserted_up_to(insertions: Seq<Insertion>, offset: int) -> nat
    decreases insertions.len(),
{
    if insertions.len() == 0 {
        0
    } else {
        inserted_up_to(insertions.drop_last(), offset) + if insertions.last().offset <= offset {
            1nat
        } else {
            0nat
        }
    }
}

/// Law: insertions from the highest offset down find every offset where
/// the seed had it. Each inserted byte comes to stand before the seed's byte
/// at its offset, behind those that are inserted there after it; and every
/// byte of the seed is still there, moved on by as many places as insertions
/// stand at its offset or before it.
pub proof fn lemma_inserted_high_to_low(bytes: Seq<u8>, insertions: Seq<Insertion>)
    requires
        offsets_descend(insertions),
        forall|k: int| 0 <= k < insertions.len() ==> (#[trigger] insertions[k]).offset <= bytes.len(),
    ensures
        inserted(bytes, insertions).len() == bytes.len() + insertions.len(),
        forall|k: int|
            0 <= k < insertions.len() ==> inserted(bytes, insertions)[(#[trigger] insertions[k]).offset
                + (insertions.len() - 1 - k)] == insertions[k].byte,
        forall|x: int|
            0 <= x < bytes.len() ==> inserted(bytes, insertions)[x + inserted_up_to(insertions, x)]
                == #[trigger] bytes[x],
    decreases insertions.len(),
{
    if insertions.len() > 0 {
        let rest = insertions.drop_last();
        let last = insertions.last();
        let n = insertions.len() as int;
        assert forall|k: int| 0 <= k < rest.len() implies (#[trigger] rest[k]).offset <= bytes.len()
            && rest[k].offset >= last.offset by {
            assert(rest[k] == insertions[k]);
            assert(insertions[k].offset >= insertions[n - 1].offset);
        }
        assert(offsets_descend(rest)) by {
            assert forall|j: int, k: int| 0 <= j <= k < rest.len() implies (#[trigger] rest[j]).offset >= (
            #[trigger] rest[k]).offset by {
                assert(rest[j] == insertions[j]);
                assert(rest[k] == insertions[k]);
            }
        }
        lemma_inserted_high_to_low(bytes, rest);
        let before = inserted(bytes, rest);
        let after = inserted(bytes, insertions);
        assert(insertions[n - 1].offset <= bytes.len());
        assert forall|k: int| 0 <= k < n implies after[(#[trigger] insertions[k]).offset + (n - 1 - k)]
            == insertions[k].byte by {
            if k < n - 1 {
                assert(rest[k] == insertions[k]);
                assert(before[rest[k].offset + (rest.len() - 1 - k)] == rest[k].byte);
            }
        }
        assert forall|x: int| 0 <= x < bytes.len() implies after[x + inserted_up_to(insertions, x)]
            == #[trigger] bytes[x] by {
            lemma_inserted_up_to_bound(rest, x);
            assert(before[x + inserted_up_to(rest, x)] == bytes[x]);
            if last.offset > x {
                lemma_none_inserted_before(rest, x, last.offset as int);
            }
        }
    }
}

/// No more insertions stand up to an offset than there are.
proof fn lemma_inserted_up_to_bound(insertions: Seq<Insertion>, offset: int)
    ensures
        inserted_up_to(insertions, offset) <= insertions.len(),
    decreases insertions.len(),
{
    if insertions.len() > 0 {
        lemma_inserted_up_to_bound(insertions.drop_last(), offset);
    }
}

/// Insertions that all stand behind `offset` do not count up to it.
proof fn lemma_none_inserted_before(insertions: Seq<Insertion>, offset: int, low: int)
    requires
        offset < low,
        forall|k: int| 0 <= k < insertions.len() ==> (#[trigger] insertions[k]).offset >= low,
    ensures
        inserted_up_to(insertions, offset) == 0,
    decreases insertions.len(),
{
    if insertions.len() > 0 {
        let rest = insertions.drop_last();
        assert forall|k: int| 0 <= k < rest.len() implies (#[trigger] rest[k]).offset >= low by {
            assert(rest[k] == insertions[k]);
        }
        lemma_none_inserted_before(rest, offset, low);
        assert(insertions[insertions.len() - 1].offset >= low);
    }
}

/// Inserts the bytes into `data`, in the order given.
pub fn apply_insertions(data: &mut Vec<u8>, insertions: &Vec<Insertion>)
    requires
        insertions_fit(insertions@, old(data)@.len()),
    ensures
        final(data)@ == inserted(old(data)@, insertions@),
        final(data)@.len() == old(data)@.len() + insertions@.len(),
{
    let mut done: usize = 0;
    assert(insertions@.take(0) =~= Seq::<Insertion>::empty());
    while done < insertions.len()
        invariant
            done <= insertions@.len(),
            insertions_fit(insertions@, old(data)@.len()),
            data@.len() == old(data)@.len() + done,
            data@ == inserted(old(data)@, insertions@.take(done as int)),
        decreases insertions@.len() - done,
    {
        let insertion: Insertion = insertions[done];
        data.insert(insertion.offset, insertion.byte);
        proof {
            assert(insertions@.take(done + 1).drop_last() =~= insertions@.take(done as int));
            assert(insertions@.take(done + 1).last() == insertion);
        }
        done += 1;
    }
    assert(insertions@.take(done as int) =~= insertions@);
}

/// Each deletion finds its offset in the buffer as the ones before it left
/// it: a buffer of `len` bytes that has shrunk by one byte per deletion.
pub open spec fn deletions_fit(offsets: Seq<usize>, len: nat) -> bool {
    forall|k: int| 0 <= k < offsets.len() ==> (#[trigger] offsets[k]) + k < len
}

/// The buffer after the bytes at the offsets were removed one after the other.
pub open spec fn deleted(bytes: Seq<u8>, offsets: Seq<usize>) -> Seq<u8>
    decreases offsets.len(),
{
    if offsets.len() == 0 {
        bytes
    } else {
        deleted(bytes, offsets.drop_last()).remove(offsets.last() as int)
    }
}

/// Law: each deletion makes the buffer one byte shorter.
pub proof fn lemma_deleted_len(bytes: Seq<u8>, offsets: Seq<usize>)
    requires
        deletions_fit(offsets, bytes.len()),
    ensures
        deleted(bytes, offsets).len() == bytes.len() - offsets.len(),
    decreases offsets.len(),
{
    if offsets.len() > 0 {
        let rest = offsets.drop_last();
        assert forall|k: int| 0 <= k < rest.len() implies (#[trigger] rest[k]) + k < bytes.len() by {
            assert(rest[k] == offsets[k]);
        }
        lemma_deleted_len(bytes, rest);
        assert(offsets[offsets.len() - 1] + (offsets.len() - 1) < bytes.len());
    }
}

/// Law: deletions at offsets from `low` up to, and without, `high` leave
/// alone what stands before `low`. What stands so far behind `high` that no
/// deletion reaches it moves back by as many places as there are deletions.
pub proof fn lemma_deleted_ends(bytes: Seq<u8>, offsets: Seq<usize>, low: int, high: int)
    requires
        deletions_fit(offsets, bytes.len()),
        forall|k: int| 0 <= k < offsets.len() ==> low <= #[trigger] offsets[k] < high,
    ensures
        deleted(bytes, offsets).len() == bytes.len() - offsets.len(),
        forall|x: int|
            0 <= x < low && x < bytes.len() - offsets.len() ==> #[trigger] deleted(bytes, offsets)[x]
                == bytes[x],
        forall|x: int|
            0 <= x < bytes.len() && high + offsets.len() - 1 <= x ==> deleted(bytes, offsets)[x
                - offsets.len()] == #[trigger] bytes[x],
    decreases offsets.len(),
{
    if offsets.len() > 0 {
        let rest = offsets.drop_last();
        assert forall|k: int| 0 <= k < rest.len() implies (#[trigger] rest[k]) + k < bytes.len() && low
            <= rest[k] < high by {
            assert(rest[k] == offsets[k]);
        }
        lemma_deleted_ends(bytes, rest, low, high);
        let before = deleted(bytes, rest);
        assert(low <= offsets[offsets.len() - 1] < high);
        assert(offsets[offsets.len() - 1] + (offsets.len() - 1) < bytes.len());
        assert forall|x: int| 0 <= x < bytes.len() && high + offsets.len() - 1 <= x implies deleted(
            bytes,
            offsets,
        )[x - offsets.len()] == #[trigger] bytes[x] by {
            assert(before[x - rest.len()] == bytes[x]);
        }
    }
}

/// Removes from `data` the bytes at the offsets, in the order given.
pub fn apply_deletions(data: &mut Vec<u8>, offsets: &Vec<usize>)
    requires
        deletions_fit(offsets@, old(data)@.len()),
    ensures
        final(data)@ == deleted(old(data)@, offsets@),
        final(data)@.len() == old(data)@.len() - offsets@.len(),
{
    let mut done: usize = 0;
    assert(offsets@.take(0) =~= Seq::<usize>::empty());
    while done < offsets.len()
        invariant
            done <= offsets@.len(),
            deletions_fit(offsets@, old(data)@.len()),
            data@.len() == old(data)@.len() - done,
            data@ == deleted(old(data)@, offsets@.take(done as int)),
        decreases offsets@.len() - done,
    {
        let offset: usize = offsets[done];
        data.remove(offset);
        proof {
            assert(offsets@.take(done + 1).drop_last() =~= offsets@.take(done as int));
            assert(offsets@.take(done + 1).last() == offset);
        }
        done += 1;
    }
    assert(offsets@.take(done as int) =~= offsets@);
}

/// A mutation with all its choices made.
#[derive(Debug, PartialEq, Eq)]
pub enum Mutation {
    BitFlip(Vec<BitFlip>),
    Insertion(Vec<Insertion>),
    Deletion(Vec<usize>),
    Magic(MagicWrite),
}

impl Mutation {
    /// The strategy that the mutation belongs to.
    pub open spec fn kind(self) -> Strategy {
        match self {
            Mutation::BitFlip(_) => Strategy::BitFlip,
            Mutation::Insertion(_) => Strategy::Insertion,
            Mutation::Deletion(_) => Strategy::Deletion,
            Mutation::Magic(_) => Strategy::Magic,
        }
    }

    /// The mutation can be applied to a buffer of `len` bytes.
    pub open spec fn fits(self, len: nat) -> bool {
        match self {
            Mutation::BitFlip(flips) => flips_fit(flips@, len),
            Mutation::Insertion(insertions) => insertions_fit(insertions@, len),
            Mutation::Deletion(offsets) => deletions_fit(offsets@, len),
            Mutation::Magic(write) => write.offset + write.entry.width <= len,
        }
    }

    /// What the mutation makes of a buffer.
    pub open spec fn applied(self, bytes: Seq<u8>) -> Seq<u8> {
        match self {
            Mutation::BitFlip(flips) => flipped(bytes, flips@),
            Mutation::Insertion(insertions) => inserted(bytes, insertions@),
            Mutation::Deletion(offsets) => deleted(bytes, offsets@),
            Mutation::Magic(write) => overwritten(
                bytes,
                write.offset as int,
                write.entry.width as int,
                write.entry.value,
            ),
        }
    }

    /// By how many bytes the mutation makes a buffer longer; negative where
    /// it makes it shorter.
    pub open spec fn growth(self) -> int {
        match self {
            Mutation::BitFlip(_) => 0,
            Mutation::Insertion(insertions) => insertions@.len() as int,
            Mutation::Deletion(offsets) => -(offsets@.len() as int),
            Mutation::Magic(_) => 0,
        }
    }

    /// The strategy that the mutation belongs to.
    pub fn strategy(&self) -> (strategy: Strategy)
        ensures
            strategy == self.kind(),
    {
        match self {
            Mutation::BitFlip(_) => Strategy::BitFlip,
            Mutation::Insertion(_) => Strategy::Insertion,
            Mutation::Deletion(_) => Strategy::Deletion,
            Mutation::Magic(_) => Strategy::Magic,
        }
    }
}

/// Applies a mutation to `data`.
pub fn apply_mutation(data: &mut Vec<u8>, mutation: &Mutation)
    requires
        mutation.fits(old(data)@.len()),
    ensures
        final(data)@ == mutation.applied(old(data)@),
        final(data)@.len() == old(data)@.len() + mutation.growth(),
{
    match mutation {
        Mutation::BitFlip(flips) => apply_bit_flips(data, flips),
        Mutation::Insertion(insertions) => apply_insertions(data, insertions),
        Mutation::Deletion(offsets) => apply_deletions(data, offsets),
        Mutation::Magic(write) => apply_magic(data, *write),
    }
}

/// Law: bit flips and magic numbers keep a buffer's length; insertions and
/// deletions change it by one byte each.
pub proof fn lemma_applied_len(mutation: Mutation, bytes: Seq<u8>)
    requires
        mutation.fits(bytes.len()),
    ensures
        mutation.applied(bytes).len() == bytes.len() + mutation.growth(),
        mutation.kind() == Strategy::BitFlip || mutation.kind() == Strategy::Magic
            ==> mutation.applied(bytes).len() == bytes.len(),
{
    match mutation {
        Mutation::BitFlip(flips) => lemma_flipped_elsewhere(bytes, flips@),
        Mutation::Insertion(insertions) => lemma_inserted_len(bytes, insertions@),
        Mutation::Deletion(offsets) => lemma_deleted_len(bytes, offsets@),
        Mutation::Magic(write) => {},
    }
}

} // verus!
