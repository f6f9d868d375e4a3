//! Bytes as lists of bits, most significant bit first.

use vstd::prelude::*;

verus! {

/// The eight bits of `number`, most significant first, each as `0` or `1`.
pub open spec fn bits_of(number: u8) -> Seq<u8> {
    Seq::new(8, |i: int| (number >> ((7 - i) as u8)) & 1)
}

/// What position `i` of a bit list adds to the byte it stands for: the bit
/// of weight `2^(7 - i)` where the entry is `1`, nothing otherwise.
pub open spec fn bit_weight(bits: Seq<u8>, i: int) -> u8 {
    if 0 <= i < bits.len() && i < 8 && bits[i] == 1 {
        1u8 << ((7 - i) as u8)
    } else {
        0u8
    }
}

/// The byte made of the first `n` positions of `bits`.
pub open spec fn byte_of_prefix(bits: Seq<u8>, n: nat) -> u8
    decreases n,
{
    if n == 0 {
        0u8
    } else {
        byte_of_prefix(bits, (n - 1) as nat) | bit_weight(bits, n - 1)
    }
}

/// The byte that a bit list stands for. Only the first eight positions
/// count, and an entry other than `1` counts as `0`.
pub open spec fn byte_of_bits(bits: Seq<u8>) -> u8 {
    byte_of_prefix(bits, 8)
}

/// Takes a byte apart into its eight bits, most significant first.
pub fn to_bits(number: u8) -> (bits: Vec<u8>)
    ensures
        bits@ == bits_of(number),
{
    let mut bits: Vec<u8> = Vec::with_capacity(8);
    let mut i: u8 = 0;
    while i < 8
        invariant
            i <= 8,
            bits@.len() == i,
            forall|k: int| 0 <= k < i ==> bits@[k] == (number >> ((7 - k) as u8)) & 1,
        decreases 8 - i,
    {
        bits.push((number >> (7 - i)) & 1);
        i += 1;
    }
    assert(bits@ =~= bits_of(number));
    bits
}

/// The entries from position 8 on never count as set bits.
pub open spec fn no_bit_past_eighth(bits: Seq<u8>) -> bool {
    forall|i: int| 8 <= i < bits.len() ==> bits[i] != 1
}

/// Puts a byte together from a bit list, most significant bit first. A
/// list of fewer than eight entries stands for the high bits of the byte.
pub fn to_u8(bits: &[u8]) -> (answer: u8)
    requires
        no_bit_past_eighth(bits@),
    ensures
        answer == byte_of_bits(bits@),
{
    let mut answer: u8 = 0;
    let mut index: usize = 0;
    while index < bits.len()
        invariant
            index <= bits@.len(),
            no_bit_past_eighth(bits@),
            answer == byte_of_prefix(bits@, if index < 8 { index as nat } else { 8 }),
        decreases bits@.len() - index,
    {
        let bit: u8 = bits[index];
        if bit == 1 {
            answer |= bit << (7 - index);
        } else {
            assert(answer | 0u8 == answer) by (bit_vector);
        }
        index += 1;
    }
    proof {
        lemma_prefix_past_end(bits@);
    }
    answer
}

/// Positions past the end of a bit list add nothing.
proof fn lemma_prefix_past_end(bits: Seq<u8>)
    ensures
        byte_of_prefix(bits, 8) == byte_of_prefix(
            bits,
            if bits.len() < 8 {
                bits.len()
            } else {
                8
            },
        ),
{
    reveal_with_fuel(byte_of_prefix, 9);
    assert(forall|x: u8| x | 0u8 == x) by (bit_vector);
}

/// The byte with only the bit at list position `position` set.
pub open spec fn bit_mask(position: int) -> u8 {
    1u8 << ((7 - position) as u8)
}

/// `byte` with the bit at list position `position` inverted.
pub open spec fn with_bit_flipped(byte: u8, position: int) -> u8 {
    byte ^ bit_mask(position)
}

/// Inverts one bit of `byte`: the one at `position` of its bit list, so
/// position 0 is the most significant bit.
pub fn flip_bit(byte: u8, position: usize) -> (flipped: u8)
    requires
        position < 8,
    ensures
        flipped == with_bit_flipped(byte, position as int),
        flipped != byte,
{
    let mut bits: Vec<u8> = to_bits(byte);
    let entry: u8 = bits[position];
    bits.set(position, entry ^ 1);
    proof {
        lemma_flip_entry(byte, position as int);
        assert(bits@ =~= bits_of(byte).update(position as int, bits_of(byte)[position as int] ^ 1));
        lemma_flip_changes(byte, position as int);
    }
    to_u8(bits.as_slice())
}

/// The weight that a single bit value carries at list position `i`.
spec fn entry_weight(bit: u8, i: u8) -> u8 {
    if bit == 1 {
        1u8 << (7 - i) as u8
    } else {
        0u8
    }
}

/// The bit of `number` at list position `i`, inverted where `i` is `flip`.
spec fn entry_after_flip(number: u8, i: u8, flip: u8) -> u8 {
    if i == flip {
        ((number >> (7 - i) as u8) & 1) ^ 1
    } else {
        (number >> (7 - i) as u8) & 1
    }
}

/// The eight bits of a byte, one of them inverted if `flip` names one, put
/// together again.
proof fn lemma_assemble_flipped(number: u8, flip: u8)
    by (bit_vector)
    ensures
        flip < 8 ==> entry_weight(entry_after_flip(number, 0, flip), 0) | entry_weight(
            entry_after_flip(number, 1, flip),
            1,
        ) | entry_weight(entry_after_flip(number, 2, flip), 2) | entry_weight(
            entry_after_flip(number, 3, flip),
            3,
        ) | entry_weight(entry_after_flip(number, 4, flip), 4) | entry_weight(
            entry_after_flip(number, 5, flip),
            5,
        ) | entry_weight(entry_after_flip(number, 6, flip), 6) | entry_weight(
            entry_after_flip(number, 7, flip),
            7,
        ) == number ^ (1u8 << (7 - flip) as u8),
        flip >= 8 ==> entry_weight(entry_after_flip(number, 0, flip), 0) | entry_weight(
            entry_after_flip(number, 1, flip),
            1,
        ) | entry_weight(entry_after_flip(number, 2, flip), 2) | entry_weight(
            entry_after_flip(number, 3, flip),
            3,
        ) | entry_weight(entry_after_flip(number, 4, flip), 4) | entry_weight(
            entry_after_flip(number, 5, flip),
            5,
        ) | entry_weight(entry_after_flip(number, 6, flip), 6) | entry_weight(
            entry_after_flip(number, 7, flip),
            7,
        ) == number,
{
}

/// Law: a byte is the byte that its own bit list stands for.
pub proof fn lemma_bits_round_trip(number: u8)
    ensures
        byte_of_bits(bits_of(number)) == number,
{
    reveal_with_fuel(byte_of_prefix, 9);
    lemma_assemble_flipped(number, 8);
    assert(0u8 | entry_weight(entry_after_flip(number, 0, 8), 0) == entry_weight(
        entry_after_flip(number, 0, 8),
        0,
    )) by (bit_vector);
}

/// Law: a byte's bit list with entry `position` inverted stands for the
/// byte with exactly that bit inverted.
pub proof fn lemma_flip_entry(number: u8, position: int)
    requires
        0 <= position < 8,
    ensures
        byte_of_bits(bits_of(number).update(position, bits_of(number)[position] ^ 1))
            == with_bit_flipped(number, position),
{
    reveal_with_fuel(byte_of_prefix, 9);
    let flip = position as u8;
    lemma_assemble_flipped(number, flip);
    assert(0u8 | entry_weight(entry_after_flip(number, 0, flip), 0) == entry_weight(
        entry_after_flip(number, 0, flip),
        0,
    )) by (bit_vector);
}

/// Law: inverting a bit changes the byte, and only in that one bit; doing
/// it again gives the byte back.
pub proof fn lemma_flip_changes(byte: u8, position: int)
    requires
        0 <= position < 8,
    ensures
        with_bit_flipped(byte, position) != byte,
        with_bit_flipped(byte, position) ^ byte == bit_mask(position),
        bit_mask(position) == 0x80u8 >> (position as u8),
        with_bit_flipped(with_bit_flipped(byte, position), position) == byte,
{
    let p = position as u8;
    assert(p < 8 ==> (byte ^ (1u8 << (7 - p) as u8)) != byte && (byte ^ (1u8 << (7 - p) as u8))
        ^ byte == (1u8 << (7 - p) as u8) && ((byte ^ (1u8 << (7 - p) as u8)) ^ (1u8 << (7
        - p) as u8)) == byte && (1u8 << (7 - p) as u8) == 0x80u8 >> p) by (bit_vector);
}

} // verus!
