//! Building file names: numbers in decimal, and suffixes.

use vstd::prelude::*;
use vstd::string::*;

verus! {

/// An optional text as an optional sequence of characters.
pub open spec fn text_of(found: Option<String>) -> Option<Seq<char>> {
    match found {
        Some(text) => Some(text@),
        None => None,
    }
}

/// The character of a decimal digit.
pub open spec fn digit_char(digit: nat) -> char {
    if digit == 0 {
        '0'
    } else if digit == 1 {
        '1'
    } else if digit == 2 {
        '2'
    } else if digit == 3 {
        '3'
    } else if digit == 4 {
        '4'
    } else if digit == 5 {
        '5'
    } else if digit == 6 {
        '6'
    } else if digit == 7 {
        '7'
    } else if digit == 8 {
        '8'
    } else {
        '9'
    }
}

/// A number written in decimal, without leading zeros.
pub open spec fn decimal_text(number: nat) -> Seq<char>
    decreases number,
{
    if number < 10 {
        seq![digit_char(number)]
    } else {
        decimal_text(number / 10).push(digit_char(number % 10))
    }
}

/// The digits in the order in which they are written: `digits` holds them
/// from the last to the first.
spec fn written(digits: Seq<u128>) -> Seq<char> {
    Seq::new(digits.len(), |k: int| digit_char(digits[digits.len() - 1 - k] as nat))
}

/// A digit as a text of one character.
fn digit_str(digit: u128) -> (text: &'static str)
    requires
        digit < 10,
    ensures
        text@ == seq![digit_char(digit as nat)],
{
    proof {
        reveal_strlit("0");
        reveal_strlit("1");
        reveal_strlit("2");
        reveal_strlit("3");
        reveal_strlit("4");
        reveal_strlit("5");
        reveal_strlit("6");
        reveal_strlit("7");
        reveal_strlit("8");
        reveal_strlit("9");
    }
    let text = if digit == 0 {
        "0"
    } else if digit == 1 {
        "1"
    } else if digit == 2 {
        "2"
    } else if digit == 3 {
        "3"
    } else if digit == 4 {
        "4"
    } else if digit == 5 {
        "5"
    } else if digit == 6 {
        "6"
    } else if digit == 7 {
        "7"
    } else if digit == 8 {
        "8"
    } else {
        "9"
    };
    assert(text@ =~= seq![digit_char(digit as nat)]);
    text
}

/// Writes `number` in decimal at the end of `text`.
pub fn append_decimal(text: &mut String, number: u128)
    ensures
        final(text)@ == old(text)@ + decimal_text(number as nat),
{
    let mut digits: Vec<u128> = Vec::new();
    let mut rest: u128 = number;
    assert(decimal_text(rest as nat) + written(digits@) =~= decimal_text(number as nat));
    while rest >= 10
        invariant
            decimal_text(number as nat) == decimal_text(rest as nat) + written(digits@),
            forall|k: int| 0 <= k < digits@.len() ==> digits@[k] < 10,
        decreases rest,
    {
        let ghost before = digits@;
        digits.push(rest % 10);
        proof {
            assert(written(digits@) =~= seq![digit_char((rest % 10) as nat)] + written(before));
            assert(decimal_text(rest as nat) == decimal_text((rest / 10) as nat).push(
                digit_char((rest % 10) as nat),
            ));
            assert(decimal_text((rest / 10) as nat).push(digit_char((rest % 10) as nat)) + written(
                before,
            ) =~= decimal_text((rest / 10) as nat) + written(digits@));
        }
        rest = rest / 10;
    }
    text.append(digit_str(rest));
    let mut left: usize = digits.len();
    assert(written(digits@).take(0) =~= Seq::<char>::empty());
    while left > 0
        invariant
            left <= digits@.len(),
            forall|k: int| 0 <= k < digits@.len() ==> digits@[k] < 10,
            text@ == old(text)@ + decimal_text(rest as nat) + written(digits@).take(
                digits@.len() - left,
            ),
        decreases left,
    {
        left -= 1;
        text.append(digit_str(digits[left]));
        assert(written(digits@).take(digits@.len() - left) =~= written(digits@).take(
            digits@.len() - left - 1,
        ).push(digit_char(digits@[left as int] as nat)));
    }
    assert(written(digits@).take(digits@.len() as int) =~= written(digits@));
}

/// The digit that a character stands for; zero for a character that is
/// no digit.
pub open spec fn digit_value(character: char) -> nat {
    if character == '1' {
        1
    } else if character == '2' {
        2
    } else if character == '3' {
        3
    } else if character == '4' {
        4
    } else if character == '5' {
        5
    } else if character == '6' {
        6
    } else if character == '7' {
        7
    } else if character == '8' {
        8
    } else if character == '9' {
        9
    } else {
        0
    }
}

/// The number that a text of digits stands for.
pub open spec fn decimal_value(text: Seq<char>) -> nat
    decreases text.len(),
{
    if text.len() == 0 {
        0
    } else {
        decimal_value(text.drop_last()) * 10 + digit_value(text.last())
    }
}

/// Law: a number is read back from its decimal text.
pub proof fn lemma_decimal_reads_back(number: nat)
    ensures
        decimal_value(decimal_text(number)) == number,
    decreases number,
{
    if number < 10 {
        let text = decimal_text(number);
        assert(text.drop_last() =~= Seq::<char>::empty());
        assert(decimal_value(text.drop_last()) == 0);
        assert(text.last() == digit_char(number));
    } else {
        lemma_decimal_reads_back(number / 10);
        let text = decimal_text(number);
        assert(text.drop_last() =~= decimal_text(number / 10));
        assert(text.last() == digit_char(number % 10));
    }
}

/// Law: two numbers with the same decimal text are the same number.
pub proof fn lemma_decimal_texts_differ(first: nat, second: nat)
    requires
        first != second,
    ensures
        decimal_text(first) != decimal_text(second),
{
    lemma_decimal_reads_back(first);
    lemma_decimal_reads_back(second);
}

/// Law: a decimal text holds digits only, and so no period.
pub proof fn lemma_decimal_holds_no_period(number: nat)
    ensures
        forall|i: int| 0 <= i < decimal_text(number).len() ==> #[trigger] decimal_text(number)[i] != '.',
    decreases number,
{
    let text = decimal_text(number);
    if number >= 10 {
        lemma_decimal_holds_no_period(number / 10);
        let front = decimal_text(number / 10);
        assert forall|i: int| 0 <= i < text.len() implies #[trigger] text[i] != '.' by {
            if i < front.len() {
                assert(text[i] == front[i]);
            } else {
                assert(text[i] == digit_char(number % 10));
            }
        }
    } else {
        assert forall|i: int| 0 <= i < text.len() implies #[trigger] text[i] != '.' by {
            assert(text[i] == digit_char(number));
        }
    }
}

/// Law: two texts that end alike, behind two different numbers that each
/// follow a period, are two different texts.
pub proof fn lemma_numbered_texts_differ(
    first_front: Seq<char>,
    first: nat,
    second_front: Seq<char>,
    second: nat,
    ending: Seq<char>,
)
    requires
        first != second,
        first_front.len() > 0 && first_front.last() == '.',
        second_front.len() > 0 && second_front.last() == '.',
    ensures
        first_front + decimal_text(first) + ending != second_front + decimal_text(second) + ending,
{
    let a = decimal_text(first);
    let b = decimal_text(second);
    let one = first_front + a + ending;
    let two = second_front + b + ending;
    lemma_decimal_texts_differ(first, second);
    lemma_decimal_holds_no_period(first);
    lemma_decimal_holds_no_period(second);
    if one == two {
        assert(one.len() == first_front.len() + a.len() + ending.len());
        assert(two.len() == second_front.len() + b.len() + ending.len());
        if a.len() == b.len() {
            assert(a =~= one.subrange(first_front.len() as int, (first_front.len() + a.len()) as int));
            assert(b =~= two.subrange(second_front.len() as int, (second_front.len() + b.len()) as int));
        } else if a.len() < b.len() {
            let i = first_front.len() - 1;
            assert(one[i] == first_front[i]);
            assert(two[i] == b[i - second_front.len()]);
        } else {
            let i = second_front.len() - 1;
            assert(two[i] == second_front[i]);
            assert(one[i] == a[i - first_front.len()]);
        }
    }
}

/// Whether the two texts are the same.
pub fn same_text(left: &str, right: &str) -> (same: bool)
    ensures
        same == (left@ == right@),
{
    let left_owned: String = left.to_owned();
    let right_owned: String = right.to_owned();
    left_owned == right_owned
}

/// `text` ends with `suffix`.
pub open spec fn ends_with(text: Seq<char>, suffix: Seq<char>) -> bool {
    suffix.len() <= text.len() && text.subrange(text.len() - suffix.len(), text.len() as int)
        == suffix
}

/// `text` without its last `count` characters.
pub open spec fn shortened(text: Seq<char>, count: nat) -> Seq<char> {
    text.subrange(0, text.len() - count)
}

/// `text` without `suffix` at its end, where it ends with it.
pub fn without_suffix(text: &str, suffix: &str) -> (stem: Option<String>)
    ensures
        match stem {
            Some(rest) => ends_with(text@, suffix@) && rest@ == shortened(text@, suffix@.len()),
            None => !ends_with(text@, suffix@),
        },
{
    let text_len: usize = text.unicode_len();
    let suffix_len: usize = suffix.unicode_len();
    if suffix_len > text_len {
        return None;
    }
    let end: &str = text.substring_char(text_len - suffix_len, text_len);
    if same_text(end, suffix) {
        Some(text.substring_char(0, text_len - suffix_len).to_owned())
    } else {
        None
    }
}

} // verus!
