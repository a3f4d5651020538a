//! Numbers that are written out are read back.

use vstd::prelude::*;

use crate::text;

verus! {

/// The digit of a number below ten.
pub open spec fn digit(number: nat) -> char {
    if number == 0 {
        '0'
    } else if number == 1 {
        '1'
    } else if number == 2 {
        '2'
    } else if number == 3 {
        '3'
    } else if number == 4 {
        '4'
    } else if number == 5 {
        '5'
    } else if number == 6 {
        '6'
    } else if number == 7 {
        '7'
    } else if number == 8 {
        '8'
    } else {
        '9'
    }
}

/// A number in decimal digits, without any in front that say nothing.
pub open spec fn numeral(number: nat) -> Seq<char>
    decreases number,
{
    if number < 10 {
        seq![digit(number)]
    } else {
        numeral(number / 10).push(digit(number % 10))
    }
}

pub proof fn lemma_numeral(number: nat)
    ensures
        text::is_decimal(numeral(number)),
        text::decimal(numeral(number)) == number,
    decreases number,
{
    let digits = numeral(number);
    if number < 10 {
        assert(digits.drop_last() =~= seq![]);
        assert(digits.last() == digit(number));
        reveal_with_fuel(text::decimal, 2);
    } else {
        lemma_numeral(number / 10);
        assert(digits.drop_last() =~= numeral(number / 10));
        assert(digits.last() == digit(number % 10));
        assert forall|i: int| 0 <= i < digits.len() implies text::is_digit(#[trigger] digits[i]) by {
            if i < digits.len() - 1 {
                assert(digits[i] == numeral(number / 10)[i]);
            }
        }
    }
}

/// A number is read back from its digits, also behind a plus sign, up to the
/// limit and no further; without digits there is none.
pub proof fn law_numbers_are_read_back(number: nat, limit: nat)
    ensures
        text::unsigned_number(numeral(number), limit) == if number <= limit {
            Some(number)
        } else {
            None
        },
        text::unsigned_number(seq!['+'] + numeral(number), limit) == if number <= limit {
            Some(number)
        } else {
            None
        },
        text::unsigned_number(seq!['-'] + numeral(number), limit) is None,
        text::unsigned_number(seq![], limit) is None,
{
    let digits = numeral(number);
    lemma_numeral(number);
    assert(text::is_digit(digits[0]));
    assert((seq!['+'] + digits).skip(1) =~= digits);
    let negative = seq!['-'] + digits;
    assert(!text::is_digit(negative[0]));
}

/// A signed number is read back from its digits behind a minus sign, behind a plus
/// sign or behind none, in the range of 32 bits.
pub proof fn law_signed_numbers_are_read_back(number: nat)
    ensures
        text::signed_number(numeral(number)) == if number <= 2147483647 {
            Some(number as int)
        } else {
            None
        },
        text::signed_number(seq!['+'] + numeral(number)) == if number <= 2147483647 {
            Some(number as int)
        } else {
            None
        },
        text::signed_number(seq!['-'] + numeral(number)) == if number <= 2147483648 {
            Some(-(number as int))
        } else {
            None
        },
{
    let digits = numeral(number);
    lemma_numeral(number);
    law_numbers_are_read_back(number, 2147483647);
    assert(text::is_digit(digits[0]));
    assert((seq!['-'] + digits).skip(1) =~= digits);
    assert((seq!['-'] + digits)[0] == '-');
    assert((seq!['+'] + digits)[0] == '+');
}

/// A text with anything but digits in it is no number.
pub proof fn law_other_text_is_no_number(text: Seq<char>, limit: nat, at: int)
    requires
        0 <= at < text.len(),
        !text::is_digit(text[at]),
        at > 0 || (text[0] != '+' && text[0] != '-'),
    ensures
        text::unsigned_number(text, limit) is None,
        text::signed_number(text) is None,
{
    if at > 0 {
        assert(text.skip(1)[at - 1] == text[at]);
    }
}

/// Texts are joined in their order, with the separator between each two.
pub proof fn law_texts_are_joined_in_order(
    first: Seq<Seq<char>>,
    last: Seq<char>,
    separator: Seq<char>,
)
    ensures
        text::joined(seq![last], separator) == last,
        first.len() > 0 ==> text::joined(first.push(last), separator) == text::joined(
            first,
            separator,
        ) + separator + last,
{
    assert(first.push(last).drop_last() =~= first);
}

} // verus!
