//! Text helpers shared by the parsers: comparison, joining and integers.

use vstd::prelude::*;
use vstd::utf8::*;

verus! {

/// `String::push`: appends the given character to the end of the string.
pub assume_specification[ String::push ](string: &mut String, character: char)
    ensures
        final(string)@ == old(string)@.push(character),
;

/// `String::from_utf8`: succeeds exactly on valid UTF-8, and the string then
/// holds the characters that the bytes encode.
#[verifier::external_body]
pub(crate) fn string_from_utf8(bytes: Vec<u8>) -> (result: Option<String>)
    ensures
        result is Some <==> valid_utf8(bytes@),
        result matches Some(text) ==> text@ == decode_utf8(bytes@),
{
    String::from_utf8(bytes).ok()
}

/// The texts that a list of strings holds.
pub open spec fn texts(list: Seq<String>) -> Seq<Seq<char>> {
    list.map_values(|text: String| text@)
}

/// Two texts with the same UTF-8 encoding are the same text.
proof fn lemma_encoding_is_injective(a: Seq<char>, b: Seq<char>)
    requires
        encode_utf8(a) == encode_utf8(b),
    ensures
        a == b,
{
    encode_utf8_decode_utf8(a);
    encode_utf8_decode_utf8(b);
}

/// Whether two strings hold the same text.
pub fn same_text(a: &str, b: &str) -> (same: bool)
    ensures
        same == (a@ == b@),
{
    let left = a.as_bytes();
    let right = b.as_bytes();
    if left.len() != right.len() {
        return false;
    }
    let mut index: usize = 0;
    while index < left.len()
        invariant
            left@ == encode_utf8(a@),
            right@ == encode_utf8(b@),
            left.len() == right.len(),
            index <= left.len(),
            forall|i: int| 0 <= i < index ==> left@[i] == right@[i],
        decreases left.len() - index,
    {
        if left[index] != right[index] {
            return false;
        }
        index += 1;
    }
    proof {
        assert(left@ =~= right@);
        lemma_encoding_is_injective(a@, b@);
    }
    true
}

/// The characters of a string.
pub fn characters(text: &str) -> (list: Vec<char>)
    ensures
        list@ == text@,
{
    let mut list: Vec<char> = Vec::new();
    for character in iter: text.chars()
        invariant
            list@ =~= iter.seq().take(iter.index() as int),
            iter.seq() == text@,
    {
        list.push(character);
    }
    list
}

/// The string made of the characters from `start` up to `end`.
pub fn string_of(list: &Vec<char>, start: usize, end: usize) -> (text: String)
    requires
        start <= end <= list@.len(),
    ensures
        text@ == list@.subrange(start as int, end as int),
{
    let mut text = String::new();
    let mut index = start;
    while index < end
        invariant
            start <= index <= end <= list@.len(),
            text@ =~= list@.subrange(start as int, index as int),
        decreases end - index,
    {
        text.push(list[index]);
        index += 1;
    }
    text
}

/// One text behind another.
pub fn concat(first: &str, second: &str) -> (text: String)
    ensures
        text@ == first@ + second@,
{
    let mut text = first.to_owned();
    text.append(second);
    text
}

/// Texts one after the other, with a separator between each two.
pub open spec fn joined(list: Seq<Seq<char>>, separator: Seq<char>) -> Seq<char>
    decreases list.len(),
{
    if list.len() == 0 {
        seq![]
    } else if list.len() == 1 {
        list[0]
    } else {
        joined(list.drop_last(), separator) + separator + list.last()
    }
}

pub fn join(list: &Vec<String>, separator: &str) -> (text: String)
    ensures
        text@ == joined(texts(list@), separator@),
{
    let ghost all = texts(list@);
    let mut text = String::new();
    let mut index: usize = 0;
    assert(all.take(0) =~= seq![]);
    while index < list.len()
        invariant
            index <= list@.len(),
            all == texts(list@),
            text@ =~= joined(all.take(index as int), separator@),
        decreases list@.len() - index,
    {
        if index > 0 {
            text.append(separator);
        }
        text.append(list[index].as_str());
        assert(all.take(index + 1).drop_last() =~= all.take(index as int));
        index += 1;
    }
    assert(all.take(index as int) =~= all);
    text
}

/// A copy of a list of strings, from the given position on.
pub fn strings_from(list: &[String], start: usize) -> (copy: Vec<String>)
    requires
        start <= list@.len(),
    ensures
        texts(copy@) == texts(list@).skip(start as int),
{
    let mut copy: Vec<String> = Vec::new();
    let mut index = start;
    while index < list.len()
        invariant
            start <= index <= list@.len(),
            texts(copy@) =~= texts(list@).subrange(start as int, index as int),
        decreases list@.len() - index,
    {
        let ghost before = copy@;
        copy.push(list[index].clone());
        assert(texts(copy@) =~= texts(before).push(list@[index as int]@));
        index += 1;
    }
    copy
}

// ---------------------------------------------------------------------------
// Numbers.

pub open spec fn is_digit(character: char) -> bool {
    '0' <= character <= '9'
}

/// The number that a run of decimal digits stands for.
pub open spec fn decimal(digits: Seq<char>) -> nat
    decreases digits.len(),
{
    if digits.len() == 0 {
        0
    } else {
        decimal(digits.drop_last()) * 10 + (digits.last() as nat - '0' as nat) as nat
    }
}

/// Whether a text is a run of decimal digits.
pub open spec fn is_decimal(digits: Seq<char>) -> bool {
    digits.len() > 0 && forall|i: int| 0 <= i < digits.len() ==> is_digit(#[trigger] digits[i])
}

/// The number that a text stands for: digits, behind an optional plus sign, no
/// larger than the limit.
pub open spec fn unsigned_number(text: Seq<char>, limit: nat) -> Option<nat> {
    let digits = if text.len() > 0 && text[0] == '+' {
        text.skip(1)
    } else {
        text
    };
    if is_decimal(digits) && decimal(digits) <= limit {
        Some(decimal(digits))
    } else {
        None
    }
}

/// The number that a text stands for: digits, behind an optional sign, in the
/// range of 32 bits.
pub open spec fn signed_number(text: Seq<char>) -> Option<int> {
    if text.len() > 0 && text[0] == '-' {
        let digits = text.skip(1);
        if is_decimal(digits) && decimal(digits) <= 2147483648 {
            Some(-decimal(digits))
        } else {
            None
        }
    } else {
        match unsigned_number(text, 2147483647) {
            Some(number) => Some(number as int),
            None => None,
        }
    }
}

proof fn lemma_decimal_grows(digits: Seq<char>, count: int)
    requires
        0 <= count <= digits.len(),
        forall|i: int| 0 <= i < digits.len() ==> is_digit(#[trigger] digits[i]),
    ensures
        decimal(digits.take(count)) <= decimal(digits),
    decreases digits.len(),
{
    if count < digits.len() {
        assert(digits.drop_last().take(count) =~= digits.take(count));
        lemma_decimal_grows(digits.drop_last(), count);
    } else {
        assert(digits.take(count) =~= digits);
    }
}

/// The number that the characters from `start` on stand for.
fn parse_digits(list: &Vec<char>, start: usize, limit: u64) -> (number: Option<u64>)
    requires
        start <= list@.len(),
        limit <= 10000000000,
    ensures
        match number {
            Some(value) => is_decimal(list@.skip(start as int)) && decimal(list@.skip(start as int))
                == value && value <= limit,
            None => !is_decimal(list@.skip(start as int)) || decimal(list@.skip(start as int))
                > limit,
        },
{
    let ghost digits = list@.skip(start as int);
    if start == list.len() {
        return None;
    }
    let mut value: u64 = 0;
    let mut index = start;
    assert(digits.take(0) =~= seq![]);
    while index < list.len()
        invariant
            start <= index <= list@.len(),
            start < list@.len(),
            digits == list@.skip(start as int),
            forall|i: int| 0 <= i < index - start ==> is_digit(#[trigger] digits[i]),
            value == decimal(digits.take(index - start)),
            value <= limit,
            limit <= 10000000000,
        decreases list@.len() - index,
    {
        let character = list[index];
        assert(digits[index - start] == character);
        if !('0' <= character && character <= '9') {
            return None;
        }
        assert(digits.take(index - start + 1).drop_last() =~= digits.take(index - start));
        let next: u64 = value * 10 + (character as u64 - '0' as u64);
        if next > limit {
            proof {
                if is_decimal(digits) {
                    lemma_decimal_grows(digits, index - start + 1);
                }
            }
            return None;
        }
        value = next;
        index += 1;
    }
    assert(digits.take(index - start) =~= digits);
    Some(value)
}

fn parse_unsigned(text: &str, limit: u64) -> (number: Option<u64>)
    requires
        limit <= 10000000000,
    ensures
        match unsigned_number(text@, limit as nat) {
            Some(value) => number matches Some(actual) && actual == value && actual <= limit,
            None => number is None,
        },
{
    let list = characters(text);
    if list.len() > 0 && list[0] == '+' {
        parse_digits(&list, 1, limit)
    } else {
        assert(list@.skip(0) =~= list@);
        parse_digits(&list, 0, limit)
    }
}

pub fn parse_u16(text: &str) -> (number: Option<u16>)
    ensures
        match unsigned_number(text@, 65535) {
            Some(value) => number matches Some(actual) && actual == value,
            None => number is None,
        },
{
    match parse_unsigned(text, 65535) {
        Some(value) => Some(value as u16),
        None => None,
    }
}

pub fn parse_u32(text: &str) -> (number: Option<u32>)
    ensures
        match unsigned_number(text@, 4294967295) {
            Some(value) => number matches Some(actual) && actual == value,
            None => number is None,
        },
{
    match parse_unsigned(text, 4294967295) {
        Some(value) => Some(value as u32),
        None => None,
    }
}

pub fn parse_i32(text: &str) -> (number: Option<i32>)
    ensures
        match signed_number(text@) {
            Some(value) => number matches Some(actual) && actual == value,
            None => number is None,
        },
{
    let list = characters(text);
    if list.len() > 0 && list[0] == '-' {
        match parse_digits(&list, 1, 2147483648) {
            Some(value) => Some((0 - value as i64) as i32),
            None => None,
        }
    } else {
        match parse_unsigned(text, 2147483647) {
            Some(value) => Some(value as i32),
            None => None,
        }
    }
}

} // verus!
