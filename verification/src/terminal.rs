//! Normalising the output of a pane before the emulator sees it.

use vstd::prelude::*;
use vstd::utf8::*;

use crate::geometry::Size;
use crate::protocol::wire;
use crate::emulator::{self, History, Parser, Part};
use crate::unicode::{self, cut_short, scalar_length, valid_up_to};

verus! {

// ---------------------------------------------------------------------------
// Escape sequences.

/// The end of a control sequence: behind its first letter or sign from `@` to
/// `~`.
pub open spec fn control_end(bytes: Seq<u8>, at: int) -> Option<int>
    decreases bytes.len() - at,
{
    if at >= bytes.len() {
        None
    } else if 0x40 <= bytes[at] <= 0x7e {
        Some(at + 1)
    } else {
        control_end(bytes, at + 1)
    }
}

/// The end of a string sequence: behind the first bell, or behind the first
/// escape if that has a backslash behind it.
pub open spec fn string_end(bytes: Seq<u8>, at: int) -> Option<int>
    decreases bytes.len() - at,
{
    if at >= bytes.len() {
        None
    } else if bytes[at] == 0x07 {
        Some(at + 1)
    } else if bytes[at] == 0x1b {
        if at + 1 < bytes.len() && bytes[at + 1] == 0x5c {
            Some(at + 2)
        } else {
            None
        }
    } else {
        string_end(bytes, at + 1)
    }
}

/// Whether a byte behind an escape starts a string.
pub open spec fn starts_string(kind: u8) -> bool {
    kind == 0x5d || kind == 0x50 || kind == 0x5e || kind == 0x5f
}

/// The end of the escape sequence that starts at a position, if it is complete.
pub open spec fn sequence_end(bytes: Seq<u8>, start: int) -> Option<int> {
    if start + 1 >= bytes.len() {
        None
    } else if bytes[start + 1] == 0x5b {
        control_end(bytes, start + 2)
    } else if starts_string(bytes[start + 1]) {
        string_end(bytes, start + 2)
    } else if bytes[start + 1] == 0x23 {
        if start + 2 < bytes.len() {
            Some(start + 3)
        } else {
            None
        }
    } else {
        Some(start + 2)
    }
}

pub proof fn lemma_control_end(bytes: Seq<u8>, at: int)
    ensures
        control_end(bytes, at) matches Some(end) ==> at < end <= bytes.len(),
    decreases bytes.len() - at,
{
    if at < bytes.len() {
        lemma_control_end(bytes, at + 1);
    }
}

pub proof fn lemma_string_end(bytes: Seq<u8>, at: int)
    ensures
        string_end(bytes, at) matches Some(end) ==> at < end <= bytes.len(),
    decreases bytes.len() - at,
{
    if at < bytes.len() {
        lemma_string_end(bytes, at + 1);
    }
}

pub proof fn lemma_sequence_end(bytes: Seq<u8>, start: int)
    ensures
        sequence_end(bytes, start) matches Some(end) ==> start + 1 < end <= bytes.len(),
{
    lemma_control_end(bytes, start + 2);
    lemma_string_end(bytes, start + 2);
}

proof fn lemma_control_end_prefix(bytes: Seq<u8>, count: int, at: int)
    requires
        0 <= count <= bytes.len(),
        0 <= at,
    ensures
        control_end(bytes.take(count), at) matches Some(end) ==> control_end(
            bytes,
            at,
        ) == Some(end),
        control_end(bytes, at) matches Some(end) ==> end <= count
            ==> control_end(bytes.take(count), at) == Some(end),
    decreases bytes.len() - at,
{
    lemma_control_end(bytes, at);
    if at < bytes.len() {
        lemma_control_end_prefix(bytes, count, at + 1);
        lemma_control_end(bytes, at + 1);
    }
}

proof fn lemma_string_end_prefix(bytes: Seq<u8>, count: int, at: int)
    requires
        0 <= count <= bytes.len(),
        0 <= at,
    ensures
        string_end(bytes.take(count), at) matches Some(end) ==> string_end(
            bytes,
            at,
        ) == Some(end),
        string_end(bytes, at) matches Some(end) ==> end <= count ==> string_end(
            bytes.take(count),
            at,
        ) == Some(end),
    decreases bytes.len() - at,
{
    lemma_string_end(bytes, at);
    if at < bytes.len() {
        lemma_string_end_prefix(bytes, count, at + 1);
        lemma_string_end(bytes, at + 1);
    }
}

/// A sequence that is complete in the first bytes is the same in all of them,
/// and one that ends among the first bytes is complete there.
pub proof fn lemma_sequence_end_prefix(bytes: Seq<u8>, count: int, start: int)
    requires
        0 <= count <= bytes.len(),
        0 <= start < count,
    ensures
        sequence_end(bytes.take(count), start) matches Some(end)
            ==> sequence_end(bytes, start) == Some(end),
        sequence_end(bytes, start) matches Some(end) ==> end <= count
            ==> sequence_end(bytes.take(count), start) == Some(end),
{
    lemma_control_end_prefix(bytes, count, start + 2);
    lemma_string_end_prefix(bytes, count, start + 2);
    lemma_sequence_end(bytes, start);
    lemma_sequence_end(bytes.take(count), start);
}

/// Whether a string can no longer end: its first escape has something other than
/// a backslash behind it, and no bell stands before that.
pub open spec fn is_broken(bytes: Seq<u8>, at: int) -> bool
    decreases bytes.len() - at,
{
    if at >= bytes.len() || bytes[at] == 0x07 {
        false
    } else if bytes[at] == 0x1b {
        at + 1 < bytes.len() && bytes[at + 1] != 0x5c
    } else {
        is_broken(bytes, at + 1)
    }
}

/// Whether the escape sequence that starts at a position is not complete, and may
/// still become so.
pub open spec fn is_open_sequence(bytes: Seq<u8>, start: int) -> bool {
    &&& sequence_end(bytes, start) is None
    &&& !(start + 1 < bytes.len() && starts_string(bytes[start + 1]) && is_broken(bytes, start + 2))
}

/// Whether the unit of output that starts at a position may still be completed: a
/// sequence, or a character that the bytes end before.
pub open spec fn is_open(bytes: Seq<u8>, at: int) -> bool {
    if bytes[at] == 0x1b {
        is_open_sequence(bytes, at)
    } else {
        unicode::is_cut_short(bytes.skip(at))
    }
}

/// Where the unit of output that starts at a position ends: a sequence that is
/// complete, a character, or a byte that is neither.
pub open spec fn unit_end(bytes: Seq<u8>, at: int) -> int {
    if bytes[at] == 0x1b && sequence_end(bytes, at) is Some {
        sequence_end(bytes, at)->0
    } else if bytes[at] >= 0x80 && valid_first_scalar(bytes.skip(at)) {
        at + length_of_first_scalar(bytes.skip(at))
    } else {
        at + 1
    }
}

pub proof fn lemma_unit_end(bytes: Seq<u8>, at: int)
    requires
        0 <= at < bytes.len(),
    ensures
        at < unit_end(bytes, at) <= bytes.len(),
{
    lemma_sequence_end(bytes, at);
    unicode::lemma_scalar_shape(bytes.skip(at));
}

/// The first position from a given one on at which a unit starts that may still
/// be completed; behind all bytes if there is none.
pub open spec fn ready_from(bytes: Seq<u8>, at: int) -> int
    decreases bytes.len() - at,
    when 0 <= at
    via ready_from_decreases
{
    if at >= bytes.len() {
        bytes.len() as int
    } else if is_open(bytes, at) {
        at
    } else {
        ready_from(bytes, unit_end(bytes, at))
    }
}

#[via_fn]
proof fn ready_from_decreases(bytes: Seq<u8>, at: int) {
    if at < bytes.len() {
        lemma_unit_end(bytes, at);
    }
}

/// How many of the bytes that have come can be handed on: up to the first unit
/// that may still be completed.
pub open spec fn ready_length(bytes: Seq<u8>) -> int {
    ready_from(bytes, 0)
}

pub proof fn lemma_ready_from(bytes: Seq<u8>, at: int)
    requires
        0 <= at <= bytes.len(),
    ensures
        at <= ready_from(bytes, at) <= bytes.len(),
        ready_from(bytes, at) < bytes.len() ==> is_open(bytes, ready_from(bytes, at)),
    decreases bytes.len() - at,
{
    if at < bytes.len() && !is_open(bytes, at) {
        lemma_unit_end(bytes, at);
        lemma_ready_from(bytes, unit_end(bytes, at));
    }
}

/// Whether the last escape of bytes stands at a position, and its sequence is not
/// complete.
pub open spec fn is_last_open_escape(bytes: Seq<u8>, at: int) -> bool {
    &&& 0 <= at < bytes.len()
    &&& bytes[at] == 0x1b
    &&& forall|i: int| at < i < bytes.len() ==> bytes[i] != 0x1b
    &&& sequence_end(bytes, at) is None
}

/// Whether bytes are UTF-8 up to a position, and end behind it before the
/// character that starts there does.
pub open spec fn is_cut_character(bytes: Seq<u8>, at: int) -> bool {
    &&& 0 <= at < bytes.len()
    &&& valid_utf8(bytes.take(at))
    &&& unicode::is_cut_short(bytes.skip(at))
}

pub open spec fn position_view(position: Option<usize>) -> Option<int> {
    match position {
        Some(value) => Some(value as int),
        None => None,
    }
}

fn find_control_end(bytes: &[u8], start: usize) -> (end: Option<usize>)
    requires
        start <= bytes@.len(),
    ensures
        position_view(end) == control_end(bytes@, start as int),
{
    let mut at: usize = start;
    while at < bytes.len()
        invariant
            start <= at <= bytes@.len(),
            control_end(bytes@, start as int) == control_end(bytes@, at as int),
        decreases bytes@.len() - at,
    {
        if 0x40 <= bytes[at] && bytes[at] <= 0x7e {
            return Some(at + 1);
        }
        at += 1;
    }
    None
}

fn find_string_end(bytes: &[u8], start: usize) -> (end: Option<usize>)
    requires
        start <= bytes@.len(),
    ensures
        position_view(end) == string_end(bytes@, start as int),
{
    let mut at: usize = start;
    while at < bytes.len()
        invariant
            start <= at <= bytes@.len(),
            string_end(bytes@, start as int) == string_end(bytes@, at as int),
        decreases bytes@.len() - at,
    {
        if bytes[at] == 0x07 {
            return Some(at + 1);
        }
        if bytes[at] == 0x1b {
            return if at + 1 < bytes.len() && bytes[at + 1] == 0x5c {
                Some(at + 2)
            } else {
                None
            };
        }
        at += 1;
    }
    None
}

pub fn escape_end(bytes: &[u8], start: usize) -> (end: Option<usize>)
    requires
        start < bytes@.len(),
    ensures
        position_view(end) == sequence_end(bytes@, start as int),
        end matches Some(position) ==> start + 1 < position <= bytes@.len(),
{
    proof {
        lemma_sequence_end(bytes@, start as int);
    }
    if bytes.len() - start < 2 {
        return None;
    }
    let kind: u8 = bytes[start + 1];
    if kind == 0x5b {
        find_control_end(bytes, start + 2)
    } else if kind == 0x5d || kind == 0x50 || kind == 0x5e || kind == 0x5f {
        find_string_end(bytes, start + 2)
    } else if kind == 0x23 {
        if bytes.len() - start > 2 {
            Some(start + 3)
        } else {
            None
        }
    } else {
        Some(start + 2)
    }
}

/// Whether a string can no longer end.
fn broken(bytes: &[u8], start: usize) -> (result: bool)
    requires
        start <= bytes@.len(),
    ensures
        result == is_broken(bytes@, start as int),
{
    let mut at: usize = start;
    while at < bytes.len()
        invariant
            start <= at <= bytes@.len(),
            is_broken(bytes@, start as int) == is_broken(bytes@, at as int),
        decreases bytes@.len() - at,
    {
        if bytes[at] == 0x07 {
            return false;
        }
        if bytes[at] == 0x1b {
            return bytes.len() - at > 1 && bytes[at + 1] != 0x5c;
        }
        at += 1;
    }
    false
}

/// Where the unit that starts at a position ends; nothing where it may still be
/// completed.
fn next_unit(bytes: &[u8], at: usize) -> (end: Option<usize>)
    requires
        at < bytes@.len(),
    ensures
        end is None <==> is_open(bytes@, at as int),
        end matches Some(position) ==> position == unit_end(bytes@, at as int) && at < position
            <= bytes@.len(),
{
    proof {
        lemma_unit_end(bytes@, at as int);
        unicode::lemma_scalar_shape(bytes@.skip(at as int));
    }
    let first: u8 = bytes[at];
    assert(bytes@.skip(at as int)[0] == first);
    if first == 0x1b {
        match escape_end(bytes, at) {
            Some(end) => Some(end),
            None => {
                if bytes.len() - at > 2 {
                    let kind: u8 = bytes[at + 1];
                    if (kind == 0x5d || kind == 0x50 || kind == 0x5e || kind == 0x5f) && broken(
                        bytes,
                        at + 2,
                    ) {
                        return Some(at + 1);
                    }
                }
                None
            },
        }
    } else if cut_short(bytes, at) {
        None
    } else {
        let length: usize = scalar_length(bytes, at);
        if length > 0 {
            Some(at + length)
        } else {
            Some(at + 1)
        }
    }
}

/// How many of the bytes that have come can be handed on.
fn ready_bytes(bytes: &[u8]) -> (length: usize)
    ensures
        length == ready_length(bytes@),
        length <= bytes@.len(),
{
    let mut at: usize = 0;
    while at < bytes.len()
        invariant
            at <= bytes@.len(),
            ready_length(bytes@) == ready_from(bytes@, at as int),
        decreases bytes@.len() - at,
    {
        match next_unit(bytes, at) {
            Some(end) => {
                at = end;
            },
            None => return at,
        }
    }
    at
}

/// Where the last escape of bytes stands, if its sequence is not complete.
pub fn incomplete_escape_start(bytes: &[u8]) -> (start: Option<usize>)
    ensures
        forall|at: usize|
            (start == Some(at)) == #[trigger] is_last_open_escape(bytes@, at as int),
{
    let mut before: usize = bytes.len();
    while before > 0
        invariant
            before <= bytes@.len(),
            forall|i: int| before <= i < bytes@.len() ==> bytes@[i] != 0x1b,
        decreases before,
    {
        before -= 1;
        if bytes[before] == 0x1b {
            return if escape_end(bytes, before).is_none() {
                Some(before)
            } else {
                None
            };
        }
    }
    None
}

/// Where the last character of bytes starts, if they are UTF-8 but for that, and
/// end before it does.
pub fn incomplete_utf8_start(bytes: &[u8]) -> (start: Option<usize>)
    ensures
        forall|at: usize| (start == Some(at)) == #[trigger] is_cut_character(bytes@, at as int),
{
    let length: usize = valid_up_to(bytes);
    proof {
        unicode::lemma_valid_length(bytes@);
        assert forall|at: usize| #[trigger] is_cut_character(bytes@, at as int) implies at
            == length by {
            let rest = bytes@.skip(at as int);
            unicode::lemma_valid_length_behind(bytes@.take(at as int), rest);
            assert(bytes@.take(at as int) + rest =~= bytes@);
            unicode::lemma_scalar_shape(rest);
        }
    }
    if length < bytes.len() && cut_short(bytes, length) {
        Some(length)
    } else {
        None
    }
}

// ---------------------------------------------------------------------------
// Numbers in sequences.

/// The bytes before the first of a kind, or all of them.
pub open spec fn up_to(bytes: Seq<u8>, separator: u8) -> Seq<u8>
    decreases bytes.len(),
{
    if bytes.len() == 0 || bytes[0] == separator {
        seq![]
    } else {
        seq![bytes[0]] + up_to(bytes.skip(1), separator)
    }
}

pub open spec fn are_digits(bytes: Seq<u8>) -> bool {
    bytes.len() > 0 && forall|i: int| 0 <= i < bytes.len() ==> 48 <= #[trigger] bytes[i] <= 57
}

/// The number that a run of decimal digits stands for.
pub open spec fn decimal(digits: Seq<u8>) -> nat
    decreases digits.len(),
{
    if digits.len() == 0 {
        0
    } else {
        decimal(digits.drop_last()) * 10 + (digits.last() - 48) as nat
    }
}

/// The number that bytes stand for: digits, behind an optional plus sign, no
/// larger than the limit.
pub open spec fn number_in(bytes: Seq<u8>, limit: nat) -> Option<nat> {
    let digits = if bytes.len() > 0 && bytes[0] == 43 {
        bytes.skip(1)
    } else {
        bytes
    };
    if are_digits(digits) && decimal(digits) <= limit {
        Some(decimal(digits))
    } else {
        None
    }
}

proof fn lemma_decimal_grows(digits: Seq<u8>, count: int)
    requires
        0 <= count <= digits.len(),
        forall|i: int| 0 <= i < digits.len() ==> 48 <= #[trigger] digits[i] <= 57,
    ensures
        decimal(digits.take(count)) <= decimal(digits),
    decreases digits.len(),
{
    if count < digits.len() {
        assert(digits.drop_last().take(count) =~= digits.take(count));
        lemma_decimal_grows(digits.drop_last(), count);
    } else {
        assert(digits.take(count) =~= digits);
    }
}

/// The number that the bytes between two positions stand for.
fn parse_number(bytes: &[u8], start: usize, end: usize, limit: usize) -> (number: Option<usize>)
    requires
        start <= end <= bytes@.len(),
    ensures
        match number_in(bytes@.subrange(start as int, end as int), limit as nat) {
            Some(value) => number matches Some(actual) && actual == value,
            None => number is None,
        },
{
    let ghost all = bytes@.subrange(start as int, end as int);
    let from: usize = if start < end && bytes[start] == 43 {
        start + 1
    } else {
        start
    };
    let ghost digits = bytes@.subrange(from as int, end as int);
    assert(digits =~= if all.len() > 0 && all[0] == 43 {
        all.skip(1)
    } else {
        all
    });
    if from == end {
        return None;
    }
    let mut value: usize = 0;
    let mut at: usize = from;
    assert(digits.take(0) =~= seq![]);
    while at < end
        invariant
            from <= at <= end <= bytes@.len(),
            from < end,
            all == bytes@.subrange(start as int, end as int),
            digits == bytes@.subrange(from as int, end as int),
            forall|i: int| 0 <= i < at - from ==> 48 <= #[trigger] digits[i] <= 57,
            value == decimal(digits.take(at - from)),
            value <= limit,
            number_in(all, limit as nat) == (if are_digits(digits) && decimal(digits) <= limit {
                Some(decimal(digits))
            } else {
                None::<nat>
            }),
        decreases end - at,
    {
        let byte: u8 = bytes[at];
        assert(digits[at - from] == byte);
        if !(48 <= byte && byte <= 57) {
            return None;
        }
        assert(digits.take(at - from + 1).drop_last() =~= digits.take(at - from));
        let digit: usize = (byte - 48) as usize;
        if digit > limit || value > (limit - digit) / 10 {
            proof {
                if are_digits(digits) {
                    lemma_decimal_grows(digits, at - from + 1);
                }
            }
            return None;
        }
        value = value * 10 + digit;
        at += 1;
    }
    assert(digits.take(at - from) =~= digits);
    Some(value)
}

/// The number of times that a sequence repeats the last character. DEC REP is
/// `CSI Ps b`; in particular, `ESC b` is a different sequence of two bytes. A
/// count that is missing or cannot be read is one.
pub open spec fn repetition(sequence: Seq<u8>) -> Option<int> {
    if sequence.len() < 3 || sequence[0] != 0x1b || sequence[1] != 0x5b || sequence.last() != 98 {
        None
    } else {
        let first = up_to(sequence.subrange(2, sequence.len() - 1), 59);
        match number_in(first, usize::MAX as nat) {
            Some(count) => Some(count as int),
            None => Some(1),
        }
    }
}

/// Where the bytes before a separator end, between two positions.
fn part_end(bytes: &[u8], start: usize, end: usize, separator: u8) -> (position: usize)
    requires
        start <= end <= bytes@.len(),
    ensures
        start <= position <= end,
        bytes@.subrange(start as int, position as int) == up_to(
            bytes@.subrange(start as int, end as int),
            separator,
        ),
        position < end ==> bytes@[position as int] == separator,
{
    let ghost all = bytes@.subrange(start as int, end as int);
    let mut at: usize = start;
    assert(bytes@.subrange(start as int, start as int) + up_to(all, separator) =~= up_to(
        all,
        separator,
    ));
    while at < end && bytes[at] != separator
        invariant
            start <= at <= end <= bytes@.len(),
            up_to(all, separator) =~= bytes@.subrange(start as int, at as int) + up_to(
                bytes@.subrange(at as int, end as int),
                separator,
            ),
        decreases end - at,
    {
        let ghost rest = bytes@.subrange(at as int, end as int);
        assert(rest.skip(1) =~= bytes@.subrange(at + 1, end as int));
        assert(bytes@.subrange(start as int, at + 1) =~= bytes@.subrange(start as int, at as int)
            + seq![bytes@[at as int]]);
        at += 1;
    }
    at
}

pub fn repeat_count(sequence: &[u8]) -> (count: Option<usize>)
    ensures
        position_view(count) == repetition(sequence@),
{
    let length: usize = sequence.len();
    if length < 3 || sequence[0] != 0x1b || sequence[1] != 0x5b || sequence[length - 1] != 98 {
        return None;
    }
    let end: usize = part_end(sequence, 2, length - 1, 59);
    match parse_number(sequence, 2, end, usize::MAX) {
        Some(count) => Some(count),
        None => Some(1),
    }
}

/// Whether a list of numbers, kept apart by semicolons, names the wrap mode.
/// There is no answer where a part of it is no number.
pub open spec fn names_wrap(list: Seq<u8>) -> Option<bool>
    decreases list.len(),
{
    let first = up_to(list, 59);
    match number_in(first, 65535) {
        Some(number) => if first.len() >= list.len() {
            Some(number == 7)
        } else {
            or_found(number == 7, names_wrap(list.skip(first.len() as int + 1)))
        },
        None => None,
    }
}

/// An answer for the rest of a list, with what was found before it.
pub open spec fn or_found(found: bool, rest: Option<bool>) -> Option<bool> {
    match rest {
        Some(answer) => Some(answer || found),
        None => None,
    }
}

/// The wrap mode that a sequence sets, if it sets one: `CSI ? Pm h` and
/// `CSI ? Pm l`, with 7 among the modes.
pub open spec fn wrap_set_by(sequence: Seq<u8>) -> Option<bool> {
    if sequence.len() < 5 || sequence[0] != 0x1b || sequence[1] != 0x5b || sequence[2] != 0x3f {
        None
    } else if sequence.last() != 104 && sequence.last() != 108 {
        None
    } else if names_wrap(sequence.subrange(3, sequence.len() - 1)) == Some(true) {
        Some(sequence.last() == 104)
    } else {
        None
    }
}

pub fn wrap_mode(sequence: &[u8]) -> (mode: Option<bool>)
    ensures
        mode == wrap_set_by(sequence@),
{
    let length: usize = sequence.len();
    if length < 5 || sequence[0] != 0x1b || sequence[1] != 0x5b || sequence[2] != 0x3f {
        return None;
    }
    let end: usize = length - 1;
    if sequence[end] != 104 && sequence[end] != 108 {
        return None;
    }
    let ghost list = sequence@.subrange(3, end as int);
    let mut found = false;
    let mut at: usize = 3;
    loop
        invariant
            3 <= at <= end,
            end + 1 == length == sequence@.len(),
            list == sequence@.subrange(3, end as int),
            names_wrap(list) == or_found(
                found,
                names_wrap(sequence@.subrange(at as int, end as int)),
            ),
            sequence@[0] == 0x1b,
            sequence@[1] == 0x5b,
            sequence@[2] == 0x3f,
            length >= 5,
            sequence@[end as int] == 104 || sequence@[end as int] == 108,
        decreases end - at,
    {
        let ghost rest = sequence@.subrange(at as int, end as int);
        let stop: usize = part_end(sequence, at, end, 59);
        match parse_number(sequence, at, stop, 65535) {
            None => return None,
            Some(number) => {
                if number == 7 {
                    found = true;
                }
                if stop == end {
                    return if found {
                        Some(sequence[end] == 104)
                    } else {
                        None
                    };
                }
            },
        }
        assert(rest.skip(stop - at + 1) =~= sequence@.subrange(stop + 1, end as int));
        at = stop + 1;
    }
}

// ---------------------------------------------------------------------------
// What is written to the emulator.

/// The decimal digits of a number.
pub open spec fn digits_of(number: nat) -> Seq<u8>
    decreases number,
{
    if number < 10 {
        seq![(48 + number) as u8]
    } else {
        digits_of(number / 10).push((48 + number % 10) as u8)
    }
}

fn push_decimal(output: &mut Vec<u8>, number: u32)
    ensures
        final(output)@ == old(output)@ + digits_of(number as nat),
    decreases number,
{
    if number >= 10 {
        push_decimal(output, number / 10);
    }
    output.push((48 + number % 10) as u8);
    assert(output@ =~= old(output)@ + digits_of(number as nat));
}

proof fn lemma_digits_are_ascii(number: nat)
    ensures
        emulator::is_ascii(digits_of(number)),
    decreases number,
{
    if number >= 10 {
        lemma_digits_are_ascii(number / 10);
    }
}

/// The sequence that moves the cursor to a row and column, counted from one.
pub open spec fn cursor_sequence(row: nat, col: nat) -> Seq<u8> {
    seq![0x1bu8, 0x5b] + digits_of(row) + seq![59u8] + digits_of(col) + seq![72u8]
}

proof fn lemma_cursor_sequence_is_ascii(row: nat, col: nat)
    ensures
        emulator::is_ascii(cursor_sequence(row, col)),
{
    lemma_digits_are_ascii(row);
    lemma_digits_are_ascii(col);
}

fn push_cursor_sequence(output: &mut Vec<u8>, row: u32, col: u32)
    ensures
        final(output)@ == old(output)@ + cursor_sequence(row as nat, col as nat),
{
    output.push(0x1b);
    output.push(0x5b);
    push_decimal(output, row);
    output.push(59);
    push_decimal(output, col);
    output.push(72);
    assert(output@ =~= old(output)@ + cursor_sequence(row as nat, col as nat));
}

/// What stays true of an emulator that is fed bytes.
pub open spec fn keeps(before: Parser, after: Parser) -> bool {
    &&& emulator::size_of(after) == emulator::size_of(before)
    &&& emulator::whole(emulator::state_of(before)) ==> emulator::whole(emulator::state_of(after))
    &&& before.well_formed() ==> after.well_formed()
}

/// The state with the cursor back in the last column of a row.
pub open spec fn held_in_last_column(state: History, row: u16) -> History {
    let (rows, cols) = emulator::size(state);
    if rows == 0 || cols == 0 {
        state
    } else {
        let last = if row < rows {
            row as nat
        } else {
            (rows - 1) as nat
        };
        emulator::advanced(state, cursor_sequence(last + 1, cols as nat))
    }
}

pub fn restore_no_wrap_cursor(parser: &mut Parser, row: u16)
    requires
        emulator::has_room(emulator::state_of(*old(parser)), emulator::escape()),
    ensures
        emulator::state_of(*final(parser)) == held_in_last_column(
            emulator::state_of(*old(parser)),
            row,
        ),
        keeps(*old(parser), *final(parser)),
{
    let (rows, cols): (u16, u16) = parser.screen().size();
    if cols == 0 || rows == 0 {
        return;
    }
    let last: u16 = if row < rows {
        row
    } else {
        rows - 1
    };
    let mut position: Vec<u8> = Vec::new();
    push_cursor_sequence(&mut position, last as u32 + 1, cols as u32);
    proof {
        lemma_cursor_sequence_is_ascii((last + 1) as nat, cols as nat);
        assert(position@ =~= cursor_sequence((last + 1) as nat, cols as nat));
        emulator::lemma_room_for_ascii(emulator::state_of(*parser), position@, emulator::escape());
    }
    parser.process(position.as_slice());
}

/// The state behind one character. Where lines do not wrap, a character that
/// ends in the last column leaves the cursor there.
pub open spec fn written(state: History, character: Seq<u8>, wrap: bool) -> History {
    let (row, col) = emulator::cursor_in(emulator::visible(state));
    let (_, cols) = emulator::size(state);
    let behind = emulator::advanced(state, character);
    if !wrap && (col + 1 >= cols || col == 65535) {
        held_in_last_column(behind, row)
    } else {
        behind
    }
}

pub fn write_terminal_character(parser: &mut Parser, character: &[u8], wrap: bool)
    requires
        ({
            ||| emulator::has_room(
                emulator::state_of(*old(parser)),
                character@ + emulator::escape(),
            )
            ||| wrap && emulator::fits_line(emulator::state_of(*old(parser)), character@)
        }),
        character@.len() > 0,
    ensures
        emulator::state_of(*final(parser)) == written(
            emulator::state_of(*old(parser)),
            character@,
            wrap,
        ),
        keeps(*old(parser), *final(parser)),
{
    let (row, col): (u16, u16) = parser.screen().cursor_position();
    let (_, cols): (u16, u16) = parser.screen().size();
    proof {
        let state = emulator::state_of(*parser);
        if emulator::has_room(state, character@ + emulator::escape()) {
            emulator::lemma_room_goes_on(state, character@, emulator::escape());
        }
    }
    parser.process(character);
    if !wrap && col.saturating_add(1) >= cols {
        restore_no_wrap_cursor(parser, row);
    }
}

/// Whether a character can be written on an emulator that has room for a sequence,
/// and again.
pub open spec fn is_shown(state: History, character: Seq<u8>) -> bool {
    &&& character.len() > 0
    &&& emulator::whole(state) || (emulator::is_narrow(character) && character.last() < 0xe1)
}

/// A character leaves room for what there was room for.
proof fn lemma_written(state: History, character: Seq<u8>, wrap: bool, rest: Seq<u8>)
    requires
        emulator::has_room(state, rest),
        emulator::has_room(state, emulator::escape()),
        is_shown(state, character),
    ensures
        emulator::has_room(state, character + emulator::escape()),
        emulator::has_room(written(state, character, wrap), rest),
        emulator::has_room(written(state, character, wrap), emulator::escape()),
        emulator::whole(written(state, character, wrap)) == emulator::whole(state),
{
    let behind = emulator::advanced(state, character);
    let (rows, cols) = emulator::size(behind);
    let (row, _) = emulator::cursor_in(emulator::visible(state));
    let last = if row < rows {
        row as nat
    } else {
        (rows - 1) as nat
    };
    let position = cursor_sequence(last + 1, cols as nat);
    emulator::lemma_room_for_part(state, character, rest);
    emulator::lemma_advanced(state, character);
    emulator::lemma_narrow_parts(character, emulator::escape());
    emulator::lemma_narrow_parts(emulator::stream(state), emulator::escape());
    emulator::lemma_narrow_parts(emulator::stream(state), character);
    emulator::lemma_narrow_parts(emulator::stream(state) + character, emulator::escape());
    assert(emulator::stream(state) + (character + emulator::escape()) =~= emulator::stream(state)
        + character + emulator::escape());
    lemma_cursor_sequence_is_ascii(last + 1, cols as nat);
    emulator::lemma_room_for_ascii(behind, position, rest);
    emulator::lemma_advanced(behind, position);
}

proof fn lemma_written_times(
    state: History,
    character: Seq<u8>,
    wrap: bool,
    count: nat,
    rest: Seq<u8>,
)
    requires
        emulator::has_room(state, rest),
        emulator::has_room(state, emulator::escape()),
        is_shown(state, character),
    ensures
        emulator::has_room(written_times(state, character, wrap, count), rest),
        emulator::has_room(written_times(state, character, wrap, count), emulator::escape()),
        emulator::whole(written_times(state, character, wrap, count)) == emulator::whole(state),
    decreases count,
{
    if count > 0 {
        let before = written_times(state, character, wrap, (count - 1) as nat);
        lemma_written_times(state, character, wrap, (count - 1) as nat, rest);
        lemma_written(before, character, wrap, rest);
    }
}

/// A character, a number of times over.
pub open spec fn written_times(state: History, character: Seq<u8>, wrap: bool, count: nat) -> History
    decreases count,
{
    if count == 0 {
        state
    } else {
        written(written_times(state, character, wrap, (count - 1) as nat), character, wrap)
    }
}

fn write_times(parser: &mut Parser, character: &Vec<u8>, wrap: bool, count: usize)
    requires
        emulator::has_room(emulator::state_of(*old(parser)), emulator::escape()),
        is_shown(emulator::state_of(*old(parser)), character@),
    ensures
        emulator::state_of(*final(parser)) == written_times(
            emulator::state_of(*old(parser)),
            character@,
            wrap,
            count as nat,
        ),
        keeps(*old(parser), *final(parser)),
{
    let mut index: usize = 0;
    while index < count
        invariant
            index <= count,
            emulator::has_room(emulator::state_of(*old(parser)), emulator::escape()),
            is_shown(emulator::state_of(*old(parser)), character@),
            emulator::state_of(*parser) == written_times(
                emulator::state_of(*old(parser)),
                character@,
                wrap,
                index as nat,
            ),
            keeps(*old(parser), *parser),
        decreases count - index,
    {
        proof {
            let start = emulator::state_of(*old(parser));
            lemma_written_times(start, character@, wrap, index as nat, emulator::escape());
            lemma_written(emulator::state_of(*parser), character@, wrap, emulator::escape());
        }
        write_terminal_character(parser, character.as_slice(), wrap);
        index += 1;
    }
}

/// A row of the alignment pattern.
pub open spec fn aligned_row(row: nat, cols: nat) -> Seq<u8> {
    cursor_sequence(row, 1) + Seq::new(cols, |i: int| 69u8)
}

pub open spec fn aligned_rows(rows: nat, cols: nat) -> Seq<u8>
    decreases rows,
{
    if rows == 0 {
        seq![]
    } else {
        aligned_rows((rows - 1) as nat, cols) + aligned_row(rows, cols)
    }
}

/// The sequences that clear a screen, fill it with the letter `E`, and put the
/// cursor back where it was (DECALN).
pub open spec fn alignment(size: (u16, u16), cursor: (u16, u16)) -> Seq<u8> {
    seq![0x1bu8, 0x5b, 50, 74] + aligned_rows(size.0 as nat, size.1 as nat) + cursor_sequence(
        (cursor.0 + 1) as nat,
        (cursor.1 + 1) as nat,
    )
}

proof fn lemma_rows_are_ascii(rows: nat, cols: nat)
    ensures
        emulator::is_ascii(aligned_rows(rows, cols)),
    decreases rows,
{
    if rows > 0 {
        lemma_rows_are_ascii((rows - 1) as nat, cols);
        lemma_cursor_sequence_is_ascii(rows, 1);
    }
}

proof fn lemma_alignment_is_ascii(size: (u16, u16), cursor: (u16, u16))
    ensures
        emulator::is_ascii(alignment(size, cursor)),
{
    lemma_rows_are_ascii(size.0 as nat, size.1 as nat);
    lemma_cursor_sequence_is_ascii((cursor.0 + 1) as nat, (cursor.1 + 1) as nat);
}

pub fn screen_alignment(parser: &Parser) -> (output: Vec<u8>)
    ensures
        output@ == alignment(emulator::size_of(*parser), emulator::cursor_of(*parser)),
        emulator::is_ascii(output@),
{
    let (rows, cols): (u16, u16) = parser.screen().size();
    let (cursor_row, cursor_col): (u16, u16) = parser.screen().cursor_position();
    let mut output: Vec<u8> = Vec::new();
    output.push(0x1b);
    output.push(0x5b);
    output.push(50);
    output.push(74);
    let ghost start = output@;
    assert(start =~= seq![0x1bu8, 0x5b, 50, 74]);
    let mut row: u16 = 0;
    while row < rows
        invariant
            row <= rows,
            output@ =~= start + aligned_rows(row as nat, cols as nat),
        decreases rows - row,
    {
        let ghost before = output@;
        push_cursor_sequence(&mut output, row as u32 + 1, 1);
        let ghost placed = output@;
        let mut col: u16 = 0;
        while col < cols
            invariant
                col <= cols,
                output@ =~= placed + Seq::new(col as nat, |i: int| 69u8),
            decreases cols - col,
        {
            output.push(69);
            col += 1;
        }
        assert(output@ =~= before + aligned_row((row + 1) as nat, cols as nat));
        row += 1;
    }
    push_cursor_sequence(&mut output, cursor_row as u32 + 1, cursor_col as u32 + 1);
    proof {
        lemma_alignment_is_ascii((rows, cols), (cursor_row, cursor_col));
    }
    output
}

// ---------------------------------------------------------------------------
// Replaying output.

/// What output has come to: the state of the emulator, the last character that
/// was printed, whether lines wrap, and whether a bell was heard.
pub ghost struct Display {
    pub state: History,
    pub last: Option<Seq<u8>>,
    pub wrap: bool,
    pub bell: bool,
}

pub open spec fn fed(display: Display, bytes: Seq<u8>) -> Display {
    Display { state: emulator::advanced(display.state, bytes), ..display }
}

/// What an escape sequence does. The emulator leaves the alignment pattern, the
/// wrap mode and repetition to its caller, and sees everything else.
pub open spec fn after_sequence(display: Display, sequence: Seq<u8>) -> Display {
    if sequence == seq![0x1bu8, 0x23, 0x38] {
        let cursor = emulator::cursor_in(emulator::visible(display.state));
        fed(display, alignment(emulator::size(display.state), cursor))
    } else {
        match wrap_set_by(sequence) {
            Some(mode) => Display { wrap: mode, ..fed(display, sequence) },
            None => if sequence == seq![0x1bu8, 0x63] {
                Display { wrap: true, last: None, ..fed(display, sequence) }
            } else {
                match repetition(sequence) {
                    Some(count) => match display.last {
                        Some(character) => Display {
                            state: written_times(
                                display.state,
                                character,
                                display.wrap,
                                count as nat,
                            ),
                            ..display
                        },
                        None => display,
                    },
                    None => fed(display, sequence),
                }
            },
        }
    }
}

pub open spec fn printed(display: Display, character: Seq<u8>) -> Display {
    Display {
        state: written(display.state, character, display.wrap),
        last: Some(character),
        ..display
    }
}

/// What the unit of output that starts at a position does. A byte that is part of
/// no character goes to the emulator as it is.
pub open spec fn after_unit(display: Display, bytes: Seq<u8>, at: int) -> Display {
    let unit = bytes.subrange(at, unit_end(bytes, at));
    if bytes[at] == 0x1b && sequence_end(bytes, at) is Some {
        after_sequence(display, unit)
    } else if bytes[at] < 0x80 {
        if 0x20 <= bytes[at] && bytes[at] != 0x7f {
            printed(display, unit)
        } else {
            Display { bell: display.bell || bytes[at] == 7, ..fed(display, unit) }
        }
    } else if valid_first_scalar(bytes.skip(at)) {
        printed(display, unit)
    } else {
        fed(display, unit)
    }
}

/// What output does from a position on.
pub open spec fn replayed_from(display: Display, bytes: Seq<u8>, at: int) -> Display
    decreases bytes.len() - at,
    when 0 <= at
    via replayed_from_decreases
{
    if at >= bytes.len() {
        display
    } else {
        replayed_from(after_unit(display, bytes, at), bytes, unit_end(bytes, at))
    }
}

#[via_fn]
proof fn replayed_from_decreases(display: Display, bytes: Seq<u8>, at: int) {
    if at < bytes.len() {
        lemma_unit_end(bytes, at);
    }
}

pub open spec fn replayed(display: Display, bytes: Seq<u8>) -> Display {
    replayed_from(display, bytes, 0)
}

/// Whether the last character that was printed can be shown again.
pub open spec fn can_repeat(parser: Parser, last: Option<Seq<u8>>) -> bool {
    last matches Some(character) ==> is_shown(emulator::state_of(parser), character)
}

/// Whether output can be replayed: the emulator has room for it and for the last
/// character once more, or it stays in its line, which wraps.
pub open spec fn can_replay(
    parser: Parser,
    bytes: Seq<u8>,
    last: Option<Seq<u8>>,
    wrap: bool,
) -> bool {
    ||| emulator::has_room(emulator::state_of(parser), bytes) && can_repeat(parser, last)
    ||| wrap && emulator::fits_line(emulator::state_of(parser), bytes)
}

pub fn replay_terminal_bytes(
    parser: &mut Parser,
    bytes: &[u8],
    last_printed: &mut Option<Vec<u8>>,
    wrap: &mut bool,
    audible_bell: &mut bool,
)
    requires
        can_replay(
            *old(parser),
            bytes@,
            wire::bytes_view(*old(last_printed)),
            *old(wrap),
        ),
    ensures
        (Display {
            state: emulator::state_of(*final(parser)),
            last: wire::bytes_view(*final(last_printed)),
            wrap: *final(wrap),
            bell: *final(audible_bell),
        }) == replayed(
            Display {
                state: emulator::state_of(*old(parser)),
                last: wire::bytes_view(*old(last_printed)),
                wrap: *old(wrap),
                bell: *old(audible_bell),
            },
            bytes@,
        ),
        keeps(*old(parser), *final(parser)),
        emulator::has_room(emulator::state_of(*old(parser)), bytes@) && can_repeat(
            *old(parser),
            wire::bytes_view(*old(last_printed)),
        ) ==> can_repeat(*final(parser), wire::bytes_view(*final(last_printed))),
        *old(wrap) && emulator::fits_line(emulator::state_of(*old(parser)), bytes@) ==> *final(wrap)
            && emulator::line_place(emulator::state_of(*final(parser))) == emulator::place_behind(
            bytes@,
            emulator::line_place(emulator::state_of(*old(parser)))->0,
            emulator::size_of(*old(parser)).1 as int,
        ),
{
    assert(bytes@ + Seq::<u8>::empty() =~= bytes@);
    replay_ahead_of(parser, bytes, last_printed, wrap, audible_bell, Ghost(Seq::<u8>::empty()));
}

/// Replays output that more output follows: what there is room for in both, there
/// is room for behind the first.
#[verifier::rlimit(40)]
fn replay_ahead_of(
    parser: &mut Parser,
    bytes: &[u8],
    last_printed: &mut Option<Vec<u8>>,
    wrap: &mut bool,
    audible_bell: &mut bool,
    Ghost(more): Ghost<Seq<u8>>,
)
    requires
        can_replay(
            *old(parser),
            bytes@ + more,
            wire::bytes_view(*old(last_printed)),
            *old(wrap),
        ),
    ensures
        (Display {
            state: emulator::state_of(*final(parser)),
            last: wire::bytes_view(*final(last_printed)),
            wrap: *final(wrap),
            bell: *final(audible_bell),
        }) == replayed(
            Display {
                state: emulator::state_of(*old(parser)),
                last: wire::bytes_view(*old(last_printed)),
                wrap: *old(wrap),
                bell: *old(audible_bell),
            },
            bytes@,
        ),
        keeps(*old(parser), *final(parser)),
        emulator::has_room(emulator::state_of(*old(parser)), bytes@ + more) && can_repeat(
            *old(parser),
            wire::bytes_view(*old(last_printed)),
        ) ==> can_repeat(*final(parser), wire::bytes_view(*final(last_printed)))
            && emulator::has_room(emulator::state_of(*final(parser)), more),
        *old(wrap) && emulator::fits_line(emulator::state_of(*old(parser)), bytes@) ==> *final(wrap)
            && emulator::line_place(emulator::state_of(*final(parser))) == emulator::place_behind(
            bytes@,
            emulator::line_place(emulator::state_of(*old(parser)))->0,
            emulator::size_of(*old(parser)).1 as int,
        ),
{
    let ghost roomy = emulator::has_room(emulator::state_of(*parser), bytes@ + more)
        && can_repeat(*parser, wire::bytes_view(*last_printed));
    proof {
        if let Some(place) = emulator::line_place(emulator::state_of(*parser)) {
            emulator::lemma_place_parts(
                bytes@,
                more,
                place,
                emulator::size_of(*parser).1 as int,
            );
        }
    }
    let ghost in_line = *wrap && emulator::fits_line(emulator::state_of(*parser), bytes@);
    let ghost cols = emulator::size_of(*parser).1 as int;
    let ghost behind = emulator::place_behind(
        bytes@,
        emulator::line_place(emulator::state_of(*parser))->0,
        cols,
    );
    let ghost start = Display {
        state: emulator::state_of(*parser),
        last: wire::bytes_view(*last_printed),
        wrap: *wrap,
        bell: *audible_bell,
    };
    let mut index: usize = 0;
    assert(bytes@.skip(0) =~= bytes@);
    while index < bytes.len()
        invariant
            index <= bytes@.len(),
            roomy || in_line,
            roomy ==> emulator::has_room(
                emulator::state_of(*parser),
                bytes@.skip(index as int) + more,
            ) && can_repeat(*parser, wire::bytes_view(*last_printed)),
            in_line ==> *wrap && behind is Some && (emulator::line_place(
                emulator::state_of(*parser),
            ) matches Some(place) && emulator::place_behind(
                bytes@.skip(index as int),
                place,
                cols,
            ) == behind),
            emulator::size_of(*parser).1 == cols,
            keeps(*old(parser), *parser),
            replayed(start, bytes@) == replayed_from(
                Display {
                    state: emulator::state_of(*parser),
                    last: wire::bytes_view(*last_printed),
                    wrap: *wrap,
                    bell: *audible_bell,
                },
                bytes@,
                index as int,
            ),
        decreases bytes@.len() - index,
    {
        let ghost state = emulator::state_of(*parser);
        let ghost unit = bytes@.subrange(index as int, unit_end(bytes@, index as int));
        let ghost rest = bytes@.skip(unit_end(bytes@, index as int)) + more;
        proof {
            lemma_unit_end(bytes@, index as int);
            assert(unit + rest =~= bytes@.skip(index as int) + more);
            if roomy {
                emulator::lemma_room_goes_on(state, unit, rest);
                if bytes@[index as int] != 0x1b {
                    lemma_unit_is_shown(state, bytes@, index as int, more);
                }
            }
            if in_line {
                let place = emulator::line_place(emulator::state_of(*parser))->0;
                emulator::lemma_advanced(state, unit);
                emulator::lemma_line_goes_on(bytes@, index as int, place, cols);
                if bytes@[index as int] == 0x1b && sequence_end(bytes@, index as int) is Some {
                    lemma_line_sequence(bytes@, index as int, place, cols);
                }
            }
        }
        let first: u8 = bytes[index];
        let end: Option<usize> = if first == 0x1b {
            escape_end(bytes, index)
        } else {
            None
        };
        match end {
            Some(end) => {
                let sequence = vstd::slice::slice_subrange(bytes, index, end);
                proof {
                    if roomy {
                        let last = wire::bytes_view(*last_printed);
                        lemma_after_sequence(state, last, *wrap, unit, rest);
                    }
                }
                replay_sequence(parser, sequence, last_printed, wrap);
                index = end;
            },
            None => {
                if first < 0x80 {
                    let unit = vstd::slice::slice_subrange(bytes, index, index + 1);
                    assert(unit@ =~= bytes@.subrange(index as int, index + 1));
                    if 0x20 <= first && first != 0x7f {
                        write_terminal_character(parser, unit, *wrap);
                        *last_printed = Some(copy_of(unit));
                    } else {
                        if first == 0x07 {
                            *audible_bell = true;
                        }
                        parser.process(unit);
                    }
                    index += 1;
                } else {
                    let length: usize = scalar_length(bytes, index);
                    if length > 0 {
                        let unit = vstd::slice::slice_subrange(bytes, index, index + length);
                        write_terminal_character(parser, unit, *wrap);
                        *last_printed = Some(copy_of(unit));
                        index += length;
                    } else {
                        let unit = vstd::slice::slice_subrange(bytes, index, index + 1);
                        parser.process(unit);
                        index += 1;
                    }
                }
            },
        }
    }
    assert(bytes@.skip(index as int) + more =~= more);
}

/// A unit that is printed can be shown, and leaves room for the rest.
proof fn lemma_unit_is_shown(state: History, bytes: Seq<u8>, at: int, more: Seq<u8>)
    requires
        0 <= at < bytes.len(),
        emulator::has_room(state, bytes.skip(at) + more),
        bytes[at] != 0x1b,
    ensures
        bytes[at] < 0x80 || valid_first_scalar(bytes.skip(at)) ==> {
            let unit = bytes.subrange(at, unit_end(bytes, at));
            let rest = bytes.skip(unit_end(bytes, at)) + more;
            &&& is_shown(state, unit)
            &&& emulator::has_room(state, unit + emulator::escape())
            &&& emulator::has_room(written(state, unit, true), rest)
            &&& emulator::has_room(written(state, unit, false), rest)
            &&& emulator::whole(written(state, unit, true)) == emulator::whole(state)
            &&& emulator::whole(written(state, unit, false)) == emulator::whole(state)
        },
{
    let unit = bytes.subrange(at, unit_end(bytes, at));
    let rest = bytes.skip(unit_end(bytes, at)) + more;
    let all = emulator::stream(state);
    unicode::lemma_scalar_shape(bytes.skip(at));
    lemma_unit_end(bytes, at);
    assert(bytes.skip(at)[0] == bytes[at]);
    assert(unit + rest =~= bytes.skip(at) + more);
    if bytes[at] < 0x80 || valid_first_scalar(bytes.skip(at)) {
        assert(unit.last() == bytes.skip(at)[unit.len() - 1]);
        assert(unit.last() < 0xe1);
        emulator::lemma_narrow_parts(all, unit + rest);
        emulator::lemma_narrow_parts(unit, rest);
        emulator::lemma_narrow_parts(all, unit);
        emulator::lemma_narrow_parts(all + unit, emulator::escape());
        assert(all + (unit + emulator::escape()) =~= all + unit + emulator::escape());
        emulator::lemma_room_goes_on(state, unit, rest);
        emulator::lemma_room_goes_on(state, unit, emulator::escape());
        lemma_held(emulator::advanced(state, unit), rest);
        emulator::lemma_advanced(state, unit);
    }
}

/// Putting the cursor back leaves room for what there was room for.
proof fn lemma_held(state: History, rest: Seq<u8>)
    requires
        emulator::has_room(state, rest),
        emulator::has_room(state, emulator::escape()),
    ensures
        forall|row: u16|
            #![trigger held_in_last_column(state, row)]
            emulator::has_room(held_in_last_column(state, row), rest) && emulator::whole(
                held_in_last_column(state, row),
            ) == emulator::whole(state),
{
    assert forall|row: u16|
        #![trigger held_in_last_column(state, row)]
        emulator::has_room(held_in_last_column(state, row), rest) && emulator::whole(
            held_in_last_column(state, row),
        ) == emulator::whole(state) by {
        let (rows, cols) = emulator::size(state);
        let last = if row < rows {
            row as nat
        } else {
            (rows - 1) as nat
        };
        let position = cursor_sequence(last + 1, cols as nat);
        lemma_cursor_sequence_is_ascii(last + 1, cols as nat);
        emulator::lemma_room_for_ascii(state, position, rest);
        emulator::lemma_advanced(state, position);
    }
}

/// A sequence leaves room for the rest, and shows what it can.
proof fn lemma_after_sequence(
    state: History,
    last: Option<Seq<u8>>,
    wrap: bool,
    sequence: Seq<u8>,
    rest: Seq<u8>,
)
    requires
        emulator::has_room(state, sequence + rest),
        sequence.len() > 0,
        sequence[0] == 0x1b,
        last matches Some(character) ==> is_shown(state, character),
    ensures
        emulator::has_room(state, sequence),
        emulator::has_room(state, emulator::escape()),
        forall|bell: bool|
            #![trigger after_sequence(Display { state, last, wrap, bell }, sequence)]
            emulator::has_room(
                after_sequence(Display { state, last, wrap, bell }, sequence).state,
                rest,
            ) && emulator::whole(
                after_sequence(Display { state, last, wrap, bell }, sequence).state,
            ) == emulator::whole(state),
{
    emulator::lemma_room_goes_on(state, sequence, rest);
    emulator::lemma_room_without(state, sequence, rest);
    emulator::lemma_advanced(state, sequence);
    let pattern = alignment(
        emulator::size(state),
        emulator::cursor_in(emulator::visible(state)),
    );
    lemma_alignment_is_ascii(
        emulator::size(state),
        emulator::cursor_in(emulator::visible(state)),
    );
    emulator::lemma_room_for_ascii(state, pattern, rest);
    emulator::lemma_advanced(state, pattern);
    if let Some(character) = last {
        if let Some(count) = repetition(sequence) {
            lemma_written_times(state, character, wrap, count as nat, rest);
        }
    }
}

/// Whether a sequence leaves the cursor in its line and is left to the emulator.
pub open spec fn keeps_line(sequence: Seq<u8>) -> bool {
    ||| sequence == seq![0x1bu8, 0x5c]
    ||| {
        &&& sequence.len() >= 3
        &&& sequence[0] == 0x1b
        &&& sequence[1] == 0x5d || (sequence[1] == 0x5b && (emulator::keeps_column(sequence.last())
            || sequence.last() == 0x48 || sequence.last() == 0x47))
    }
}

/// The numbers of a sequence that keeps its line, and the letter that ends it.
proof fn lemma_line_numbers(bytes: Seq<u8>, at: int, place: (Part, int), cols: int)
    requires
        0 <= at,
        place.0 == Part::Start || place.0 == Part::Numbers,
        emulator::place_behind(bytes.skip(at), place, cols) is Some,
        control_end(bytes, at) is Some,
    ensures
        ({
            let end = control_end(bytes, at)->0;
            &&& at < end <= bytes.len()
            &&& emulator::place_behind(bytes.subrange(at, end), place, cols) matches Some(next)
            &&& emulator::place_behind(bytes.skip(end), next, cols) == emulator::place_behind(
                bytes.skip(at),
                place,
                cols,
            )
            &&& emulator::keeps_column(bytes[end - 1]) || bytes[end - 1] == 0x48 || bytes[end - 1]
                == 0x47
        }),
    decreases bytes.len() - at,
{
    let end = control_end(bytes, at)->0;
    lemma_control_end(bytes, at);
    emulator::lemma_line_goes_on(bytes, at, place, cols);
    if !(0x40 <= bytes[at] <= 0x7e) {
        let next = (Part::Numbers, place.1);
        lemma_control_end(bytes, at + 1);
        lemma_line_numbers(bytes, at + 1, next, cols);
        let first = bytes.subrange(at, at + 1);
        let rest = bytes.subrange(at + 1, end);
        emulator::lemma_place_parts(first, rest, place, cols);
        assert(first + rest =~= bytes.subrange(at, end));
    }
}

/// A title, up to behind what ends it.
proof fn lemma_line_title(bytes: Seq<u8>, at: int, col: int, cols: int)
    requires
        0 <= at,
        emulator::place_behind(bytes.skip(at), (Part::Title, col), cols) is Some,
        string_end(bytes, at) is Some,
    ensures
        ({
            let end = string_end(bytes, at)->0;
            &&& at < end <= bytes.len()
            &&& emulator::place_behind(bytes.subrange(at, end), (Part::Title, col), cols) == Some(
                (Part::Text, col),
            )
            &&& emulator::place_behind(bytes.skip(end), (Part::Text, col), cols)
                == emulator::place_behind(bytes.skip(at), (Part::Title, col), cols)
        }),
    decreases bytes.len() - at,
{
    let end = string_end(bytes, at)->0;
    let place = (Part::Title, col);
    lemma_string_end(bytes, at);
    emulator::lemma_line_goes_on(bytes, at, place, cols);
    let first = bytes.subrange(at, at + 1);
    let rest = bytes.subrange(at + 1, end);
    emulator::lemma_place_parts(first, rest, place, cols);
    assert(first + rest =~= bytes.subrange(at, end));
    if bytes[at] == 0x1b {
        emulator::lemma_line_goes_on(bytes, at + 1, (Part::Closing, col), cols);
    } else if bytes[at] != 0x07 {
        lemma_line_title(bytes, at + 1, col, cols);
    } else {
        assert(rest =~= seq![]);
    }
}

/// A sequence in output that stays in its line keeps the line.
proof fn lemma_line_sequence(bytes: Seq<u8>, at: int, place: (Part, int), cols: int)
    requires
        0 <= at < bytes.len(),
        bytes[at] == 0x1b,
        emulator::place_behind(bytes.skip(at), place, cols) is Some,
        sequence_end(bytes, at) is Some,
    ensures
        ({
            let end = sequence_end(bytes, at)->0;
            &&& at < end <= bytes.len()
            &&& keeps_line(bytes.subrange(at, end))
            &&& emulator::place_behind(bytes.subrange(at, end), place, cols) matches Some(next)
            &&& emulator::place_behind(bytes.skip(end), next, cols) == emulator::place_behind(
                bytes.skip(at),
                place,
                cols,
            )
        }),
{
    let end = sequence_end(bytes, at)->0;
    lemma_sequence_end(bytes, at);
    emulator::lemma_line_goes_on(bytes, at, place, cols);
    let first = bytes.subrange(at, at + 1);
    let second = bytes.subrange(at + 1, at + 2);
    let rest = bytes.subrange(at + 2, end);
    emulator::lemma_place_parts(first, second, place, cols);
    emulator::lemma_place_parts(first + second, rest, place, cols);
    assert(first + second + rest =~= bytes.subrange(at, end));
    if place.0 == Part::Title {
        emulator::lemma_line_goes_on(bytes, at + 1, (Part::Closing, place.1), cols);
        assert(rest =~= seq![]);
        assert(bytes.subrange(at, end) =~= seq![0x1bu8, 0x5c]);
    } else {
        emulator::lemma_line_goes_on(bytes, at + 1, (Part::Escape, place.1), cols);
        if bytes[at + 1] == 0x5b {
            lemma_line_numbers(bytes, at + 2, (Part::Start, place.1), cols);
        } else {
            lemma_line_title(bytes, at + 2, place.1, cols);
        }
    }
}

fn copy_of(bytes: &[u8]) -> (copy: Vec<u8>)
    ensures
        copy@ == bytes@,
{
    let mut copy: Vec<u8> = Vec::new();
    let mut index: usize = 0;
    while index < bytes.len()
        invariant
            index <= bytes@.len(),
            copy@ =~= bytes@.take(index as int),
        decreases bytes@.len() - index,
    {
        copy.push(bytes[index]);
        index += 1;
    }
    assert(bytes@.take(index as int) =~= bytes@);
    copy
}

fn same_bytes(one: &[u8], other: &[u8]) -> (same: bool)
    ensures
        same == (one@ == other@),
{
    if one.len() != other.len() {
        return false;
    }
    let mut index: usize = 0;
    while index < one.len()
        invariant
            index <= one@.len() == other@.len(),
            forall|i: int| 0 <= i < index ==> one@[i] == other@[i],
        decreases one@.len() - index,
    {
        if one[index] != other[index] {
            return false;
        }
        index += 1;
    }
    assert(one@ =~= other@);
    true
}

fn replay_sequence(
    parser: &mut Parser,
    sequence: &[u8],
    last_printed: &mut Option<Vec<u8>>,
    wrap: &mut bool,
)
    requires
        ({
            ||| {
                &&& emulator::has_room(emulator::state_of(*old(parser)), sequence@)
                &&& emulator::has_room(emulator::state_of(*old(parser)), emulator::escape())
                &&& can_repeat(*old(parser), wire::bytes_view(*old(last_printed)))
            }
            ||| emulator::fits_line(emulator::state_of(*old(parser)), sequence@) && keeps_line(
                sequence@,
            )
        }),
        sequence@.len() > 0,
    ensures
        forall|bell: bool|
            (Display {
                state: emulator::state_of(*final(parser)),
                last: wire::bytes_view(*final(last_printed)),
                wrap: *final(wrap),
                bell,
            }) == #[trigger] after_sequence(
                Display {
                    state: emulator::state_of(*old(parser)),
                    last: wire::bytes_view(*old(last_printed)),
                    wrap: *old(wrap),
                    bell,
                },
                sequence@,
            ),
        keeps(*old(parser), *final(parser)),
        can_repeat(*old(parser), wire::bytes_view(*old(last_printed))) ==> can_repeat(
            *final(parser),
            wire::bytes_view(*final(last_printed)),
        ),
        keeps_line(sequence@) ==> *final(wrap) == *old(wrap) && emulator::state_of(*final(parser))
            == emulator::advanced(emulator::state_of(*old(parser)), sequence@),
{
    if same_bytes(sequence, [0x1b, 0x23, 0x38].as_slice()) {
        assert(sequence@ =~= seq![0x1bu8, 0x23, 0x38]);
        let pattern = screen_alignment(parser);
        proof {
            emulator::lemma_room_for_ascii(
                emulator::state_of(*parser),
                pattern@,
                emulator::escape(),
            );
        }
        parser.process(pattern.as_slice());
        return;
    }
    assert(sequence@ != seq![0x1bu8, 0x23, 0x38]);
    if let Some(mode) = wrap_mode(sequence) {
        // The emulator leaves DECAWM to its caller. It still needs to see other
        // private modes in a combined sequence (for example ?7;25h), so it gets
        // the whole sequence.
        parser.process(sequence);
        *wrap = mode;
        return;
    }
    if same_bytes(sequence, [0x1b, 0x63].as_slice()) {
        // RIS rebuilds the screen of the emulator, with its modes. The wrap mode
        // and the character to repeat go along.
        parser.process(sequence);
        *wrap = true;
        *last_printed = None;
        return;
    }
    if let Some(count) = repeat_count(sequence) {
        if let Some(character) = &*last_printed {
            write_times(parser, character, *wrap, count);
        }
        return;
    }
    parser.process(sequence);
}

// ---------------------------------------------------------------------------
// Output as it comes.

/// State needed to replay the output of a pane while preserving terminal
/// sequences that may be split across read boundaries. The emulator handles the
/// terminal state; this small wrapper only expands DEC REP (`CSI Ps b`), which
/// the emulator does not implement.
#[derive(Clone, Debug)]
pub struct OutputState {
    pub pending: Vec<u8>,
    pub last_printed: Option<Vec<u8>>,
    pub wrap: bool,
    pub audible_bell: bool,
}

impl Default for OutputState {
    fn default() -> (state: Self)
        ensures
            state.pending@.len() == 0,
            state.last_printed is None,
            state.wrap,
            !state.audible_bell,
    {
        OutputState { pending: Vec::new(), last_printed: None, wrap: true, audible_bell: false }
    }
}

/// What output has come to once more bytes have come, and the bytes that still
/// wait.
pub open spec fn processed(display: Display, pending: Seq<u8>, bytes: Seq<u8>) -> (
    Display,
    Seq<u8>,
) {
    let all = pending + bytes;
    let ready = ready_length(all);
    (replayed(display, all.take(ready)), all.skip(ready))
}

impl OutputState {
    /// What the output has come to, with the emulator that it goes to.
    pub open spec fn display(self, parser: Parser) -> Display {
        Display {
            state: emulator::state_of(parser),
            last: wire::bytes_view(self.last_printed),
            wrap: self.wrap,
            bell: self.audible_bell,
        }
    }

    /// Whether an emulator can show what waits, more bytes behind it, and the
    /// last character once more.
    pub open spec fn accepts(self, parser: Parser, bytes: Seq<u8>) -> bool {
        can_replay(
            parser,
            self.pending@ + bytes,
            wire::bytes_view(self.last_printed),
            self.wrap,
        )
    }

    /// Whether the next bytes of the output can be processed.
    pub fn can_process(&self, parser: &Parser, bytes: &[u8]) -> (result: bool)
        requires
            parser.well_formed(),
        ensures
            result == self.accepts(*parser, bytes@),
    {
        let mut all = copy_of(self.pending.as_slice());
        let mut index: usize = 0;
        while index < bytes.len()
            invariant
                index <= bytes@.len(),
                all@ =~= self.pending@ + bytes@.take(index as int),
            decreases bytes@.len() - index,
        {
            all.push(bytes[index]);
            index += 1;
        }
        assert(all@ =~= self.pending@ + bytes@);
        if self.wrap && parser.line_takes(all.as_slice()) {
            return true;
        }
        if !parser.room_for(all.as_slice()) {
            return false;
        }
        match &self.last_printed {
            Some(character) => character.len() > 0 && (parser.takes_wide() || (emulator::narrow(
                character.as_slice(),
            ) && character[character.len() - 1] < 0xe1)),
            None => true,
        }
    }

    /// Takes the next bytes of the output, and hands on what is complete.
    pub fn process(&mut self, parser: &mut Parser, bytes: &[u8])
        requires
            old(self).accepts(*old(parser), bytes@),
        ensures
            (final(self).display(*final(parser)), final(self).pending@) == processed(
                old(self).display(*old(parser)),
                old(self).pending@,
                bytes@,
            ),
            keeps(*old(parser), *final(parser)),
            final(self).accepts(*final(parser), seq![]),
    {
        let ghost all = self.pending@ + bytes@;
        let mut index: usize = 0;
        while index < bytes.len()
            invariant
                index <= bytes@.len(),
                self.pending@ =~= old(self).pending@ + bytes@.take(index as int),
                self.last_printed == old(self).last_printed,
                self.wrap == old(self).wrap,
                self.audible_bell == old(self).audible_bell,
            decreases bytes@.len() - index,
        {
            self.pending.push(bytes[index]);
            index += 1;
        }
        assert(self.pending@ =~= all);
        let ready_length: usize = ready_bytes(self.pending.as_slice());
        proof {
            lemma_ready_from(all, 0);
            if let Some(place) = emulator::line_place(emulator::state_of(*parser)) {
                emulator::lemma_place_parts(
                    all.take(ready_length as int),
                    all.skip(ready_length as int),
                    place,
                    emulator::size_of(*parser).1 as int,
                );
            }
            assert(all.take(ready_length as int) + all.skip(ready_length as int) =~= all);
        }
        let mut ready = self.pending.split_off(ready_length);
        std::mem::swap(&mut self.pending, &mut ready);
        replay_ahead_of(
            parser,
            ready.as_slice(),
            &mut self.last_printed,
            &mut self.wrap,
            &mut self.audible_bell,
            Ghost(self.pending@),
        );
    }

    /// Return whether the most recent processed bytes contained a standalone
    /// BEL. BEL terminators consumed as part of OSC/DCS/etc. are not reported.
    pub fn take_audible_bell(&mut self) -> (heard: bool)
        ensures
            heard == old(self).audible_bell,
            *final(self) == (OutputState { audible_bell: false, ..*old(self) }),
    {
        let heard = self.audible_bell;
        self.audible_bell = false;
        heard
    }

    /// Hands on what still waits.
    pub fn finish(&mut self, parser: &mut Parser)
        requires
            old(self).accepts(*old(parser), seq![]),
        ensures
            emulator::state_of(*final(parser)) == emulator::advanced(
                emulator::state_of(*old(parser)),
                old(self).pending@,
            ),
            final(self).pending@.len() == 0,
            final(self).last_printed == old(self).last_printed,
            final(self).wrap == old(self).wrap,
            final(self).audible_bell == old(self).audible_bell,
            keeps(*old(parser), *final(parser)),
    {
        assert(self.pending@ + seq![] =~= self.pending@);
        if self.pending.len() > 0 {
            parser.process(self.pending.as_slice());
            self.pending = Vec::new();
        }
    }
}

/// Replay a retained stream of output into an emulator, with the same
/// normalization as for a live pane.
pub fn replay(parser: &mut Parser, bytes: &[u8])
    requires
        emulator::can_show(*old(parser), bytes@),
    ensures
        emulator::state_of(*final(parser)) == replayed_stream(
            emulator::state_of(*old(parser)),
            bytes@,
        ),
        keeps(*old(parser), *final(parser)),
{
    let mut state = OutputState::default();
    assert(state.pending@ + bytes@ =~= bytes@);
    state.process(parser, bytes);
    proof {
        lemma_ready_from(bytes@, 0);
        assert(emulator::is_narrow(bytes@) ==> emulator::is_narrow(state.pending@));
    }
    state.finish(parser);
}

/// The emulator behind a whole stream of output.
pub open spec fn replayed_stream(state: History, bytes: Seq<u8>) -> History {
    let start = Display { state, last: None, wrap: true, bell: false };
    let (display, pending) = processed(start, seq![], bytes);
    emulator::advanced(display.state, pending)
}

// ---------------------------------------------------------------------------
// The terminal of a client.

/// The size of a client's terminal: what the terminal says, unless it says
/// nothing or has no cells.
pub open spec fn size_reported(reported: Option<(u16, u16)>) -> Size {
    match reported {
        Some((cols, rows)) => if cols > 0 && rows > 0 {
            Size { cols, rows }
        } else {
            Size { cols: 80, rows: 24 }
        },
        None => Size { cols: 80, rows: 24 },
    }
}

pub fn size(reported: Option<(u16, u16)>) -> (size: Size)
    ensures
        size == size_reported(reported),
{
    match reported {
        Some((cols, rows)) => if cols > 0 && rows > 0 {
            Size::new(cols, rows)
        } else {
            Size::new(80, 24)
        },
        None => Size::new(80, 24),
    }
}

} // verus!
