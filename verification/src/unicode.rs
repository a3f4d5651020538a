//! Where UTF-8 ends in a run of bytes.

use vstd::prelude::*;
use vstd::utf8::*;

verus! {

/// The length of the longest run of whole characters that bytes start with.
pub open spec fn valid_length(bytes: Seq<u8>) -> int
    decreases bytes.len(),
{
    if bytes.len() > 0 && valid_first_scalar(bytes) {
        length_of_first_scalar(bytes) + valid_length(pop_first_scalar(bytes))
    } else {
        0
    }
}

/// Whether a second byte can stand behind the first of a character of three or
/// four bytes.
pub open spec fn can_follow(first: u8, second: u8) -> bool {
    &&& is_continuation_byte(second)
    &&& first == 0xe0 ==> second >= 0xa0
    &&& first == 0xed ==> second <= 0x9f
    &&& first == 0xf0 ==> second >= 0x90
    &&& first == 0xf4 ==> second <= 0x8f
}

/// Whether bytes are the start of a character, and end before it does.
pub open spec fn is_cut_short(bytes: Seq<u8>) -> bool {
    ||| bytes.len() == 1 && 0xc2 <= bytes[0] <= 0xf4
    ||| bytes.len() == 2 && 0xe0 <= bytes[0] <= 0xf4 && can_follow(bytes[0], bytes[1])
    ||| bytes.len() == 3 && 0xf0 <= bytes[0] <= 0xf4 && can_follow(bytes[0], bytes[1])
        && is_continuation_byte(bytes[2])
}

proof fn lemma_width_2(first: u8, second: u8)
    requires
        is_leading_byte_width_2(first),
        is_continuation_byte(second),
    ensures
        0x80 <= codepoint_width_2(first, second) <==> first >= 0xc2,
        codepoint_width_2(first, second) < 0x800,
{
    assert((0x80 <= (((first & 0x1f) as u32) << 6 | ((second & 0x3f) as u32))) == (first >= 0xc2))
        by (bit_vector)
        requires
            0xc0 <= first <= 0xdf,
            0x80 <= second <= 0xbf,
    ;
    assert((((first & 0x1f) as u32) << 6 | ((second & 0x3f) as u32)) < 0x800) by (bit_vector);
}

proof fn lemma_width_3(first: u8, second: u8, third: u8)
    requires
        is_leading_byte_width_3(first),
        is_continuation_byte(second),
        is_continuation_byte(third),
    ensures
        0x800 <= codepoint_width_3(first, second, third) && !(0xd800 <= codepoint_width_3(
            first,
            second,
            third,
        ) <= 0xdfff) <==> can_follow(first, second),
{
    let point = codepoint_width_3(first, second, third);
    assert(point == (((first & 0x0f) as u32) << 12) | (((second & 0x3f) as u32) << 6) | ((third
        & 0x3f) as u32));
    assert((0x800 <= point && !(0xd800 <= point && point <= 0xdfff)) == ((first != 0xe0 || second
        >= 0xa0) && (first != 0xed || second <= 0x9f))) by (bit_vector)
        requires
            point == (((first & 0x0f) as u32) << 12) | (((second & 0x3f) as u32) << 6) | ((third
                & 0x3f) as u32),
            0xe0 <= first <= 0xef,
            0x80 <= second <= 0xbf,
            0x80 <= third <= 0xbf,
    ;
}

proof fn lemma_width_4(first: u8, second: u8, third: u8, fourth: u8)
    requires
        is_leading_byte_width_4(first),
        is_continuation_byte(second),
        is_continuation_byte(third),
        is_continuation_byte(fourth),
    ensures
        0x10000 <= codepoint_width_4(first, second, third, fourth) <= 0x10ffff <==> first <= 0xf4
            && can_follow(first, second),
{
    let point = codepoint_width_4(first, second, third, fourth);
    assert(point == (((first & 0x07) as u32) << 18) | (((second & 0x3f) as u32) << 12) | (((third
        & 0x3f) as u32) << 6) | ((fourth & 0x3f) as u32));
    assert((0x10000 <= point && point <= 0x10ffff) == (first <= 0xf4 && (first != 0xf0 || second
        >= 0x90) && (first != 0xf4 || second <= 0x8f))) by (bit_vector)
        requires
            point == (((first & 0x07) as u32) << 18) | (((second & 0x3f) as u32) << 12) | (((third
                & 0x3f) as u32) << 6) | ((fourth & 0x3f) as u32),
            0xf0 <= first <= 0xf7,
            0x80 <= second <= 0xbf,
            0x80 <= third <= 0xbf,
            0x80 <= fourth <= 0xbf,
    ;
}

/// What one character of UTF-8 looks like, byte by byte.
pub open spec fn scalar_shape(bytes: Seq<u8>) -> bool {
    ||| bytes.len() >= 1 && bytes[0] <= 0x7f
    ||| bytes.len() >= 2 && 0xc2 <= bytes[0] <= 0xdf && is_continuation_byte(bytes[1])
    ||| bytes.len() >= 3 && 0xe0 <= bytes[0] <= 0xef && can_follow(bytes[0], bytes[1])
        && is_continuation_byte(bytes[2])
    ||| bytes.len() >= 4 && 0xf0 <= bytes[0] <= 0xf4 && can_follow(bytes[0], bytes[1])
        && is_continuation_byte(bytes[2]) && is_continuation_byte(bytes[3])
}

pub proof fn lemma_scalar_shape(bytes: Seq<u8>)
    ensures
        valid_first_scalar(bytes) <==> scalar_shape(bytes),
{
    if bytes.len() >= 1 {
        let first = bytes[0];
        assert(first <= 0x7f ==> (first & 0x7f) as u32 <= 0x7f) by (bit_vector);
        if bytes.len() >= 2 && is_leading_byte_width_2(first) && is_continuation_byte(bytes[1]) {
            lemma_width_2(first, bytes[1]);
        }
        if bytes.len() >= 3 && is_leading_byte_width_3(first) && is_continuation_byte(bytes[1])
            && is_continuation_byte(bytes[2]) {
            lemma_width_3(first, bytes[1], bytes[2]);
        }
        if bytes.len() >= 4 && is_leading_byte_width_4(first) && is_continuation_byte(bytes[1])
            && is_continuation_byte(bytes[2]) && is_continuation_byte(bytes[3]) {
            lemma_width_4(first, bytes[1], bytes[2], bytes[3]);
        }
    }
}

/// The length of the character that bytes start with from a position on; none
/// where no whole character stands there.
pub fn scalar_length(bytes: &[u8], at: usize) -> (length: usize)
    requires
        at <= bytes@.len(),
    ensures
        length <= bytes@.len() - at,
        length == 0 <==> !(at < bytes@.len() && valid_first_scalar(bytes@.skip(at as int))),
        length > 0 ==> length == length_of_first_scalar(bytes@.skip(at as int)),
{
    let ghost rest = bytes@.skip(at as int);
    proof {
        lemma_scalar_shape(rest);
    }
    let left: usize = bytes.len() - at;
    if left == 0 {
        return 0;
    }
    let first: u8 = bytes[at];
    assert(rest[0] == first);
    if first <= 0x7f {
        return 1;
    }
    if left < 2 {
        return 0;
    }
    let second: u8 = bytes[at + 1];
    assert(rest[1] == second);
    if 0xc2 <= first && first <= 0xdf {
        return if 0x80 <= second && second <= 0xbf {
            2
        } else {
            0
        };
    }
    if left < 3 || !follows(first, second) {
        return 0;
    }
    let third: u8 = bytes[at + 2];
    assert(rest[2] == third);
    if !(0x80 <= third && third <= 0xbf) {
        return 0;
    }
    if 0xe0 <= first && first <= 0xef {
        return 3;
    }
    if left < 4 || !(0xf0 <= first && first <= 0xf4) {
        return 0;
    }
    let fourth: u8 = bytes[at + 3];
    assert(rest[3] == fourth);
    if 0x80 <= fourth && fourth <= 0xbf {
        4
    } else {
        0
    }
}

fn follows(first: u8, second: u8) -> (result: bool)
    ensures
        result == can_follow(first, second),
{
    0x80 <= second && second <= 0xbf && (first != 0xe0 || second >= 0xa0) && (first != 0xed
        || second <= 0x9f) && (first != 0xf0 || second >= 0x90) && (first != 0xf4 || second <= 0x8f)
}

/// Whether the bytes from a position on are the start of a character, and end
/// before it does.
pub fn cut_short(bytes: &[u8], at: usize) -> (result: bool)
    requires
        at <= bytes@.len(),
    ensures
        result == is_cut_short(bytes@.skip(at as int)),
{
    let ghost rest = bytes@.skip(at as int);
    let left: usize = bytes.len() - at;
    if left == 0 || left > 3 {
        return false;
    }
    let first: u8 = bytes[at];
    assert(rest[0] == first);
    if left == 1 {
        return 0xc2 <= first && first <= 0xf4;
    }
    let second: u8 = bytes[at + 1];
    assert(rest[1] == second);
    if left == 2 {
        return 0xe0 <= first && first <= 0xf4 && follows(first, second);
    }
    let third: u8 = bytes[at + 2];
    assert(rest[2] == third);
    0xf0 <= first && first <= 0xf4 && follows(first, second) && 0x80 <= third && third <= 0xbf
}

/// The length of the longest run of whole characters that bytes start with.
pub fn valid_up_to(bytes: &[u8]) -> (length: usize)
    ensures
        length == valid_length(bytes@),
        length <= bytes@.len(),
{
    let mut at: usize = 0;
    assert(bytes@.skip(0) =~= bytes@);
    while at < bytes.len()
        invariant
            at <= bytes@.len(),
            valid_length(bytes@) == at + valid_length(bytes@.skip(at as int)),
        decreases bytes@.len() - at,
    {
        let length: usize = scalar_length(bytes, at);
        if length == 0 {
            return at;
        }
        assert(pop_first_scalar(bytes@.skip(at as int)) =~= bytes@.skip(at + length));
        at += length;
    }
    at
}

/// The run of whole characters is UTF-8.
pub proof fn lemma_valid_length(bytes: Seq<u8>)
    ensures
        0 <= valid_length(bytes) <= bytes.len(),
        valid_utf8(bytes.take(valid_length(bytes))),
    decreases bytes.len(),
{
    let part = bytes.take(valid_length(bytes));
    if bytes.len() > 0 && valid_first_scalar(bytes) {
        let rest = pop_first_scalar(bytes);
        lemma_valid_length(rest);
        lemma_scalar_shape(bytes);
        lemma_scalar_shape(part);
        assert(pop_first_scalar(part) =~= rest.take(valid_length(rest)));
    }
}

/// The run of whole characters goes on behind UTF-8.
pub proof fn lemma_valid_length_behind(first: Seq<u8>, second: Seq<u8>)
    requires
        valid_utf8(first),
    ensures
        valid_length(first + second) == first.len() + valid_length(second),
    decreases first.len(),
{
    if first.len() == 0 {
        assert(first + second =~= second);
    } else {
        lemma_scalar_shape(first);
        lemma_scalar_shape(first + second);
        assert((first + second)[0] == first[0]);
        let rest = pop_first_scalar(first);
        lemma_valid_length_behind(rest, second);
        assert(pop_first_scalar(first + second) =~= rest + second);
    }
}

/// Whether bytes are the start of a character, but not all of it.
pub open spec fn starts_character(bytes: Seq<u8>, character: char) -> bool {
    let whole = encode_utf8(seq![character]);
    0 < bytes.len() < whole.len() && whole.take(bytes.len() as int) == bytes
}

/// Bytes are cut short exactly if there is a character that they are the start of.
pub proof fn law_what_is_cut_short_starts_a_character(bytes: Seq<u8>)
    ensures
        is_cut_short(bytes) <==> exists|character: char| starts_character(bytes, character),
{
    if is_cut_short(bytes) {
        let second = if bytes[0] == 0xe0 {
            0xa0u8
        } else if bytes[0] == 0xf0 {
            0x90u8
        } else {
            0x80u8
        };
        let long = if bytes.len() == 1 {
            bytes + seq![second, 0x80u8, 0x80u8]
        } else {
            bytes + seq![0x80u8, 0x80u8]
        };
        lemma_scalar_shape(long);
        let whole = long.take(length_of_first_scalar(long));
        lemma_scalar_shape(whole);
        assert(pop_first_scalar(whole) =~= seq![]);
        reveal_with_fuel(valid_utf8, 2);
        let characters = decode_utf8(whole);
        decode_utf8_encode_utf8(whole);
        reveal_with_fuel(decode_utf8, 2);
        assert(characters.len() == 1);
        assert(characters =~= seq![characters[0]]);
        assert(whole.take(bytes.len() as int) =~= bytes);
        assert(starts_character(bytes, characters[0]));
    }
    if exists|character: char| starts_character(bytes, character) {
        let character = choose|character: char| starts_character(bytes, character);
        let whole = encode_utf8(seq![character]);
        encode_utf8_first_scalar(seq![character]);
        reveal_with_fuel(encode_utf8, 2);
        assert(seq![character].drop_first() =~= seq![]);
        lemma_scalar_shape(whole);
        assert(forall|i: int| 0 <= i < bytes.len() ==> bytes[i] == whole[i]);
    }
}

} // verus!
