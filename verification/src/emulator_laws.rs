//! What holds of an emulator whatever it is fed.

use vstd::prelude::*;
use vstd::utf8::*;

use crate::emulator::{self, History, Part};

verus! {

/// Which characters are taken to be narrow, by their number.
pub proof fn law_narrow_characters(scalar: u32)
    requires
        is_scalar(scalar),
    ensures
        emulator::is_narrow(encode_scalar(scalar)) <==> {
            ||| scalar < 0x1000
            ||| 0x2000 <= scalar <= 0x22ff
            ||| 0x2500 <= scalar <= 0x25bf
            ||| 0x2800 <= scalar <= 0x28ff
            ||| 0xe000 <= scalar <= 0xf8ff
        },
{
    let bytes = encode_scalar(scalar);
    assert(0xC0u8 | ((scalar >> 6) & 0x1F) as u8 <= 0xdf) by (bit_vector);
    assert(0x80u8 | (scalar & 0x3F) as u8 <= 0xbf) by (bit_vector);
    assert(0x80u8 | ((scalar >> 6) & 0x3F) as u8 == 0x80 + scalar / 64 % 64) by (bit_vector);
    assert(0xF0u8 | ((scalar >> 18) & 0x7) as u8 >= 0xf0) by (bit_vector);
    if has_width_1_encoding(scalar) || has_width_2_encoding(scalar) {
        assert forall|i: int| 0 <= i < bytes.len() - 1 implies emulator::starts_narrow(
            #[trigger] bytes[i],
            bytes[i + 1],
        ) by {}
    } else if has_width_3_encoding(scalar) {
        assert(0xE0u8 | ((scalar >> 12) & 0x0F) as u8 == 0xe0 + scalar / 4096) by (bit_vector)
            requires
                scalar < 0x10000,
        ;
        assert(emulator::is_narrow(bytes) <==> emulator::starts_narrow(bytes[0], bytes[1]));
    } else {
        assert(!emulator::starts_narrow(bytes[0], bytes[1]));
    }
}

/// Printable text takes the cursor to the right by its length, and never past the
/// last column.
pub proof fn law_text_moves_by_its_length(text: Seq<u8>, col: int, cols: int)
    requires
        col <= cols,
        forall|i: int| 0 <= i < text.len() ==> 0x20 <= #[trigger] text[i] <= 0x7e,
    ensures
        emulator::place_behind(text, (Part::Text, col), cols) == if col + text.len() <= cols {
            Some((Part::Text, col + text.len()))
        } else {
            None
        },
    decreases text.len(),
{
    if text.len() > 0 {
        law_text_moves_by_its_length(text.drop_last(), col, cols);
        assert(0x20 <= text.last() <= 0x7e);
    }
}

/// What one byte does behind a line: a carriage return goes to the first column, a
/// backspace one to the left, a line feed and a bell stay; a tab, other controls
/// and what is not ASCII leave the line.
pub proof fn law_controls_in_a_line(
    line: Seq<u8>,
    place: (Part, int),
    cols: int,
    col: int,
    byte: u8,
)
    requires
        emulator::place_behind(line, place, cols) == Some((Part::Text, col)),
        col >= 0,
    ensures
        emulator::place_behind(line.push(0x0d), place, cols) == Some((Part::Text, 0int)),
        col > 0 ==> emulator::place_behind(line.push(0x08), place, cols) == Some(
            (Part::Text, col - 1),
        ),
        col == 0 ==> emulator::place_behind(line.push(0x08), place, cols) == Some(
            (Part::Text, 0int),
        ),
        emulator::place_behind(line.push(0x0a), place, cols) == Some((Part::Text, col)),
        emulator::place_behind(line.push(0x07), place, cols) == Some((Part::Text, col)),
        byte < 0x20 && byte != 0x0d && byte != 0x08 && byte != 0x0a && byte != 0x07 && byte != 0x1b
            ==> emulator::place_behind(line.push(byte), place, cols) is None,
        byte >= 0x7f ==> emulator::place_behind(line.push(byte), place, cols) is None,
{
    assert(line.push(0x0d).drop_last() =~= line);
    assert(line.push(0x08).drop_last() =~= line);
    assert(line.push(0x0a).drop_last() =~= line);
    assert(line.push(0x07).drop_last() =~= line);
    assert(line.push(byte).drop_last() =~= line);
}

/// What a control sequence does behind a line: colours, erasing, moving cells, and
/// moving up, down and left keep the column or go to its left; `H` and `G` without
/// numbers go to the first; any other letter leaves the line.
pub proof fn law_sequences_in_a_line(
    line: Seq<u8>,
    place: (Part, int),
    cols: int,
    col: int,
    numbers: Seq<u8>,
    letter: u8,
)
    requires
        emulator::place_behind(line, place, cols) == Some((Part::Text, col)),
        forall|i: int|
            0 <= i < numbers.len() ==> (0x30 <= #[trigger] numbers[i] <= 0x39 || numbers[i] == 0x3b),
        !(0x30 <= letter <= 0x39) && letter != 0x3b,
    ensures
        ({
            let all = line + seq![0x1bu8, 0x5b] + numbers.push(letter);
            emulator::place_behind(all, place, cols) == if letter == 0x6d || letter == 0x4b
                || letter == 0x4a || letter == 0x58 || letter == 0x40 || letter == 0x50 || letter
                == 0x41 || letter == 0x42 || letter == 0x44 {
                Some((Part::Text, col))
            } else if (letter == 0x48 || letter == 0x47) && numbers.len() == 0 {
                Some((Part::Text, 0int))
            } else {
                None
            }
        }),
{
    let open = seq![0x1bu8, 0x5b];
    let start = line + open;
    let all = start + numbers.push(letter);
    assert(start.drop_last() =~= line.push(0x1b));
    assert(line.push(0x1b).drop_last() =~= line);
    assert(emulator::place_behind(line.push(0x1b), place, cols) == Some((Part::Escape, col)));
    assert(emulator::place_behind(start, place, cols) == Some((Part::Start, col)));
    lemma_numbers(start, place, cols, col, numbers);
    assert(all.drop_last() =~= start + numbers);
}

proof fn lemma_numbers(
    start: Seq<u8>,
    place: (Part, int),
    cols: int,
    col: int,
    numbers: Seq<u8>,
)
    requires
        emulator::place_behind(start, place, cols) == Some((Part::Start, col)),
        forall|i: int|
            0 <= i < numbers.len() ==> (0x30 <= #[trigger] numbers[i] <= 0x39 || numbers[i] == 0x3b),
    ensures
        emulator::place_behind(start + numbers, place, cols) == Some(
            (
                if numbers.len() == 0 {
                    Part::Start
                } else {
                    Part::Numbers
                },
                col,
            ),
        ),
    decreases numbers.len(),
{
    if numbers.len() > 0 {
        lemma_numbers(start, place, cols, col, numbers.drop_last());
        assert((start + numbers).drop_last() =~= start + numbers.drop_last());
        let last = numbers[numbers.len() - 1];
        assert(0x30 <= last <= 0x39 || last == 0x3b);
    } else {
        assert(start + numbers =~= start);
    }
}

/// A title leaves the cursor where it is, whether a bell ends it or an escape and a
/// backslash.
pub proof fn law_titles_in_a_line(
    line: Seq<u8>,
    place: (Part, int),
    cols: int,
    col: int,
    title: Seq<u8>,
)
    requires
        emulator::place_behind(line, place, cols) == Some((Part::Text, col)),
        forall|i: int| 0 <= i < title.len() ==> 0x20 <= #[trigger] title[i] <= 0x7e,
    ensures
        emulator::place_behind(line + seq![0x1bu8, 0x5d] + title + seq![0x07u8], place, cols)
            == Some((Part::Text, col)),
        emulator::place_behind(line + seq![0x1bu8, 0x5d] + title + seq![0x1bu8, 0x5c], place, cols)
            == Some((Part::Text, col)),
{
    let start = line + seq![0x1bu8, 0x5d];
    let open = start + title;
    let rung = open + seq![0x07u8];
    let closed = open + seq![0x1bu8, 0x5c];
    assert(start.drop_last() =~= line.push(0x1b));
    assert(line.push(0x1b).drop_last() =~= line);
    assert(emulator::place_behind(line.push(0x1b), place, cols) == Some((Part::Escape, col)));
    assert(emulator::place_behind(start, place, cols) == Some((Part::Title, col)));
    lemma_title(start, place, cols, col, title);
    assert(rung.drop_last() =~= open);
    assert(closed.drop_last() =~= open.push(0x1b));
    assert(open.push(0x1b).drop_last() =~= open);
    assert(emulator::place_behind(open.push(0x1b), place, cols) == Some((Part::Closing, col)));
}

proof fn lemma_title(
    start: Seq<u8>,
    place: (Part, int),
    cols: int,
    col: int,
    title: Seq<u8>,
)
    requires
        emulator::place_behind(start, place, cols) == Some((Part::Title, col)),
        forall|i: int| 0 <= i < title.len() ==> 0x20 <= #[trigger] title[i] <= 0x7e,
    ensures
        emulator::place_behind(start + title, place, cols) == Some((Part::Title, col)),
    decreases title.len(),
{
    if title.len() > 0 {
        lemma_title(start, place, cols, col, title.drop_last());
        assert((start + title).drop_last() =~= start + title.drop_last());
        let last = title[title.len() - 1];
        assert(0x20 <= last <= 0x7e);
    } else {
        assert(start + title =~= start);
    }
}

/// A new emulator starts a line, and has room for any text if it has a second row
/// and from 3 up to 65527 columns; with fewer columns it has room for ASCII, with
/// more for nothing.
pub proof fn law_new_emulators_have_room(
    rows: u16,
    cols: u16,
    scrollback: usize,
    bytes: Seq<u8>,
)
    ensures
        ({
            let history = emulator::fresh(rows, cols, scrollback);
            &&& emulator::size(history) == (rows, cols)
            &&& emulator::stream(history) == Seq::<u8>::empty()
            &&& emulator::line_place(history) == Some((Part::Text, 0int))
            &&& rows < 2 ==> !emulator::has_room(history, bytes)
            &&& rows >= 2 && 3 <= cols <= 65527 ==> emulator::has_room(history, bytes)
            &&& rows >= 2 && cols <= 65527 && emulator::is_ascii(bytes) ==> emulator::has_room(
                history,
                bytes,
            )
            &&& rows >= 2 && cols < 3 && bytes == encode_scalar(0x4e00) ==> !emulator::has_room(
                history,
                bytes,
            )
            &&& cols > 65527 ==> !emulator::has_room(history, bytes)
        }),
{
    let history = emulator::fresh(rows, cols, scrollback);
    assert(emulator::stream(history) + bytes =~= bytes);
    if emulator::is_ascii(bytes) {
        emulator::lemma_ascii_is_narrow(bytes);
    }
    law_narrow_characters(0x4e00);
}

/// An emulator keeps what it was fed, in order, and its size until it is given
/// another; to be fed nothing is nothing.
pub proof fn law_history_is_kept(history: History, bytes: Seq<u8>, rows: u16, cols: u16)
    ensures
        emulator::stream(emulator::advanced(history, bytes)) == emulator::stream(history) + bytes,
        emulator::size(emulator::advanced(history, bytes)) == emulator::size(history),
        emulator::advanced(history, seq![]) == history,
        emulator::stream(emulator::resized(history, rows, cols)) == emulator::stream(history),
        emulator::size(emulator::resized(history, rows, cols)) == (rows, cols),
{
    emulator::lemma_advanced(history, bytes);
    emulator::lemma_resized(history, rows, cols);
}

/// Wider lines cut no character. Shorter ones may, unless all that was ever shown
/// is narrow; too many columns are never right again.
pub proof fn law_shorter_lines_may_cut(history: History, rows: u16, cols: u16)
    ensures
        ({
            let after = emulator::resized(history, rows, cols);
            let narrow = emulator::is_bounded(history) && emulator::is_narrow(
                emulator::stream(history),
            );
            &&& emulator::whole(history) && emulator::size(history).1 <= cols <= 65527
                ==> emulator::whole(after)
            &&& narrow && 3 <= cols <= 65527 ==> emulator::whole(after)
            &&& cols < emulator::size(history).1 && !narrow ==> !emulator::whole(after)
            &&& !emulator::whole(history) && !narrow ==> !emulator::whole(after)
            &&& cols > 65527 ==> !emulator::whole(after) && !emulator::is_bounded(after)
            &&& !emulator::is_bounded(history) ==> !emulator::is_bounded(after)
        }),
{
    emulator::lemma_resized(history, rows, cols);
}

/// A change of size leaves the cursor in its column, or in the last one where that
/// is gone.
pub proof fn law_cursor_stays_in_the_line(
    history: History,
    part: Part,
    col: int,
    rows: u16,
    cols: u16,
)
    requires
        emulator::line_place(history) == Some((part, col)),
        cols >= 1,
    ensures
        col < cols ==> emulator::line_place(emulator::resized(history, rows, cols)) == Some(
            (part, col),
        ),
        col >= cols ==> emulator::line_place(emulator::resized(history, rows, cols)) == Some(
            (part, cols - 1),
        ),
{
    emulator::lemma_resized(history, rows, cols);
}

} // verus!
