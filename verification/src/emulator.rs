//! The terminal emulator behind a pane.
//!
//! The emulator is `vt100::Parser`. What it holds is opaque here. It goes by its
//! history, all that was done to it, and what its screen shows has a name, which
//! is applied to that history. Some bytes would stop the emulator; enough of its
//! history is kept with it to tell which.

use vstd::prelude::*;
use vstd::utf8::*;

verus! {

/// The screen of an emulator: what it shows, and where its cursor stands.
#[verifier::external_type_specification]
#[verifier::external_body]
pub struct ExScreen(vt100::Screen);

/// A terminal emulator of the `vt100` crate, with no callbacks. Its type has a
/// parameter for callbacks, bound by a trait that contracts cannot speak of, so
/// it stands behind a private field.
#[verifier::external_body]
pub struct Emulator {
    inner: vt100::Parser,
}

/// Something done to an emulator.
pub ghost enum Act {
    /// It was fed bytes.
    Fed(Seq<u8>),
    /// It was given rows and columns.
    Resized(u16, u16),
}

/// All that was done to an emulator since it was made. What it shows, and what it
/// will make of more, is a function of that.
pub ghost struct History {
    pub rows: u16,
    pub cols: u16,
    pub scrollback: usize,
    pub acts: Seq<Act>,
}

/// What was done to an emulator.
pub uninterp spec fn history_of(emulator: Emulator) -> History;

/// All that can be seen of a screen.
pub uninterp spec fn shown_on(screen: vt100::Screen) -> Seq<int>;

/// What can be seen behind a history (`vt100::Parser::screen`).
pub uninterp spec fn visible(history: History) -> Seq<int>;

/// The row and column of the cursor (`vt100::Screen::cursor_position`).
pub uninterp spec fn cursor_in(shown: Seq<int>) -> (u16, u16);

/// The rows and columns of a screen (`vt100::Screen::size`).
pub uninterp spec fn size_in(shown: Seq<int>) -> (u16, u16);

/// The history of a new emulator.
pub open spec fn fresh(rows: u16, cols: u16, scrollback: usize) -> History {
    History { rows, cols, scrollback, acts: seq![] }
}

/// The history with more bytes. Bytes behind whole characters go with those
/// before them: whether all come at once or one part behind the other makes no
/// difference. To be fed nothing is nothing.
pub open spec fn advanced(history: History, bytes: Seq<u8>) -> History {
    let acts = history.acts;
    if bytes.len() == 0 {
        history
    } else if acts.len() > 0 && (acts.last() matches Act::Fed(before) && valid_utf8(before)) {
        History { acts: acts.drop_last().push(Act::Fed(acts.last()->Fed_0 + bytes)), ..history }
    } else {
        History { acts: acts.push(Act::Fed(bytes)), ..history }
    }
}

/// The history with a change of size.
pub open spec fn resized(history: History, rows: u16, cols: u16) -> History {
    History { acts: history.acts.push(Act::Resized(rows, cols)), ..history }
}

/// The history without the last act.
pub open spec fn before_last(history: History) -> History {
    History { acts: history.acts.drop_last(), ..history }
}

/// The rows and columns behind a history.
pub open spec fn size(history: History) -> (u16, u16)
    decreases history.acts.len(),
{
    if history.acts.len() == 0 {
        (history.rows, history.cols)
    } else {
        match history.acts.last() {
            Act::Fed(_) => size(before_last(history)),
            Act::Resized(rows, cols) => (rows, cols),
        }
    }
}

/// Everything that an emulator was fed.
pub open spec fn stream(history: History) -> Seq<u8>
    decreases history.acts.len(),
{
    if history.acts.len() == 0 {
        seq![]
    } else {
        match history.acts.last() {
            Act::Fed(bytes) => stream(before_last(history)) + bytes,
            Act::Resized(_, _) => stream(before_last(history)),
        }
    }
}

/// Whether no character that is wider than one column starts with two bytes. All
/// characters before U+1000 are narrow, and so are those from U+2000 to U+22FF,
/// from U+2500 to U+25BF, from U+2800 to U+28FF and from U+E000 to U+F8FF.
pub open spec fn starts_narrow(first: u8, second: u8) -> bool {
    ||| first < 0xe1
    ||| first == 0xe2 && (0x80 <= second <= 0x8b || 0x94 <= second <= 0x96 || 0xa0 <= second
        <= 0xa3)
    ||| first == 0xee && 0x80 <= second <= 0xbf
    ||| first == 0xef && 0x80 <= second <= 0xa3
}

/// Whether bytes hold no wide character.
pub open spec fn is_narrow(bytes: Seq<u8>) -> bool {
    forall|i: int|
        0 <= i < bytes.len() - 1 ==> starts_narrow(#[trigger] bytes[i], bytes[i + 1])
}

/// The last of bytes.
pub open spec fn tail_of(bytes: Seq<u8>) -> Option<u8> {
    if bytes.len() > 0 {
        Some(bytes.last())
    } else {
        None
    }
}

/// Whether no wide character starts with a byte and goes on with more.
pub open spec fn joins(tail: Option<u8>, bytes: Seq<u8>) -> bool {
    match tail {
        Some(last) => bytes.len() > 0 ==> starts_narrow(last, bytes[0]),
        None => true,
    }
}

/// The most columns with a tab stop that 16 bits can count.
pub const MAX_COLS: u16 = 65527;

/// The fewest columns in which every character has room. One character, U+17D8,
/// counts three.
pub const WIDE_COLS: u16 = 3;

/// Whether an emulator never had more than [`MAX_COLS`] columns.
pub open spec fn is_bounded(history: History) -> bool
    decreases history.acts.len(),
{
    if history.acts.len() == 0 {
        history.cols <= MAX_COLS
    } else {
        is_bounded(before_last(history)) && match history.acts.last() {
            Act::Fed(_) => true,
            Act::Resized(_, cols) => cols <= MAX_COLS,
        }
    }
}

/// Whether an emulator never had more than [`MAX_COLS`] columns, and was fed no
/// wide character.
pub open spec fn narrow_only(history: History) -> bool {
    is_bounded(history) && is_narrow(stream(history))
}

/// Whether an emulator has from [`WIDE_COLS`] up to [`MAX_COLS`] columns, and lost
/// none that could have cut a wide character in half.
pub open spec fn whole(history: History) -> bool
    decreases history.acts.len(),
{
    if history.acts.len() == 0 {
        WIDE_COLS <= history.cols <= MAX_COLS
    } else {
        let before = before_last(history);
        match history.acts.last() {
            Act::Fed(_) => whole(before),
            Act::Resized(_, cols) => {
                ||| whole(before) && size(before).1 <= cols <= MAX_COLS
                ||| narrow_only(before) && WIDE_COLS <= cols <= MAX_COLS
            },
        }
    }
}

/// What the next byte of a line is read as.
#[derive(Debug, Clone, Copy, PartialEq, Eq, Structural)]
pub enum Part {
    /// Text, or a control that stands alone.
    Text,
    /// What stands behind an escape.
    Escape,
    /// The first byte of a control sequence.
    Start,
    /// The numbers of a control sequence, or the letter that ends it.
    Numbers,
    /// A title, or another string.
    Title,
    /// What stands behind an escape in a string.
    Closing,
}

/// Whether a letter ends a sequence that leaves the cursor in its column or takes
/// it to the left: it sets attributes (`m`), erases (`K`, `J`, `X`), moves cells
/// (`@`, `P`), or moves the cursor up, down or back (`A`, `B`, `D`).
pub open spec fn keeps_column(letter: u8) -> bool {
    ||| letter == 0x6d || letter == 0x4b || letter == 0x4a || letter == 0x58
    ||| letter == 0x40 || letter == 0x50
    ||| letter == 0x41 || letter == 0x42 || letter == 0x44
}

/// The place behind one more byte of a line: what the next byte is read as, and
/// the column. There is none where the byte would pass the last column, or may
/// take the cursor there: a line holds printable ASCII, bells, backspaces, line
/// feeds, carriage returns, titles, and sequences that keep the column or go to
/// the first (`H` and `G` without numbers).
pub open spec fn next_place(byte: u8, place: (Part, int), cols: int) -> Option<(Part, int)> {
    let (part, col) = place;
    match part {
        Part::Text => if 0x20 <= byte <= 0x7e {
            if col < cols {
                Some((Part::Text, col + 1))
            } else {
                None
            }
        } else if byte == 0x0d {
            Some((Part::Text, 0))
        } else if byte == 0x08 {
            Some(
                (
                    Part::Text,
                    if col > 0 {
                        col - 1
                    } else {
                        0
                    },
                ),
            )
        } else if byte == 0x07 || byte == 0x0a {
            Some((Part::Text, col))
        } else if byte == 0x1b {
            Some((Part::Escape, col))
        } else {
            None
        },
        Part::Escape => if byte == 0x5b {
            Some((Part::Start, col))
        } else if byte == 0x5d {
            Some((Part::Title, col))
        } else {
            None
        },
        Part::Start => if byte == 0x48 || byte == 0x47 {
            Some((Part::Text, 0))
        } else {
            next_in_numbers(byte, col)
        },
        Part::Numbers => next_in_numbers(byte, col),
        Part::Title => if byte == 0x07 {
            Some((Part::Text, col))
        } else if byte == 0x1b {
            Some((Part::Closing, col))
        } else if 0x20 <= byte <= 0x7e {
            Some((Part::Title, col))
        } else {
            None
        },
        Part::Closing => if byte == 0x5c {
            Some((Part::Text, col))
        } else {
            None
        },
    }
}

/// The place behind one more byte of the numbers of a sequence.
pub open spec fn next_in_numbers(byte: u8, col: int) -> Option<(Part, int)> {
    if 0x30 <= byte <= 0x39 || byte == 0x3b {
        Some((Part::Numbers, col))
    } else if keeps_column(byte) {
        Some((Part::Text, col))
    } else {
        None
    }
}

/// The place behind bytes that start in a given one and stay in their line.
pub open spec fn place_behind(bytes: Seq<u8>, place: (Part, int), cols: int) -> Option<(Part, int)>
    decreases bytes.len(),
{
    if bytes.len() == 0 {
        Some(place)
    } else {
        match place_behind(bytes.drop_last(), place, cols) {
            Some(before) => next_place(bytes.last(), before, cols),
            None => None,
        }
    }
}

/// The place of an emulator that was fed nothing but bytes that stayed in their
/// line.
pub open spec fn line_place(history: History) -> Option<(Part, int)>
    decreases history.acts.len(),
{
    if history.acts.len() == 0 {
        Some((Part::Text, 0))
    } else {
        let before = before_last(history);
        match line_place(before) {
            Some(place) => match history.acts.last() {
                Act::Fed(bytes) => place_behind(bytes, place, size(before).1 as int),
                Act::Resized(_, cols) => Some(clamped(place, cols as int)),
            },
            None => None,
        }
    }
}

/// The place in lines of the given length.
pub open spec fn clamped(place: (Part, int), cols: int) -> (Part, int) {
    if place.1 < cols {
        place
    } else {
        (place.0, cols - 1)
    }
}

/// Whether bytes stay in the line of an emulator that never left one.
pub open spec fn fits_line(history: History, bytes: Seq<u8>) -> bool {
    line_place(history) matches Some(place) && place_behind(bytes, place, size(history).1 as int)
        is Some
}

/// Whether an emulator has a second row to go on in, and no character among what
/// it was fed and the given bytes is cut in half.
pub open spec fn has_room(history: History, bytes: Seq<u8>) -> bool {
    &&& size(history).0 >= 2
    &&& whole(history) || (is_bounded(history) && is_narrow(stream(history) + bytes))
}

/// Enough of the history of an emulator to tell which bytes it can be fed.
struct Known {
    rows: u16,
    cols: u16,
    whole: bool,
    bounded: bool,
    narrow: bool,
    tail: Option<u8>,
    place: Option<(Part, u16)>,
}

/// The place that a part and a column are.
pub open spec fn place_view(place: Option<(Part, u16)>) -> Option<(Part, int)> {
    match place {
        Some((part, col)) => Some((part, col as int)),
        None => None,
    }
}

spec fn is_known(known: Known, history: History) -> bool {
    &&& (known.rows, known.cols) == size(history)
    &&& known.whole == whole(history)
    &&& known.bounded == is_bounded(history)
    &&& known.narrow == is_narrow(stream(history))
    &&& known.tail == tail_of(stream(history))
    &&& place_view(known.place) == line_place(history)
}

/// A terminal emulator that can tell which bytes it can be fed.
pub struct Parser {
    emulator: Emulator,
    known: Known,
}

impl Parser {
    /// Whether what is known of the emulator is so.
    pub closed spec fn well_formed(self) -> bool {
        is_known(self.known, history_of(self.emulator))
    }
}

/// What was done to an emulator.
pub closed spec fn state_of(parser: Parser) -> History {
    history_of(parser.emulator)
}

/// The row and column of the cursor of an emulator.
pub open spec fn cursor_of(parser: Parser) -> (u16, u16) {
    cursor_in(visible(state_of(parser)))
}

/// The rows and columns of an emulator.
pub open spec fn size_of(parser: Parser) -> (u16, u16) {
    size(state_of(parser))
}

/// Whether an emulator can be fed bytes. Text that runs past the end of the only
/// row, or a wide character that is cut in half, would stop it.
pub open spec fn can_show(parser: Parser, bytes: Seq<u8>) -> bool {
    has_room(state_of(parser), bytes) || fits_line(state_of(parser), bytes)
}

/// Bytes one after the other move the cursor as all at once.
pub proof fn lemma_place_parts(first: Seq<u8>, second: Seq<u8>, place: (Part, int), cols: int)
    ensures
        place_behind(first + second, place, cols) == match place_behind(first, place, cols) {
            Some(between) => place_behind(second, between, cols),
            None => None,
        },
    decreases second.len(),
{
    if second.len() > 0 {
        assert((first + second).drop_last() =~= first + second.drop_last());
        lemma_place_parts(first, second.drop_last(), place, cols);
    } else {
        assert(first + second =~= first);
    }
}

/// Bytes that stay in their line, from the first on.
pub proof fn lemma_line_goes_on(bytes: Seq<u8>, at: int, place: (Part, int), cols: int)
    requires
        0 <= at < bytes.len(),
    ensures
        place_behind(bytes.subrange(at, at + 1), place, cols) == next_place(
            bytes[at],
            place,
            cols,
        ),
        place_behind(bytes.skip(at), place, cols) == match next_place(bytes[at], place, cols) {
            Some(next) => place_behind(bytes.skip(at + 1), next, cols),
            None => None,
        },
{
    let first = bytes.subrange(at, at + 1);
    assert(first.drop_last() =~= seq![]);
    assert(first.last() == bytes[at]);
    assert(place_behind(seq![], place, cols) == Some(place));
    lemma_place_parts(first, bytes.skip(at + 1), place, cols);
    assert(first + bytes.skip(at + 1) =~= bytes.skip(at));
}

/// Bytes one after the other hold no wide character if neither part does, and none
/// lies across.
pub proof fn lemma_narrow_parts(first: Seq<u8>, second: Seq<u8>)
    ensures
        is_narrow(first + second) == (is_narrow(first) && is_narrow(second) && joins(
            tail_of(first),
            second,
        )),
        tail_of(first + second) == if second.len() > 0 {
            tail_of(second)
        } else {
            tail_of(first)
        },
{
    let all = first + second;
    let length = first.len() as int;
    if is_narrow(all) {
        assert forall|i: int| 0 <= i < first.len() - 1 implies starts_narrow(
            #[trigger] first[i],
            first[i + 1],
        ) by {
            assert(starts_narrow(all[i], all[i + 1]));
        }
        assert forall|i: int| 0 <= i < second.len() - 1 implies starts_narrow(
            #[trigger] second[i],
            second[i + 1],
        ) by {
            assert(starts_narrow(all[length + i], all[length + i + 1]));
        }
        if first.len() > 0 && second.len() > 0 {
            assert(starts_narrow(all[length - 1], all[length - 1 + 1]));
        }
    }
    if is_narrow(first) && is_narrow(second) && joins(tail_of(first), second) {
        assert forall|i: int| 0 <= i < all.len() - 1 implies starts_narrow(
            #[trigger] all[i],
            all[i + 1],
        ) by {
            if i < length - 1 {
                assert(starts_narrow(first[i], first[i + 1]));
            } else if i >= length {
                assert(starts_narrow(second[i - length], second[i - length + 1]));
            }
        }
    }
    if second.len() == 0 {
        assert(all =~= first);
    }
}

/// ASCII holds no wide character.
pub proof fn lemma_ascii_is_narrow(bytes: Seq<u8>)
    requires
        is_ascii(bytes),
    ensures
        is_narrow(bytes),
{
}

/// Bytes leave the size of an emulator alone, and cut no character.
pub proof fn lemma_advanced(history: History, bytes: Seq<u8>)
    ensures
        size(advanced(history, bytes)) == size(history),
        whole(advanced(history, bytes)) == whole(history),
        is_bounded(advanced(history, bytes)) == is_bounded(history),
        stream(advanced(history, bytes)) == stream(history) + bytes,
        line_place(advanced(history, bytes)) == match line_place(history) {
            Some(place) => place_behind(bytes, place, size(history).1 as int),
            None => None,
        },
{
    let next = advanced(history, bytes);
    if bytes.len() > 0 {
        if history.acts.len() > 0 && (history.acts.last() matches Act::Fed(before) && valid_utf8(
            before,
        )) {
            let before = history.acts.last()->Fed_0;
            let earlier = stream(before_last(history));
            assert(before_last(next).acts =~= before_last(history).acts);
            assert(earlier + (before + bytes) =~= (earlier + before) + bytes);
            if let Some(place) = line_place(before_last(history)) {
                lemma_place_parts(before, bytes, place, size(history).1 as int);
            }
        } else {
            assert(before_last(next).acts =~= history.acts);
        }
    } else {
        assert(stream(history) + bytes =~= stream(history));
    }
}

/// What a change of size does to an emulator.
pub proof fn lemma_resized(history: History, rows: u16, cols: u16)
    ensures
        size(resized(history, rows, cols)) == (rows, cols),
        whole(resized(history, rows, cols)) == {
            ||| whole(history) && size(history).1 <= cols <= MAX_COLS
            ||| narrow_only(history) && WIDE_COLS <= cols <= MAX_COLS
        },
        is_bounded(resized(history, rows, cols)) == (is_bounded(history) && cols <= MAX_COLS),
        stream(resized(history, rows, cols)) == stream(history),
        line_place(resized(history, rows, cols)) == match line_place(history) {
            Some(place) => Some(clamped(place, cols as int)),
            None => None,
        },
{
    assert(before_last(resized(history, rows, cols)).acts =~= history.acts);
}

/// Where there is room for bytes, there is room for the first of them, and then
/// for the rest.
pub proof fn lemma_room_goes_on(history: History, bytes: Seq<u8>, rest: Seq<u8>)
    requires
        has_room(history, bytes + rest),
    ensures
        has_room(history, bytes),
        has_room(advanced(history, bytes), rest),
{
    let all = stream(history);
    lemma_advanced(history, bytes);
    assert(all + (bytes + rest) =~= (all + bytes) + rest);
    lemma_narrow_parts(all + bytes, rest);
}

/// The escape that a sequence starts with.
pub open spec fn escape() -> Seq<u8> {
    seq![0x1bu8]
}

pub open spec fn is_ascii(bytes: Seq<u8>) -> bool {
    forall|i: int| 0 <= i < bytes.len() ==> #[trigger] bytes[i] < 0x80
}

/// Where there is room for an escape, there is room for ASCII, and then for what
/// there was room for before.
pub proof fn lemma_room_for_ascii(history: History, bytes: Seq<u8>, rest: Seq<u8>)
    requires
        has_room(history, rest),
        has_room(history, escape()),
        is_ascii(bytes),
    ensures
        has_room(history, bytes),
        has_room(advanced(history, bytes), rest),
        has_room(advanced(history, bytes), escape()),
{
    lemma_ascii_is_narrow(bytes);
    lemma_room_for_part(history, bytes, rest);
}

/// The same of bytes that hold no wide character, nor the start of one at their
/// end.
pub proof fn lemma_room_for_part(history: History, bytes: Seq<u8>, rest: Seq<u8>)
    requires
        has_room(history, rest),
        has_room(history, escape()),
        whole(history) || (is_narrow(bytes) && (bytes.len() > 0 ==> bytes.last() < 0xe1)),
    ensures
        has_room(history, bytes),
        has_room(advanced(history, bytes), rest),
        has_room(advanced(history, bytes), escape()),
{
    let all = stream(history);
    lemma_advanced(history, bytes);
    lemma_narrow_parts(all, rest);
    lemma_narrow_parts(all, escape());
    lemma_narrow_parts(all, bytes);
    lemma_narrow_parts(all + bytes, rest);
    lemma_narrow_parts(all + bytes, escape());
}

/// Where there is room for a sequence and more, there is room for an escape, and
/// for what stands behind the sequence without it.
pub proof fn lemma_room_without(history: History, sequence: Seq<u8>, rest: Seq<u8>)
    requires
        has_room(history, sequence + rest),
        sequence.len() > 0,
        sequence[0] == 0x1b,
    ensures
        has_room(history, rest),
        has_room(history, escape()),
{
    let all = stream(history);
    lemma_narrow_parts(all, sequence + rest);
    lemma_narrow_parts(sequence, rest);
    assert((sequence + rest)[0] == 0x1b);
    lemma_narrow_parts(all, rest);
    lemma_narrow_parts(all, escape());
}

/// Bytes behind whole characters do what all would have done at once.
pub proof fn lemma_advanced_further(history: History, first: Seq<u8>, second: Seq<u8>)
    requires
        valid_utf8(first),
    ensures
        advanced(advanced(history, first), second) == advanced(history, first + second),
{
    let acts = history.acts;
    if first.len() == 0 {
        assert(first + second =~= second);
    } else if second.len() == 0 {
        assert(first + second =~= first);
    } else if acts.len() > 0 && (acts.last() matches Act::Fed(before) && valid_utf8(before)) {
        let before = acts.last()->Fed_0;
        valid_utf8_concat(before, first);
        assert(before + first + second =~= before + (first + second));
        let middle = acts.drop_last().push(Act::Fed(before + first));
        assert(middle.drop_last() =~= acts.drop_last());
    } else {
        assert(acts.push(Act::Fed(first)).drop_last() =~= acts);
    }
}

/// `vt100::Parser::new`: an emulator of the given size, with room for the given
/// number of lines behind its first row.
#[verifier::external_body]
fn make_emulator(rows: u16, cols: u16, scrollback: usize) -> (emulator: Emulator)
    requires
        rows >= 1,
        cols >= 1,
    ensures
        history_of(emulator) == fresh(rows, cols, scrollback),
{
    Emulator { inner: vt100::Parser::new(rows, cols, scrollback) }
}

/// `vt100::Parser::process`: reads bytes. It would stop where text wraps on the
/// only row, where a wide character has lost its second half or has too few
/// columns, and at a tab near the end of the longest lines.
#[verifier::external_body]
fn feed_emulator(emulator: &mut Emulator, bytes: &[u8])
    requires
        has_room(history_of(*old(emulator)), bytes@) || fits_line(
            history_of(*old(emulator)),
            bytes@,
        ),
    ensures
        history_of(*final(emulator)) == advanced(history_of(*old(emulator)), bytes@),
{
    emulator.inner.process(bytes);
}

/// `vt100::Parser::screen`: the screen as it is. It has the size that the
/// emulator was last given.
#[verifier::external_body]
fn screen_of_emulator(emulator: &Emulator) -> (screen: &vt100::Screen)
    ensures
        shown_on(*screen) == visible(history_of(*emulator)),
        size_in(shown_on(*screen)) == size(history_of(*emulator)),
{
    emulator.inner.screen()
}

/// `vt100::Parser::screen_mut` and `vt100::Screen::set_size`: changes the size.
#[verifier::external_body]
fn resize_emulator(emulator: &mut Emulator, rows: u16, cols: u16)
    requires
        rows >= 1,
        cols >= 1,
    ensures
        history_of(*final(emulator)) == resized(history_of(*old(emulator)), rows, cols),
{
    emulator.inner.screen_mut().set_size(rows, cols);
}

fn narrow_start(first: u8, second: u8) -> (result: bool)
    ensures
        result == starts_narrow(first, second),
{
    first < 0xe1 || (first == 0xe2 && ((0x80 <= second && second <= 0x8b) || (0x94 <= second
        && second <= 0x96) || (0xa0 <= second && second <= 0xa3))) || (first == 0xee && 0x80
        <= second && second <= 0xbf) || (first == 0xef && 0x80 <= second && second <= 0xa3)
}

/// Whether bytes hold no wide character.
pub fn narrow(bytes: &[u8]) -> (result: bool)
    ensures
        result == is_narrow(bytes@),
{
    let mut index: usize = 1;
    while index < bytes.len()
        invariant
            index >= 1,
            forall|i: int|
                0 <= i < index - 1 && i < bytes@.len() - 1 ==> starts_narrow(
                    #[trigger] bytes@[i],
                    bytes@[i + 1],
                ),
        decreases bytes@.len() - index,
    {
        if !narrow_start(bytes[index - 1], bytes[index]) {
            assert(!starts_narrow(bytes@[index - 1], bytes@[index - 1 + 1]));
            return false;
        }
        index += 1;
    }
    true
}

/// Whether no wide character starts with a byte and goes on with more.
fn joined(tail: Option<u8>, bytes: &[u8]) -> (result: bool)
    ensures
        result == joins(tail, bytes@),
{
    match tail {
        Some(last) => bytes.len() == 0 || narrow_start(last, bytes[0]),
        None => true,
    }
}

fn column_kept(letter: u8) -> (result: bool)
    ensures
        result == keeps_column(letter),
{
    letter == 0x6d || letter == 0x4b || letter == 0x4a || letter == 0x58 || letter == 0x40
        || letter == 0x50 || letter == 0x41 || letter == 0x42 || letter == 0x44
}

/// The place behind one more byte of the numbers of a sequence.
fn numbers_next(byte: u8, col: u16) -> (next: Option<(Part, u16)>)
    ensures
        place_view(next) == next_in_numbers(byte, col as int),
{
    if (0x30 <= byte && byte <= 0x39) || byte == 0x3b {
        Some((Part::Numbers, col))
    } else if column_kept(byte) {
        Some((Part::Text, col))
    } else {
        None
    }
}

/// The place behind one more byte of a line.
fn place_next(byte: u8, place: (Part, u16), cols: u16) -> (next: Option<(Part, u16)>)
    ensures
        place_view(next) == next_place(byte, (place.0, place.1 as int), cols as int),
{
    let (part, col): (Part, u16) = place;
    match part {
        Part::Text => {
            if 0x20 <= byte && byte <= 0x7e {
                if col < cols {
                    Some((Part::Text, col + 1))
                } else {
                    None
                }
            } else if byte == 0x0d {
                Some((Part::Text, 0))
            } else if byte == 0x08 {
                Some((Part::Text, if col > 0 { col - 1 } else { 0 }))
            } else if byte == 0x07 || byte == 0x0a {
                Some((Part::Text, col))
            } else if byte == 0x1b {
                Some((Part::Escape, col))
            } else {
                None
            }
        },
        Part::Escape => {
            if byte == 0x5b {
                Some((Part::Start, col))
            } else if byte == 0x5d {
                Some((Part::Title, col))
            } else {
                None
            }
        },
        Part::Start => {
            if byte == 0x48 || byte == 0x47 {
                Some((Part::Text, 0))
            } else {
                numbers_next(byte, col)
            }
        },
        Part::Numbers => numbers_next(byte, col),
        Part::Title => {
            if byte == 0x07 {
                Some((Part::Text, col))
            } else if byte == 0x1b {
                Some((Part::Closing, col))
            } else if 0x20 <= byte && byte <= 0x7e {
                Some((Part::Title, col))
            } else {
                None
            }
        },
        Part::Closing => {
            if byte == 0x5c {
                Some((Part::Text, col))
            } else {
                None
            }
        },
    }
}

/// The place behind bytes that start in a given one and stay in their line.
pub fn place_after(bytes: &[u8], place: (Part, u16), cols: u16) -> (behind: Option<(Part, u16)>)
    ensures
        place_view(behind) == place_behind(bytes@, (place.0, place.1 as int), cols as int),
{
    let mut at: (Part, u16) = place;
    let mut index: usize = 0;
    assert(bytes@.skip(0) =~= bytes@);
    while index < bytes.len()
        invariant
            index <= bytes@.len(),
            place_behind(bytes@, (place.0, place.1 as int), cols as int) == place_behind(
                bytes@.skip(index as int),
                (at.0, at.1 as int),
                cols as int,
            ),
        decreases bytes@.len() - index,
    {
        proof {
            lemma_line_goes_on(bytes@, index as int, (at.0, at.1 as int), cols as int);
        }
        match place_next(bytes[index], at, cols) {
            Some(next) => {
                at = next;
            },
            None => return None,
        }
        index += 1;
    }
    assert(bytes@.skip(index as int) =~= seq![]);
    Some(at)
}

impl Parser {
    /// A new emulator.
    pub fn new(rows: u16, cols: u16, scrollback: usize) -> (parser: Self)
        requires
            rows >= 1,
            cols >= 1,
        ensures
            state_of(parser) == fresh(rows, cols, scrollback),
            size_of(parser) == (rows, cols),
            parser.well_formed(),
    {
        let known = Known {
            rows,
            cols,
            whole: WIDE_COLS <= cols && cols <= MAX_COLS,
            bounded: cols <= MAX_COLS,
            narrow: true,
            tail: None,
            place: Some((Part::Text, 0)),
        };
        Parser { emulator: make_emulator(rows, cols, scrollback), known }
    }

    /// Whether the emulator has room for bytes, wherever they take the cursor.
    pub fn room_for(&self, bytes: &[u8]) -> (result: bool)
        requires
            self.well_formed(),
        ensures
            result == has_room(state_of(*self), bytes@),
    {
        proof {
            lemma_narrow_parts(stream(state_of(*self)), bytes@);
        }
        self.known.rows >= 2 && (self.known.whole || (self.known.bounded && self.known.narrow
            && narrow(bytes) && joined(self.known.tail, bytes)))
    }

    /// Whether bytes stay in the line of the emulator.
    pub fn line_takes(&self, bytes: &[u8]) -> (result: bool)
        requires
            self.well_formed(),
        ensures
            result == fits_line(state_of(*self), bytes@),
    {
        match self.known.place {
            Some(place) => place_after(bytes, place, self.known.cols).is_some(),
            None => false,
        }
    }

    /// Whether the emulator has a second row, and enough columns for any character.
    pub fn takes_wide(&self) -> (result: bool)
        requires
            self.well_formed(),
        ensures
            result == (size_of(*self).0 >= 2 && whole(state_of(*self))),
    {
        self.known.rows >= 2 && self.known.whole
    }

    /// Whether the emulator can be fed bytes.
    pub fn accepts(&self, bytes: &[u8]) -> (result: bool)
        requires
            self.well_formed(),
        ensures
            result == can_show(*self, bytes@),
    {
        self.room_for(bytes) || self.line_takes(bytes)
    }

    /// Shows bytes. They leave the size alone, and cut no character.
    pub fn process(&mut self, bytes: &[u8])
        requires
            can_show(*old(self), bytes@),
        ensures
            state_of(*final(self)) == advanced(state_of(*old(self)), bytes@),
            size_of(*final(self)) == size_of(*old(self)),
            whole(state_of(*final(self))) == whole(state_of(*old(self))),
            is_bounded(state_of(*final(self))) == is_bounded(state_of(*old(self))),
            old(self).well_formed() ==> final(self).well_formed(),
    {
        proof {
            lemma_advanced(state_of(*self), bytes@);
            lemma_narrow_parts(stream(state_of(*self)), bytes@);
        }
        feed_emulator(&mut self.emulator, bytes);
        self.known.narrow = self.known.narrow && narrow(bytes) && joined(self.known.tail, bytes);
        if bytes.len() > 0 {
            self.known.tail = Some(bytes[bytes.len() - 1]);
        }
        self.known.place = match self.known.place {
            Some(place) => place_after(bytes, place, self.known.cols),
            None => None,
        };
    }

    /// The screen as it is.
    pub fn screen(&self) -> (screen: &vt100::Screen)
        ensures
            shown_on(*screen) == visible(state_of(*self)),
            size_in(shown_on(*screen)) == size_of(*self),
    {
        screen_of_emulator(&self.emulator)
    }

    /// Gives the screen another size.
    pub fn set_size(&mut self, rows: u16, cols: u16)
        requires
            rows >= 1,
            cols >= 1,
        ensures
            state_of(*final(self)) == resized(state_of(*old(self)), rows, cols),
            size_of(*final(self)) == (rows, cols),
            whole(state_of(*final(self))) == {
                ||| whole(state_of(*old(self))) && size_of(*old(self)).1 <= cols <= MAX_COLS
                ||| narrow_only(state_of(*old(self))) && WIDE_COLS <= cols <= MAX_COLS
            },
            is_bounded(state_of(*final(self))) == (is_bounded(state_of(*old(self))) && cols
                <= MAX_COLS),
            old(self).well_formed() ==> final(self).well_formed(),
    {
        proof {
            lemma_resized(state_of(*self), rows, cols);
        }
        resize_emulator(&mut self.emulator, rows, cols);
        self.known = Known {
            rows,
            cols,
            whole: (self.known.whole && self.known.cols <= cols && cols <= MAX_COLS) || (
            self.known.bounded && self.known.narrow && WIDE_COLS <= cols && cols <= MAX_COLS),
            bounded: self.known.bounded && cols <= MAX_COLS,
            narrow: self.known.narrow,
            tail: self.known.tail,
            place: match self.known.place {
                Some((part, col)) => Some((part, if col < cols { col } else { cols - 1 })),
                None => None,
            },
        };
    }
}

/// `vt100::Screen::cursor_position`: the row and column of the cursor.
pub assume_specification[ vt100::Screen::cursor_position ](surface: &vt100::Screen) -> (position: (
    u16,
    u16,
))
    ensures
        position == cursor_in(shown_on(*surface)),
;

/// `vt100::Screen::size`: the rows and columns.
pub assume_specification[ vt100::Screen::size ](surface: &vt100::Screen) -> (size: (u16, u16))
    ensures
        size == size_in(shown_on(*surface)),
;

} // verus!
