//! Output means the same however it is cut into chunks.

use vstd::prelude::*;
use vstd::utf8::*;

use crate::emulator::{self, History};
use crate::geometry::Size;
use crate::terminal::{self, Display};
use crate::unicode;

verus! {

// ---------------------------------------------------------------------------
// Units of output in parts.

spec fn shifted(position: Option<int>, by: int) -> Option<int> {
    match position {
        Some(value) => Some(value + by),
        None => None,
    }
}

proof fn lemma_control_end_shift(bytes: Seq<u8>, by: int, at: int)
    requires
        0 <= by <= bytes.len(),
        0 <= at,
    ensures
        terminal::control_end(bytes, by + at) == shifted(
            terminal::control_end(bytes.skip(by), at),
            by,
        ),
    decreases bytes.len() - by - at,
{
    if by + at < bytes.len() {
        lemma_control_end_shift(bytes, by, at + 1);
    }
}

proof fn lemma_string_end_shift(bytes: Seq<u8>, by: int, at: int)
    requires
        0 <= by <= bytes.len(),
        0 <= at,
    ensures
        terminal::string_end(bytes, by + at) == shifted(
            terminal::string_end(bytes.skip(by), at),
            by,
        ),
    decreases bytes.len() - by - at,
{
    if by + at < bytes.len() {
        lemma_string_end_shift(bytes, by, at + 1);
    }
}

/// Where a sequence ends does not depend on what stands before it.
proof fn lemma_sequence_end_shift(bytes: Seq<u8>, by: int, start: int)
    requires
        0 <= by <= bytes.len(),
        0 <= start,
    ensures
        terminal::sequence_end(bytes, by + start) == shifted(
            terminal::sequence_end(bytes.skip(by), start),
            by,
        ),
{
    lemma_control_end_shift(bytes, by, start + 2);
    lemma_string_end_shift(bytes, by, start + 2);
}

proof fn lemma_broken_shift(bytes: Seq<u8>, by: int, at: int)
    requires
        0 <= by <= bytes.len(),
        0 <= at,
    ensures
        terminal::is_broken(bytes, by + at) == terminal::is_broken(bytes.skip(by), at),
    decreases bytes.len() - by - at,
{
    if by + at < bytes.len() {
        lemma_broken_shift(bytes, by, at + 1);
    }
}

/// A string that is broken stays so whatever comes, and never ends.
proof fn lemma_broken_stays(bytes: Seq<u8>, count: int, at: int)
    requires
        0 <= count <= bytes.len(),
        0 <= at,
        terminal::is_broken(bytes.take(count), at),
    ensures
        terminal::is_broken(bytes, at),
        terminal::string_end(bytes, at) is None,
    decreases count - at,
{
    let part = bytes.take(count);
    assert(at < count);
    assert(part[at] == bytes[at]);
    if bytes[at] != 0x1b {
        lemma_broken_stays(bytes, count, at + 1);
    }
}

/// A unit of output does not depend on what stands before it.
proof fn lemma_unit_shift(bytes: Seq<u8>, by: int, at: int)
    requires
        0 <= by,
        0 <= at,
        by + at < bytes.len(),
    ensures
        terminal::unit_end(bytes, by + at) == by + terminal::unit_end(bytes.skip(by), at),
        terminal::is_open(bytes, by + at) == terminal::is_open(bytes.skip(by), at),
{
    let rest = bytes.skip(by);
    assert(rest[at] == bytes[by + at]);
    assert(bytes.skip(by + at) =~= rest.skip(at));
    lemma_sequence_end_shift(bytes, by, at);
    lemma_broken_shift(bytes, by, at + 2);
}

/// A unit that ends among the first bytes is the same there.
proof fn lemma_unit_in_prefix(bytes: Seq<u8>, count: int, at: int)
    requires
        0 <= at < count <= bytes.len(),
        terminal::unit_end(bytes, at) <= count,
    ensures
        terminal::unit_end(bytes.take(count), at) == terminal::unit_end(bytes, at),
        forall|display: Display|
            #[trigger] terminal::after_unit(display, bytes.take(count), at) == terminal::after_unit(
                display,
                bytes,
                at,
            ),
{
    let part = bytes.take(count);
    let end = terminal::unit_end(bytes, at);
    assert(part[at] == bytes[at]);
    terminal::lemma_sequence_end_prefix(bytes, count, at);
    lemma_scalar_in_prefix(bytes.skip(at), count - at);
    assert(part.skip(at) =~= bytes.skip(at).take(count - at));
    assert(terminal::unit_end(part, at) == end);
    terminal::lemma_unit_end(bytes, at);
    assert(part.subrange(at, end) =~= bytes.subrange(at, end));
}

/// A character that is whole among the first bytes is whole among all, and one
/// that is whole among all is whole among the first if they hold it.
proof fn lemma_scalar_in_prefix(bytes: Seq<u8>, count: int)
    requires
        0 < count <= bytes.len(),
    ensures
        valid_first_scalar(bytes.take(count)) ==> valid_first_scalar(bytes),
        valid_first_scalar(bytes) && length_of_first_scalar(bytes) <= count ==> valid_first_scalar(
            bytes.take(count),
        ),
        length_of_first_scalar(bytes.take(count)) == length_of_first_scalar(bytes),
        !valid_first_scalar(bytes.take(count)) && !unicode::is_cut_short(bytes.take(count))
            ==> !valid_first_scalar(bytes) && !unicode::is_cut_short(bytes),
        valid_first_scalar(bytes) ==> !unicode::is_cut_short(bytes),
{
    unicode::lemma_scalar_shape(bytes);
    unicode::lemma_scalar_shape(bytes.take(count));
}

/// A unit that needs nothing more among the first bytes is the same among all,
/// and needs nothing more there.
proof fn lemma_unit_is_settled(bytes: Seq<u8>, count: int, at: int)
    requires
        0 <= at < count <= bytes.len(),
        !terminal::is_open(bytes.take(count), at),
    ensures
        !terminal::is_open(bytes, at),
        terminal::unit_end(bytes, at) == terminal::unit_end(bytes.take(count), at),
{
    let part = bytes.take(count);
    assert(part[at] == bytes[at]);
    assert(part.skip(at) =~= bytes.skip(at).take(count - at));
    assert(bytes.skip(at)[0] == bytes[at]);
    terminal::lemma_sequence_end_prefix(bytes, count, at);
    lemma_scalar_in_prefix(bytes.skip(at), count - at);
    if bytes[at] == 0x1b && terminal::sequence_end(part, at) is None {
        assert(part[at + 1] == bytes[at + 1]);
        lemma_broken_stays(bytes, count, at + 2);
    }
}

/// How much is ready does not depend on what stands before it.
proof fn lemma_ready_shift(bytes: Seq<u8>, by: int, at: int)
    requires
        0 <= by <= bytes.len(),
        0 <= at,
    ensures
        terminal::ready_from(bytes, by + at) == by + terminal::ready_from(bytes.skip(by), at),
    decreases bytes.len() - by - at,
{
    if by + at < bytes.len() {
        lemma_unit_shift(bytes, by, at);
        terminal::lemma_unit_end(bytes.skip(by), at);
        lemma_ready_shift(bytes, by, terminal::unit_end(bytes.skip(by), at));
    }
}

// ---------------------------------------------------------------------------
// Two chunks.

/// What output does from a position on does not depend on what came before.
proof fn lemma_replay_behind(display: Display, first: Seq<u8>, second: Seq<u8>, at: int)
    requires
        0 <= at <= second.len(),
    ensures
        terminal::replayed_from(display, first + second, first.len() + at)
            == terminal::replayed_from(display, second, at),
    decreases second.len() - at,
{
    let whole = first + second;
    let by = first.len() as int;
    if at < second.len() {
        assert(whole.skip(by) =~= second);
        lemma_unit_shift(whole, by, at);
        lemma_sequence_end_shift(whole, by, at);
        assert(whole.skip(by + at) =~= second.skip(at));
        assert(whole[by + at] == second[at]);
        terminal::lemma_unit_end(second, at);
        terminal::lemma_unit_end(whole, by + at);
        let end = terminal::unit_end(second, at);
        assert(terminal::unit_end(whole, by + at) == by + end);
        assert(whole.subrange(by + at, by + end) =~= second.subrange(at, end));
        let next = terminal::after_unit(display, second, at);
        assert(terminal::after_unit(display, whole, by + at) == next);
        lemma_replay_behind(next, first, second, end);
    }
}

/// Output goes through every point up to which its first bytes could be handed
/// on.
proof fn lemma_walk_goes_on(display: Display, whole: Seq<u8>, count: int, upto: int, at: int)
    requires
        0 <= at <= count <= whole.len(),
        terminal::ready_from(whole.take(count), at) <= upto <= whole.len(),
    ensures
        ({
            let first = terminal::ready_from(whole.take(count), at);
            &&& terminal::ready_from(whole, at) == terminal::ready_from(whole, first)
            &&& terminal::replayed_from(display, whole.take(upto), at) == terminal::replayed_from(
                terminal::replayed_from(display, whole.take(first), at),
                whole.take(upto),
                first,
            )
        }),
    decreases count - at,
{
    let early = whole.take(count);
    let first = terminal::ready_from(early, at);
    terminal::lemma_ready_from(early, at);
    if at < count && !terminal::is_open(early, at) {
        let end = terminal::unit_end(early, at);
        terminal::lemma_unit_end(early, at);
        terminal::lemma_ready_from(early, end);
        lemma_unit_is_settled(whole, count, at);
        lemma_unit_in_prefix(whole, upto, at);
        lemma_unit_in_prefix(whole, first, at);
        let next = terminal::after_unit(display, whole, at);
        assert(terminal::after_unit(display, whole.take(upto), at) == next);
        assert(terminal::after_unit(display, whole.take(first), at) == next);
        lemma_walk_goes_on(next, whole, count, upto, end);
    }
}

/// Of bytes of which the first came earlier: what is ready of the first, and then
/// of the rest, does what all that is ready would have done at once.
proof fn lemma_early_and_late(display: Display, whole: Seq<u8>, count: int)
    requires
        0 <= count <= whole.len(),
    ensures
        ({
            let first = terminal::ready_length(whole.take(count));
            let late = whole.skip(first);
            let second = terminal::ready_length(late);
            let ready = terminal::ready_length(whole);
            &&& 0 <= first <= count
            &&& terminal::replayed(
                terminal::replayed(display, whole.take(first)),
                late.take(second),
            ) == terminal::replayed(display, whole.take(ready))
            &&& late.skip(second) == whole.skip(ready)
        }),
{
    let first = terminal::ready_length(whole.take(count));
    terminal::lemma_ready_from(whole.take(count), 0);
    let late = whole.skip(first);
    let second = terminal::ready_length(late);
    terminal::lemma_ready_from(late, 0);
    let ready = first + second;
    lemma_walk_goes_on(display, whole, count, ready, 0);
    lemma_ready_shift(whole, first, 0);
    lemma_parts_of(whole, first, second);
    lemma_replay_behind(
        terminal::replayed(display, whole.take(first)),
        whole.take(first),
        late.take(second),
        0,
    );
}

proof fn lemma_parts_of(whole: Seq<u8>, first: int, second: int)
    requires
        0 <= first,
        0 <= second,
        first + second <= whole.len(),
    ensures
        whole.take(first + second) == whole.take(first) + whole.skip(first).take(second),
        whole.skip(first).skip(second) == whole.skip(first + second),
        whole.take(first).len() == first,
{
    assert(whole.take(first + second) =~= whole.take(first) + whole.skip(first).take(second));
    assert(whole.skip(first).skip(second) =~= whole.skip(first + second));
}

/// How two chunks make up one run of bytes.
proof fn lemma_chunks_join(pending: Seq<u8>, chunk: Seq<u8>, next: Seq<u8>, first: int)
    requires
        0 <= first <= (pending + chunk).len(),
    ensures
        ({
            let whole = pending + chunk + next;
            let early = pending + chunk;
            &&& whole.take(early.len() as int) == early
            &&& early.take(first) == whole.take(first)
            &&& early.skip(first) + next == whole.skip(first)
            &&& pending + (chunk + next) == whole
        }),
{
    let whole = pending + chunk + next;
    let early = pending + chunk;
    assert(whole.take(early.len() as int) =~= early);
    assert(early.take(first) =~= whole.take(first));
    assert(early.skip(first) + next =~= whole.skip(first));
    assert(pending + (chunk + next) =~= whole);
}

/// Two chunks of output do what both would have done at once.
pub proof fn law_two_chunks_are_one(
    display: Display,
    pending: Seq<u8>,
    chunk: Seq<u8>,
    next: Seq<u8>,
)
    ensures
        ({
            let (between, waiting) = terminal::processed(display, pending, chunk);
            terminal::processed(between, waiting, next) == terminal::processed(
                display,
                pending,
                chunk + next,
            )
        }),
{
    let whole = pending + chunk + next;
    let early = pending + chunk;
    let first = terminal::ready_length(early);
    terminal::lemma_ready_from(early, 0);
    lemma_chunks_join(pending, chunk, next, first);
    lemma_early_and_late(display, whole, early.len() as int);
}

// ---------------------------------------------------------------------------
// Many chunks.

/// Chunks one after the other.
pub open spec fn stream_of(chunks: Seq<Seq<u8>>) -> Seq<u8>
    decreases chunks.len(),
{
    if chunks.len() == 0 {
        seq![]
    } else {
        stream_of(chunks.drop_last()) + chunks.last()
    }
}

/// What output has come to behind chunks that came one after the other, and the
/// bytes that still wait.
pub open spec fn processed_in_chunks(display: Display, chunks: Seq<Seq<u8>>) -> (Display, Seq<u8>)
    decreases chunks.len(),
{
    if chunks.len() == 0 {
        (display, seq![])
    } else {
        let (between, waiting) = processed_in_chunks(display, chunks.drop_last());
        terminal::processed(between, waiting, chunks.last())
    }
}

proof fn lemma_nothing_processed(display: Display)
    ensures
        terminal::processed(display, seq![], seq![]) == (display, Seq::<u8>::empty()),
{
    let none = Seq::<u8>::empty();
    terminal::lemma_ready_from(none + none, 0);
    assert(none + none =~= none);
    assert(none.take(0) =~= none);
    assert(none.skip(0) =~= none);
}

/// Output does the same however it is cut into chunks: the emulator, the last
/// character, the modes, the bell and the bytes that wait are those of the whole
/// stream at once.
pub proof fn law_chunks_make_no_difference(display: Display, chunks: Seq<Seq<u8>>)
    ensures
        processed_in_chunks(display, chunks) == terminal::processed(
            display,
            seq![],
            stream_of(chunks),
        ),
    decreases chunks.len(),
{
    let none = Seq::<u8>::empty();
    if chunks.len() == 0 {
        lemma_nothing_processed(display);
    } else {
        let early = stream_of(chunks.drop_last());
        law_chunks_make_no_difference(display, chunks.drop_last());
        law_two_chunks_are_one(display, none, early, chunks.last());
    }
}

/// Replaying the retained stream of a live pane shows what the pane shows once
/// its output has ended.
pub proof fn law_replay_shows_what_was_live(state: History, chunks: Seq<Seq<u8>>)
    ensures
        ({
            let start = Display { state, last: None, wrap: true, bell: false };
            let (live, waiting) = processed_in_chunks(start, chunks);
            terminal::replayed_stream(state, stream_of(chunks)) == emulator::advanced(
                live.state,
                waiting,
            )
        }),
{
    law_chunks_make_no_difference(Display { state, last: None, wrap: true, bell: false }, chunks);
}

// ---------------------------------------------------------------------------
// Output that reaches the emulator as it is.

/// Whether a sequence goes to the emulator as it is, and leaves lines wrapping.
pub open spec fn passes(sequence: Seq<u8>) -> bool {
    &&& sequence != seq![0x1bu8, 0x23, 0x38]
    &&& terminal::wrap_set_by(sequence) != Some(false)
    &&& terminal::repetition(sequence) is None
}

/// Whether the bytes that say what an escape at a position starts are ASCII.
pub open spec fn has_ascii_head(bytes: Seq<u8>, at: int) -> bool {
    &&& at + 1 < bytes.len() ==> bytes[at + 1] < 0x80
    &&& at + 2 < bytes.len() && bytes[at + 1] == 0x23 ==> bytes[at + 2] < 0x80
}

/// Whether every sequence in output goes to the emulator as it is.
pub open spec fn is_plain(bytes: Seq<u8>) -> bool {
    forall|at: int|
        0 <= at < bytes.len() && #[trigger] bytes[at] == 0x1b ==> has_ascii_head(bytes, at) && (
        terminal::sequence_end(bytes, at) matches Some(end) ==> passes(bytes.subrange(at, end)))
}

/// A sequence with an ASCII head ends with ASCII.
proof fn lemma_sequence_ends_with_ascii(bytes: Seq<u8>, at: int)
    requires
        0 <= at,
        has_ascii_head(bytes, at),
    ensures
        terminal::sequence_end(bytes, at) matches Some(end) ==> bytes[end - 1] < 0x80,
{
    lemma_control_end_is_ascii(bytes, at + 2);
    lemma_string_end_is_ascii(bytes, at + 2);
}

proof fn lemma_control_end_is_ascii(bytes: Seq<u8>, at: int)
    ensures
        terminal::control_end(bytes, at) matches Some(end) ==> bytes[end - 1] < 0x80,
    decreases bytes.len() - at,
{
    if at < bytes.len() {
        lemma_control_end_is_ascii(bytes, at + 1);
    }
}

proof fn lemma_string_end_is_ascii(bytes: Seq<u8>, at: int)
    ensures
        terminal::string_end(bytes, at) matches Some(end) ==> bytes[end - 1] < 0x80,
    decreases bytes.len() - at,
{
    if at < bytes.len() {
        lemma_string_end_is_ascii(bytes, at + 1);
    }
}

/// In UTF-8 the bytes up to behind an ASCII byte are UTF-8, and so are those up
/// to the end of a character.
proof fn lemma_unit_keeps_utf8(bytes: Seq<u8>, at: int)
    requires
        valid_utf8(bytes),
        0 <= at < bytes.len(),
        valid_utf8(bytes.take(at)),
        bytes[at] == 0x1b ==> has_ascii_head(bytes, at),
    ensures
        valid_utf8(bytes.take(terminal::unit_end(bytes, at))),
        bytes[at] >= 0x80 ==> valid_utf8(bytes.skip(at)),
{
    let rest = bytes.skip(at);
    let end = terminal::unit_end(bytes, at);
    terminal::lemma_unit_end(bytes, at);
    if bytes[at] == 0x1b {
        lemma_sequence_ends_with_ascii(bytes, at);
    }
    assert(rest =~= bytes.subrange(at, bytes.len() as int));
    assert(bytes.take(at) =~= bytes.subrange(0, at));
    if !valid_utf8(rest) {
        partial_valid_partial_invalid_utf8(bytes, at);
    }
    assert(valid_first_scalar(rest));
    if bytes[at] >= 0x80 {
        let scalar = rest.take(length_of_first_scalar(rest));
        unicode::lemma_scalar_shape(rest);
        unicode::lemma_scalar_shape(scalar);
        assert(pop_first_scalar(scalar) =~= seq![]);
        reveal_with_fuel(valid_utf8, 2);
        valid_utf8_concat(bytes.take(at), scalar);
        assert(bytes.take(at) + scalar =~= bytes.take(end));
    } else {
        lemma_behind_ascii(bytes, end - 1);
    }
}

proof fn lemma_behind_ascii(bytes: Seq<u8>, at: int)
    requires
        valid_utf8(bytes),
        0 <= at < bytes.len(),
        bytes[at] < 0x80,
    ensures
        valid_utf8(bytes.take(at + 1)),
{
    is_char_boundary_iff_not_is_continuation_byte(bytes, at);
    valid_utf8_split(bytes, at);
    let head = bytes.subrange(0, at);
    let rest = bytes.subrange(at, bytes.len() as int);
    assert(rest[0] == bytes[at]);
    let single = seq![bytes[at]];
    unicode::lemma_scalar_shape(single);
    assert(pop_first_scalar(single) =~= seq![]);
    reveal_with_fuel(valid_utf8, 2);
    valid_utf8_concat(head, single);
    assert(head + single =~= bytes.take(at + 1));
}

/// Plain output from a position on.
proof fn lemma_plain_replay(start: History, display: Display, bytes: Seq<u8>, at: int)
    requires
        display.wrap,
        valid_utf8(bytes),
        is_plain(bytes),
        0 <= at <= bytes.len(),
        valid_utf8(bytes.take(at)),
        display.state == emulator::advanced(start, bytes.take(at)),
    ensures
        terminal::replayed_from(display, bytes, at).wrap,
        terminal::replayed_from(display, bytes, at).state == emulator::advanced(start, bytes),
    decreases bytes.len() - at,
{
    if at < bytes.len() {
        let end = terminal::unit_end(bytes, at);
        let unit = bytes.subrange(at, end);
        let next = terminal::after_unit(display, bytes, at);
        terminal::lemma_unit_end(bytes, at);
        lemma_unit_keeps_utf8(bytes, at);
        if bytes[at] == 0x1b && terminal::sequence_end(bytes, at) is Some {
            assert(passes(unit));
        }
        assert(next.wrap);
        assert(next.state == emulator::advanced(display.state, unit));
        emulator::lemma_advanced_further(start, bytes.take(at), unit);
        assert(bytes.take(at) + unit =~= bytes.take(end));
        lemma_plain_replay(start, next, bytes, end);
    } else {
        assert(bytes.take(at) =~= bytes);
    }
}

/// Where lines wrap, plain output reaches the emulator as it is.
pub proof fn law_plain_output_is_handed_on(display: Display, bytes: Seq<u8>)
    requires
        display.wrap,
        valid_utf8(bytes),
        is_plain(bytes),
    ensures
        terminal::replayed(display, bytes).wrap,
        terminal::replayed(display, bytes).state == emulator::advanced(display.state, bytes),
{
    assert(bytes.take(0) =~= seq![]);
    lemma_plain_replay(display.state, display, bytes, 0);
}

// ---------------------------------------------------------------------------
// Sequences that are not left to the emulator.

proof fn lemma_control_ends(bytes: Seq<u8>, at: int, end: int)
    requires
        0 <= at < end <= bytes.len(),
        0x40 <= bytes[end - 1] <= 0x7e,
        forall|i: int| at <= i < end - 1 ==> #[trigger] bytes[i] < 0x40,
    ensures
        terminal::control_end(bytes, at) == Some(end),
    decreases end - at,
{
    if at < end - 1 {
        assert(bytes[at] < 0x40);
        lemma_control_ends(bytes, at + 1, end);
    }
}

proof fn lemma_string_ends(bytes: Seq<u8>, at: int, end: int)
    requires
        0 <= at < end <= bytes.len(),
        bytes[end - 1] == 0x07,
        forall|i: int| at <= i < end - 1 ==> #[trigger] bytes[i] != 0x07 && bytes[i] != 0x1b,
    ensures
        terminal::string_end(bytes, at) == Some(end),
    decreases end - at,
{
    if at < end - 1 {
        assert(bytes[at] != 0x07 && bytes[at] != 0x1b);
        lemma_string_ends(bytes, at + 1, end);
    }
}

proof fn lemma_all_before(bytes: Seq<u8>, separator: u8)
    requires
        forall|i: int| 0 <= i < bytes.len() ==> #[trigger] bytes[i] != separator,
    ensures
        terminal::up_to(bytes, separator) == bytes,
    decreases bytes.len(),
{
    if bytes.len() > 0 {
        let rest = bytes.skip(1);
        assert forall|i: int| 0 <= i < rest.len() implies #[trigger] rest[i] != separator by {
            assert(rest[i] == bytes[i + 1]);
        }
        lemma_all_before(rest, separator);
        assert(seq![bytes[0]] + rest =~= bytes);
    } else {
        assert(bytes =~= seq![]);
    }
}

/// A bell that ends a string is no bell to be heard.
pub proof fn law_bell_behind_a_string_is_silent(display: Display, kind: u8, body: Seq<u8>)
    requires
        terminal::starts_string(kind),
        forall|i: int| 0 <= i < body.len() ==> #[trigger] body[i] != 0x07 && body[i] != 0x1b,
    ensures
        ({
            let sequence = seq![0x1bu8, kind] + body + seq![0x07u8];
            terminal::replayed(display, sequence) == terminal::fed(display, sequence)
        }),
{
    let sequence = seq![0x1bu8, kind] + body + seq![0x07u8];
    let end = sequence.len() as int;
    assert(sequence[0] == 0x1b && sequence[1] == kind && sequence[end - 1] == 0x07);
    assert forall|i: int| 2 <= i < end - 1 implies #[trigger] sequence[i] != 0x07 && sequence[i]
        != 0x1b by {
        assert(sequence[i] == body[i - 2]);
    }
    lemma_string_ends(sequence, 2, end);
    assert(sequence.subrange(0, end) =~= sequence);
    assert(seq![0x1bu8, 0x23, 0x38][1] == 0x23);
    assert(seq![0x1bu8, 0x63][1] == 0x63);
    reveal_with_fuel(terminal::replayed_from, 2);
}

/// A bell that stands alone is heard.
pub proof fn law_bell_alone_is_heard(display: Display)
    ensures
        terminal::replayed(display, seq![0x07u8]) == (Display {
            bell: true,
            ..terminal::fed(display, seq![0x07u8])
        }),
{
    let bytes = seq![0x07u8];
    assert(bytes.subrange(0, 1) =~= bytes);
    reveal_with_fuel(terminal::replayed_from, 2);
}

/// A character with a repetition behind it is written once, and then as often as
/// the repetition says.
pub proof fn law_repetition_writes_again(display: Display, character: u8, digits: Seq<u8>)
    requires
        0x20 <= character < 0x7f,
        terminal::are_digits(digits),
        terminal::decimal(digits) <= usize::MAX,
    ensures
        ({
            let bytes = seq![character, 0x1b, 0x5b] + digits + seq![98u8];
            terminal::replayed(display, bytes).state == terminal::written_times(
                display.state,
                seq![character],
                display.wrap,
                terminal::decimal(digits) + 1,
            )
        }),
{
    let bytes = seq![character, 0x1b, 0x5b] + digits + seq![98u8];
    let end = bytes.len() as int;
    let first = terminal::after_unit(display, bytes, 0);
    assert(bytes[0] == character && bytes[1] == 0x1b && bytes[2] == 0x5b && bytes[end - 1] == 98);
    assert(bytes.subrange(0, 1) =~= seq![character]);
    assert(first == terminal::printed(display, seq![character]));
    assert forall|i: int| 3 <= i < end - 1 implies #[trigger] bytes[i] < 0x40 by {
        assert(bytes[i] == digits[i - 3]);
    }
    lemma_control_ends(bytes, 3, end);
    let sequence = bytes.subrange(1, end);
    assert(sequence[0] == 0x1b && sequence[1] == 0x5b && sequence.last() == 98);
    assert(sequence[2] == digits[0]);
    assert(sequence.subrange(2, sequence.len() - 1) =~= digits);
    lemma_all_before(digits, 59);
    assert(terminal::repetition(sequence) == Some(terminal::decimal(digits) as int));
    assert(seq![0x1bu8, 0x23, 0x38][1] == 0x23);
    assert(seq![0x1bu8, 0x63][1] == 0x63);
    assert(terminal::unit_end(bytes, 0) == 1);
    assert(terminal::unit_end(bytes, 1) == end);
    reveal_with_fuel(terminal::replayed_from, 3);
    lemma_written_once_more(
        display.state,
        seq![character],
        display.wrap,
        terminal::decimal(digits),
    );
}

proof fn lemma_written_once_more(state: History, character: Seq<u8>, wrap: bool, count: nat)
    ensures
        terminal::written_times(terminal::written(state, character, wrap), character, wrap, count)
            == terminal::written_times(state, character, wrap, count + 1),
    decreases count,
{
    reveal_with_fuel(terminal::written_times, 2);
    if count > 0 {
        lemma_written_once_more(state, character, wrap, (count - 1) as nat);
    }
}

/// A reset lets lines wrap, and leaves nothing to repeat.
pub proof fn law_reset_forgets(display: Display)
    ensures
        ({
            let after = terminal::replayed(display, seq![0x1bu8, 0x63]);
            after.wrap && after.last is None && after.bell == display.bell
        }),
{
    let bytes = seq![0x1bu8, 0x63];
    assert(bytes.subrange(0, 2) =~= bytes);
    assert(seq![0x1bu8, 0x23, 0x38].len() == 3);
    reveal_with_fuel(terminal::replayed_from, 2);
}

// ---------------------------------------------------------------------------
// Numbers, and where they put the cursor.

/// Decimal digits are read from the left: what stands behind counts less.
pub proof fn law_decimal_reads_from_the_left(first: Seq<u8>, digit: u8)
    requires
        48 <= digit <= 57,
    ensures
        terminal::decimal(seq![digit]) == digit - 48,
        terminal::decimal(first.push(digit)) == 10 * terminal::decimal(first) + (digit - 48),
{
    assert(first.push(digit).drop_last() =~= first);
    assert(seq![digit].drop_last() =~= seq![]);
    assert(seq![digit].last() == digit);
    reveal_with_fuel(terminal::decimal, 2);
}

/// The digits that are written for a number are read back as that number.
pub proof fn law_written_numbers_are_read_back(number: nat)
    ensures
        terminal::are_digits(terminal::digits_of(number)),
        terminal::decimal(terminal::digits_of(number)) == number,
        number > 0 ==> terminal::digits_of(number)[0] != 48,
    decreases number,
{
    let digits = terminal::digits_of(number);
    if number < 10 {
        law_decimal_reads_from_the_left(seq![], (48 + number) as u8);
        assert(digits =~= seq![(48 + number) as u8]);
    } else {
        let front = terminal::digits_of(number / 10);
        law_written_numbers_are_read_back(number / 10);
        law_decimal_reads_from_the_left(front, (48 + number % 10) as u8);
        assert(digits =~= front.push((48 + number % 10) as u8));
    }
}

/// Whether bytes are the sequence that puts the cursor in a row and a column, both
/// counted from one: `CSI row ; column H`.
pub open spec fn puts_cursor(bytes: Seq<u8>, row: nat, col: nat) -> bool {
    exists|middle: int|
        {
            &&& 2 <= middle < bytes.len() - 1
            &&& bytes[0] == 0x1b && bytes[1] == 0x5b
            &&& #[trigger] bytes[middle] == 0x3b
            &&& bytes.last() == 0x48
            &&& terminal::are_digits(bytes.subrange(2, middle))
            &&& terminal::decimal(bytes.subrange(2, middle)) == row
            &&& terminal::are_digits(bytes.subrange(middle + 1, bytes.len() - 1))
            &&& terminal::decimal(bytes.subrange(middle + 1, bytes.len() - 1)) == col
        }
}

proof fn lemma_cursor_sequence(row: nat, col: nat)
    ensures
        puts_cursor(terminal::cursor_sequence(row, col), row, col),
{
    let bytes = terminal::cursor_sequence(row, col);
    let middle = 2 + terminal::digits_of(row).len() as int;
    law_written_numbers_are_read_back(row);
    law_written_numbers_are_read_back(col);
    assert(bytes[middle] == 0x3b);
    assert(bytes.subrange(2, middle) =~= terminal::digits_of(row));
    assert(bytes.subrange(middle + 1, bytes.len() - 1) =~= terminal::digits_of(col));
}

/// Where lines do not wrap, a character in the last column is followed by the
/// sequence that puts the cursor back there, in the row where it was; everywhere
/// else, and where lines wrap, the emulator gets the character alone.
pub proof fn law_cursor_is_held_in_the_last_column(state: History, character: Seq<u8>, wrap: bool)
    requires
        emulator::size(state).0 > 0,
        emulator::size(state).1 > 0,
    ensures
        ({
            let (row, col) = emulator::cursor_in(emulator::visible(state));
            let (rows, cols) = emulator::size(state);
            let after = terminal::written(state, character, wrap);
            let shown = emulator::advanced(state, character);
            &&& wrap || col + 1 < cols ==> after == shown
            &&& !wrap && col + 1 >= cols ==> exists|held: Seq<u8>|
                {
                    &&& #[trigger] emulator::advanced(shown, held) == after
                    &&& row < rows ==> puts_cursor(held, (row + 1) as nat, cols as nat)
                    &&& row >= rows ==> puts_cursor(held, rows as nat, cols as nat)
                }
        }),
{
    let (row, col) = emulator::cursor_in(emulator::visible(state));
    let (rows, cols) = emulator::size(state);
    let shown = emulator::advanced(state, character);
    emulator::lemma_advanced(state, character);
    let last = if row < rows {
        row as nat
    } else {
        (rows - 1) as nat
    };
    let held = terminal::cursor_sequence(last + 1, cols as nat);
    lemma_cursor_sequence(last + 1, cols as nat);
    if !wrap && col + 1 >= cols {
        assert(emulator::advanced(shown, held) == terminal::written(state, character, wrap));
    }
}

/// Whether bytes fill a row with the letter `E` from its first column on.
pub open spec fn fills_row(bytes: Seq<u8>, row: nat, cols: nat) -> bool {
    &&& bytes.len() > cols
    &&& puts_cursor(bytes.take(bytes.len() - cols), row, 1)
    &&& forall|i: int| bytes.len() - cols <= i < bytes.len() ==> #[trigger] bytes[i] == 0x45
}

/// Parts one after the other.
pub open spec fn in_order(parts: Seq<Seq<u8>>) -> Seq<u8>
    decreases parts.len(),
{
    if parts.len() == 0 {
        seq![]
    } else {
        in_order(parts.drop_last()) + parts.last()
    }
}

proof fn lemma_aligned_rows(rows: nat, cols: nat) -> (parts: Seq<Seq<u8>>)
    ensures
        parts.len() == rows,
        forall|i: int| 0 <= i < rows ==> fills_row(#[trigger] parts[i], (i + 1) as nat, cols),
        terminal::aligned_rows(rows, cols) == in_order(parts),
    decreases rows,
{
    if rows == 0 {
        seq![]
    } else {
        let front = lemma_aligned_rows((rows - 1) as nat, cols);
        let row = terminal::aligned_row(rows, cols);
        let place = terminal::cursor_sequence(rows, 1);
        lemma_cursor_sequence(rows, 1);
        assert(row.take(row.len() - cols) =~= place);
        assert(front.push(row).drop_last() =~= front);
        front.push(row)
    }
}

/// The alignment pattern clears the screen, fills every row with the letter `E`,
/// and puts the cursor back where it was.
pub proof fn law_alignment_fills_the_screen(size: (u16, u16), cursor: (u16, u16))
    ensures
        exists|parts: Seq<Seq<u8>>, last: Seq<u8>|
            {
                &&& terminal::alignment(size, cursor) == seq![0x1bu8, 0x5b, 0x32, 0x4a]
                    + #[trigger] in_order(parts) + last
                &&& parts.len() == size.0
                &&& forall|i: int|
                    0 <= i < size.0 ==> fills_row(#[trigger] parts[i], (i + 1) as nat, size.1 as nat)
                &&& #[trigger] puts_cursor(last, (cursor.0 + 1) as nat, (cursor.1 + 1) as nat)
            },
{
    let parts = lemma_aligned_rows(size.0 as nat, size.1 as nat);
    let last = terminal::cursor_sequence((cursor.0 + 1) as nat, (cursor.1 + 1) as nat);
    lemma_cursor_sequence((cursor.0 + 1) as nat, (cursor.1 + 1) as nat);
    assert(terminal::alignment(size, cursor) == seq![0x1bu8, 0x5b, 0x32, 0x4a] + in_order(parts)
        + last);
}

/// `ESC # 8` shows the alignment pattern, and changes nothing else.
pub proof fn law_alignment_is_shown(display: Display)
    ensures
        ({
            let after = terminal::replayed(display, seq![0x1bu8, 0x23, 0x38]);
            let cursor = emulator::cursor_in(emulator::visible(display.state));
            after == (Display {
                state: emulator::advanced(
                    display.state,
                    terminal::alignment(emulator::size(display.state), cursor),
                ),
                ..display
            })
        }),
{
    let bytes = seq![0x1bu8, 0x23, 0x38];
    assert(bytes.subrange(0, 3) =~= bytes);
    reveal_with_fuel(terminal::replayed_from, 2);
}

/// Numbers kept apart by semicolons.
pub open spec fn listed(numbers: Seq<nat>) -> Seq<u8>
    decreases numbers.len(),
{
    if numbers.len() == 0 {
        seq![]
    } else if numbers.len() == 1 {
        terminal::digits_of(numbers[0])
    } else {
        terminal::digits_of(numbers[0]) + seq![0x3bu8] + listed(numbers.skip(1))
    }
}

proof fn lemma_first_listed(digits: Seq<u8>, rest: Seq<u8>)
    requires
        terminal::are_digits(digits),
        rest.len() == 0 || rest[0] == 0x3b,
    ensures
        terminal::up_to(digits + rest, 0x3b) == digits,
    decreases digits.len(),
{
    let all = digits + rest;
    if digits.len() == 1 {
        assert(all.skip(1) =~= rest);
        assert(terminal::up_to(rest, 0x3b) =~= seq![]);
        assert(all[0] == digits[0]);
        assert(48 <= digits[0] <= 57);
        assert(terminal::up_to(all, 0x3b) =~= digits);
    } else {
        let next = digits.skip(1);
        assert forall|i: int| 0 <= i < next.len() implies 48 <= #[trigger] next[i] <= 57 by {
            assert(next[i] == digits[i + 1]);
        }
        lemma_first_listed(next, rest);
        assert(all.skip(1) =~= next + rest);
        assert(48 <= digits[0] <= 57);
        assert(terminal::up_to(all, 0x3b) =~= digits);
    }
}

proof fn lemma_written_number(number: nat, limit: nat)
    requires
        number <= limit,
    ensures
        terminal::number_in(terminal::digits_of(number), limit) == Some(number),
{
    law_written_numbers_are_read_back(number);
    assert(48 <= terminal::digits_of(number)[0] <= 57);
}

proof fn lemma_names_wrap(numbers: Seq<nat>)
    requires
        numbers.len() > 0,
        forall|i: int| 0 <= i < numbers.len() ==> #[trigger] numbers[i] <= 65535,
    ensures
        terminal::names_wrap(listed(numbers)) == Some(numbers.contains(7)),
    decreases numbers.len(),
{
    let first = numbers[0];
    let digits = terminal::digits_of(first);
    let list = listed(numbers);
    law_written_numbers_are_read_back(first);
    lemma_written_number(first, 65535);
    if numbers.len() == 1 {
        assert(digits + seq![] =~= list);
        lemma_first_listed(digits, seq![]);
        if first == 7 {
            assert(numbers.contains(numbers[0]));
        }
    } else {
        let rest = numbers.skip(1);
        assert forall|i: int| 0 <= i < rest.len() implies #[trigger] rest[i] <= 65535 by {
            assert(rest[i] == numbers[i + 1]);
        }
        lemma_names_wrap(rest);
        let behind = seq![0x3bu8] + listed(rest);
        assert(list =~= digits + behind);
        lemma_first_listed(digits, behind);
        assert(list.skip(digits.len() as int + 1) =~= listed(rest));
        if rest.contains(7) {
            let i = choose|i: int| 0 <= i < rest.len() && rest[i] == 7;
            assert(numbers[i + 1] == 7);
        }
        if numbers.contains(7) && first != 7 {
            let i = choose|i: int| 0 <= i < numbers.len() && numbers[i] == 7;
            assert(rest[i - 1] == 7);
        }
        if first == 7 {
            assert(numbers.contains(numbers[0]));
        }
    }
}

/// Private modes among which is 7 turn wrapping on with `h` and off with `l`;
/// others leave it alone. The emulator gets the sequence in either case.
pub proof fn law_private_modes_set_wrapping(display: Display, numbers: Seq<nat>, on: bool)
    requires
        numbers.len() > 0,
        forall|i: int| 0 <= i < numbers.len() ==> #[trigger] numbers[i] <= 65535,
    ensures
        ({
            let end = if on {
                0x68u8
            } else {
                0x6cu8
            };
            let sequence = seq![0x1bu8, 0x5b, 0x3f] + listed(numbers) + seq![end];
            terminal::after_sequence(display, sequence) == (Display {
                state: emulator::advanced(display.state, sequence),
                wrap: if numbers.contains(7) {
                    on
                } else {
                    display.wrap
                },
                ..display
            })
        }),
{
    let end = if on {
        0x68u8
    } else {
        0x6cu8
    };
    let list = listed(numbers);
    let sequence = seq![0x1bu8, 0x5b, 0x3f] + list + seq![end];
    lemma_names_wrap(numbers);
    law_written_numbers_are_read_back(numbers[0]);
    assert(sequence.subrange(3, sequence.len() - 1) =~= list);
    assert(sequence[0] == 0x1b && sequence[1] == 0x5b && sequence[2] == 0x3f);
    assert(sequence.last() == end);
    assert(list.len() > 0);
    assert(seq![0x1bu8, 0x23, 0x38][1] == 0x23);
    assert(seq![0x1bu8, 0x63][1] == 0x63);
}

/// A character that is not ASCII is written once, and is then the one to repeat.
pub proof fn law_character_is_printed(display: Display, character: char)
    requires
        character as u32 >= 0x80,
    ensures
        ({
            let bytes = encode_utf8(seq![character]);
            terminal::replayed(display, bytes) == (Display {
                state: terminal::written(display.state, bytes, display.wrap),
                last: Some(bytes),
                ..display
            })
        }),
{
    let bytes = encode_utf8(seq![character]);
    encode_utf8_first_scalar(seq![character]);
    reveal_with_fuel(encode_utf8, 2);
    assert(seq![character].drop_first() =~= seq![]);
    assert(bytes =~= encode_scalar(character as u32));
    unicode::lemma_scalar_shape(bytes);
    assert(bytes.skip(0) =~= bytes);
    assert(bytes[0] >= 0x80) by {
        encode_utf8_decode_utf8(seq![character]);
        encode_utf8_valid_utf8(seq![character]);
        if bytes[0] < 0x80 {
            let first = bytes[0];
            assert((first & 0x7f) as u32 <= 0x7f) by (bit_vector)
                requires
                    first < 0x80,
            ;
        }
    }
    assert(bytes.subrange(0, bytes.len() as int) =~= bytes);
    reveal_with_fuel(terminal::replayed_from, 2);
}

/// A count that is missing is one, and a count of what was never printed is
/// nothing.
pub proof fn law_repetition_without_a_count(display: Display)
    ensures
        ({
            let after = terminal::replayed(display, seq![0x1bu8, 0x5b, 0x62]);
            match display.last {
                Some(character) => after == (Display {
                    state: terminal::written(display.state, character, display.wrap),
                    ..display
                }),
                None => after == display,
            }
        }),
{
    let bytes = seq![0x1bu8, 0x5b, 0x62];
    assert(bytes.subrange(0, 3) =~= bytes);
    assert(bytes.subrange(2, 2) =~= seq![]);
    assert(seq![0x1bu8, 0x23, 0x38][1] == 0x23);
    reveal_with_fuel(terminal::replayed_from, 2);
    reveal_with_fuel(terminal::control_end, 2);
    reveal_with_fuel(terminal::written_times, 2);
}

// ---------------------------------------------------------------------------
// What waits.

/// Text without escapes waits for nothing.
pub proof fn law_text_does_not_wait(bytes: Seq<u8>)
    requires
        valid_utf8(bytes),
        forall|i: int| 0 <= i < bytes.len() ==> #[trigger] bytes[i] != 0x1b,
    ensures
        terminal::ready_length(bytes) == bytes.len(),
{
    assert(bytes.skip(0) =~= bytes);
    lemma_text_is_ready(bytes, 0);
}

proof fn lemma_text_is_ready(bytes: Seq<u8>, at: int)
    requires
        0 <= at <= bytes.len(),
        valid_utf8(bytes.skip(at)),
        forall|i: int| 0 <= i < bytes.len() ==> #[trigger] bytes[i] != 0x1b,
    ensures
        terminal::ready_from(bytes, at) == bytes.len(),
    decreases bytes.len() - at,
{
    if at < bytes.len() {
        let rest = bytes.skip(at);
        unicode::lemma_scalar_shape(rest);
        assert(rest[0] == bytes[at]);
        let end = terminal::unit_end(bytes, at);
        terminal::lemma_unit_end(bytes, at);
        assert(valid_first_scalar(rest));
        assert(pop_first_scalar(rest) =~= bytes.skip(end));
        lemma_text_is_ready(bytes, end);
    }
}

/// A control sequence that is complete waits for nothing.
pub proof fn law_complete_sequence_does_not_wait(numbers: Seq<u8>, letter: u8)
    requires
        forall|i: int| 0 <= i < numbers.len() ==> #[trigger] numbers[i] < 0x40,
        0x40 <= letter <= 0x7e,
    ensures
        terminal::ready_length(seq![0x1bu8, 0x5b] + numbers + seq![letter]) == numbers.len() + 3,
{
    let bytes = seq![0x1bu8, 0x5b] + numbers + seq![letter];
    let end = bytes.len() as int;
    assert(bytes[0] == 0x1b && bytes[1] == 0x5b && bytes[end - 1] == letter);
    assert forall|i: int| 2 <= i < end - 1 implies #[trigger] bytes[i] < 0x40 by {
        assert(bytes[i] == numbers[i - 2]);
    }
    lemma_control_ends(bytes, 2, end);
    reveal_with_fuel(terminal::ready_from, 2);
}

/// What waits can still be completed: there are bytes with which more is ready.
pub proof fn law_what_waits_can_be_completed(bytes: Seq<u8>)
    requires
        terminal::ready_length(bytes) < bytes.len(),
        bytes[terminal::ready_length(bytes)] != 0x1b,
    ensures
        exists|more: Seq<u8>|
            valid_first_scalar(
                #[trigger] (bytes.skip(terminal::ready_length(bytes)) + more),
            ) && more.len() > 0,
{
    let at = terminal::ready_length(bytes);
    terminal::lemma_ready_from(bytes, 0);
    let rest = bytes.skip(at);
    unicode::law_what_is_cut_short_starts_a_character(rest);
    let character = choose|character: char| unicode::starts_character(rest, character);
    let whole = encode_utf8(seq![character]);
    encode_utf8_first_scalar(seq![character]);
    let more = whole.skip(rest.len() as int);
    assert(rest + more =~= whole);
}

/// A printable ASCII character is written once, and is then the one to repeat; a
/// control goes to the emulator as it is, and prints nothing.
pub proof fn law_single_bytes(display: Display, byte: u8)
    requires
        byte < 0x80,
        byte != 0x1b,
    ensures
        0x20 <= byte < 0x7f ==> terminal::replayed(display, seq![byte]) == (Display {
            state: terminal::written(display.state, seq![byte], display.wrap),
            last: Some(seq![byte]),
            ..display
        }),
        byte < 0x20 || byte == 0x7f ==> terminal::replayed(display, seq![byte]) == (Display {
            state: emulator::advanced(display.state, seq![byte]),
            bell: display.bell || byte == 0x07,
            ..display
        }),
{
    let bytes = seq![byte];
    assert(bytes.subrange(0, 1) =~= bytes);
    reveal_with_fuel(terminal::replayed_from, 2);
}

/// A byte that is part of no character goes to the emulator as it is, and prints
/// nothing.
pub proof fn law_stray_bytes(display: Display, byte: u8)
    requires
        0x80 <= byte < 0xc0,
    ensures
        terminal::replayed(display, seq![byte]) == (Display {
            state: emulator::advanced(display.state, seq![byte]),
            ..display
        }),
{
    let bytes = seq![byte];
    assert(bytes.subrange(0, 1) =~= bytes);
    assert(bytes.skip(0) =~= bytes);
    unicode::lemma_scalar_shape(bytes);
    reveal_with_fuel(terminal::replayed_from, 2);
}

/// A sequence that no rule is for goes to the emulator as it is, and changes nothing
/// else: of control sequences, those that end with a letter other than `b`, `h` and
/// `l`; and every string.
pub proof fn law_other_sequences_go_to_the_emulator(display: Display, sequence: Seq<u8>)
    requires
        sequence.len() >= 2,
        sequence[0] == 0x1b,
        sequence[1] == 0x5b ==> sequence.last() != 0x62 && sequence.last() != 0x68
            && sequence.last() != 0x6c,
        sequence[1] != 0x63,
        sequence[1] != 0x23,
    ensures
        terminal::after_sequence(display, sequence) == (Display {
            state: emulator::advanced(display.state, sequence),
            ..display
        }),
{
    assert(seq![0x1bu8, 0x23, 0x38][1] == 0x23);
    assert(seq![0x1bu8, 0x63][1] == 0x63);
}

/// The size of a client's terminal is what the terminal says, or 80 by 24 where that
/// is nothing or has no cells.
pub proof fn law_client_terminals_have_cells(cols: u16, rows: u16)
    ensures
        cols > 0 && rows > 0 ==> terminal::size_reported(Some((cols, rows))) == (Size {
            cols,
            rows,
        }),
        cols == 0 || rows == 0 ==> terminal::size_reported(Some((cols, rows))) == (Size {
            cols: 80,
            rows: 24,
        }),
        terminal::size_reported(None) == (Size { cols: 80, rows: 24 }),
{
}

/// What a stream ends with, where it waits, goes to the emulator as it is.
pub proof fn law_stream_ends_with_what_waits(state: History, bytes: Seq<u8>)
    ensures
        ({
            let start = Display { state, last: None, wrap: true, bell: false };
            let ready = terminal::ready_length(bytes);
            terminal::replayed_stream(state, bytes) == emulator::advanced(
                terminal::replayed(start, bytes.take(ready)).state,
                bytes.skip(ready),
            )
        }),
{
    assert(Seq::<u8>::empty() + bytes =~= bytes);
}

/// Titles and the other strings are one sequence up to a bell, or up to an escape
/// and a backslash: the emulator gets it as it is, and nothing of it is printed or
/// rings.
pub proof fn law_strings_are_one_sequence(display: Display, kind: u8, body: Seq<u8>)
    requires
        kind == 0x5d || kind == 0x50 || kind == 0x5e || kind == 0x5f,
        forall|i: int| 0 <= i < body.len() ==> #[trigger] body[i] != 0x07 && body[i] != 0x1b,
    ensures
        ({
            let rung = seq![0x1bu8, kind] + body + seq![0x07u8];
            let closed = seq![0x1bu8, kind] + body + seq![0x1bu8, 0x5c];
            &&& terminal::replayed(display, rung) == (Display {
                state: emulator::advanced(display.state, rung),
                ..display
            })
            &&& terminal::replayed(display, closed) == (Display {
                state: emulator::advanced(display.state, closed),
                ..display
            })
        }),
{
    let closed = seq![0x1bu8, kind] + body + seq![0x1bu8, 0x5c];
    let end = closed.len() as int;
    law_bell_behind_a_string_is_silent(display, kind, body);
    assert(closed[0] == 0x1b && closed[1] == kind && closed[end - 2] == 0x1b && closed[end - 1]
        == 0x5c);
    assert forall|i: int| 2 <= i < end - 2 implies #[trigger] closed[i] != 0x07 && closed[i]
        != 0x1b by {
        assert(closed[i] == body[i - 2]);
    }
    lemma_string_closes(closed, 2, end);
    assert(closed.subrange(0, end) =~= closed);
    assert(seq![0x1bu8, 0x23, 0x38][1] == 0x23);
    assert(seq![0x1bu8, 0x63][1] == 0x63);
    reveal_with_fuel(terminal::replayed_from, 2);
}

proof fn lemma_string_closes(bytes: Seq<u8>, at: int, end: int)
    requires
        0 <= at <= end - 2,
        end <= bytes.len(),
        bytes[end - 2] == 0x1b,
        bytes[end - 1] == 0x5c,
        forall|i: int| at <= i < end - 2 ==> #[trigger] bytes[i] != 0x07 && bytes[i] != 0x1b,
    ensures
        terminal::string_end(bytes, at) == Some(end),
    decreases end - at,
{
    if at < end - 2 {
        assert(bytes[at] != 0x07 && bytes[at] != 0x1b);
        lemma_string_closes(bytes, at + 1, end);
    }
}

/// Of the numbers of a repetition the first counts.
pub proof fn law_first_number_repeats(digits: Seq<u8>, others: Seq<u8>)
    requires
        terminal::are_digits(digits),
        terminal::decimal(digits) <= usize::MAX,
    ensures
        terminal::repetition(seq![0x1bu8, 0x5b] + digits + seq![0x3bu8] + others + seq![0x62u8])
            == Some(terminal::decimal(digits) as int),
        terminal::repetition(seq![0x1bu8, 0x5b] + digits + seq![0x62u8]) == Some(
            terminal::decimal(digits) as int,
        ),
{
    let long = seq![0x1bu8, 0x5b] + digits + seq![0x3bu8] + others + seq![0x62u8];
    let short = seq![0x1bu8, 0x5b] + digits + seq![0x62u8];
    let rest = seq![0x3bu8] + others;
    assert(long.subrange(2, long.len() - 1) =~= digits + rest);
    assert(short.subrange(2, short.len() - 1) =~= digits + seq![]);
    lemma_first_listed(digits, rest);
    lemma_first_listed(digits, seq![]);
    assert(48 <= digits[0] <= 57);
    assert(long[0] == 0x1b && long[1] == 0x5b && long.last() == 0x62);
    assert(short[0] == 0x1b && short[1] == 0x5b && short.last() == 0x62);
}

/// A sequence that is not complete waits: a lone escape, the numbers of a control
/// sequence, a string without its end.
pub proof fn law_open_sequences_wait(numbers: Seq<u8>, body: Seq<u8>)
    requires
        forall|i: int| 0 <= i < numbers.len() ==> #[trigger] numbers[i] < 0x40,
        forall|i: int| 0 <= i < body.len() ==> #[trigger] body[i] != 0x07 && body[i] != 0x1b,
    ensures
        terminal::ready_length(seq![0x1bu8]) == 0,
        terminal::ready_length(seq![0x1bu8, 0x5b] + numbers) == 0,
        terminal::ready_length(seq![0x1bu8, 0x5d] + body) == 0,
        terminal::ready_length(seq![0x1bu8, 0x5d] + body + seq![0x1bu8]) == 0,
        terminal::ready_length(seq![0x1bu8, 0x23]) == 0,
{
    let control = seq![0x1bu8, 0x5b] + numbers;
    let title = seq![0x1bu8, 0x5d] + body;
    let closing = title + seq![0x1bu8];
    assert(control[0] == 0x1b && control[1] == 0x5b);
    assert forall|i: int| 2 <= i < control.len() implies #[trigger] control[i] < 0x40 by {
        assert(control[i] == numbers[i - 2]);
    }
    lemma_no_control_end(control, 2);
    assert(title[0] == 0x1b && title[1] == 0x5d);
    assert forall|i: int| 2 <= i < title.len() implies #[trigger] title[i] != 0x07 && title[i]
        != 0x1b by {
        assert(title[i] == body[i - 2]);
    }
    lemma_no_string_end(title, 2);
    assert(closing[0] == 0x1b && closing[1] == 0x5d);
    assert forall|i: int| 2 <= i < closing.len() - 1 implies #[trigger] closing[i] != 0x07
        && closing[i] != 0x1b by {
        assert(closing[i] == body[i - 2]);
    }
    lemma_no_string_end(closing, 2);
}

proof fn lemma_no_control_end(bytes: Seq<u8>, at: int)
    requires
        0 <= at,
        forall|i: int| at <= i < bytes.len() ==> #[trigger] bytes[i] < 0x40,
    ensures
        terminal::control_end(bytes, at) is None,
    decreases bytes.len() - at,
{
    if at < bytes.len() {
        assert(bytes[at] < 0x40);
        lemma_no_control_end(bytes, at + 1);
    }
}

proof fn lemma_no_string_end(bytes: Seq<u8>, at: int)
    requires
        0 <= at <= bytes.len(),
        forall|i: int|
            at <= i < bytes.len() - 1 ==> #[trigger] bytes[i] != 0x07 && bytes[i] != 0x1b,
        bytes.len() > at ==> bytes.last() != 0x07,
    ensures
        terminal::string_end(bytes, at) is None,
        !terminal::is_broken(bytes, at),
    decreases bytes.len() - at,
{
    if at < bytes.len() - 1 {
        assert(bytes[at] != 0x07 && bytes[at] != 0x1b);
        lemma_no_string_end(bytes, at + 1);
    } else if at < bytes.len() {
        assert(bytes[at] == bytes.last());
        reveal_with_fuel(terminal::string_end, 2);
        reveal_with_fuel(terminal::is_broken, 2);
    }
}

/// A plus sign before a number says nothing.
pub proof fn law_plus_sign_is_read(digits: Seq<u8>, limit: nat)
    requires
        terminal::are_digits(digits),
    ensures
        terminal::number_in(seq![43u8] + digits, limit) == terminal::number_in(digits, limit),
        terminal::decimal(digits) <= limit ==> terminal::number_in(digits, limit) == Some(
            terminal::decimal(digits),
        ),
        terminal::decimal(digits) > limit ==> terminal::number_in(digits, limit) is None,
{
    assert((seq![43u8] + digits).skip(1) =~= digits);
    assert(48 <= digits[0] <= 57);
}

/// A string with an escape in it that closes nothing will never end: its first
/// escape does not wait for more, but goes to the emulator alone.
pub proof fn law_broken_strings_do_not_wait(
    display: Display,
    kind: u8,
    body: Seq<u8>,
    other: u8,
    rest: Seq<u8>,
)
    requires
        kind == 0x5d || kind == 0x50 || kind == 0x5e || kind == 0x5f,
        forall|i: int| 0 <= i < body.len() ==> #[trigger] body[i] != 0x07 && body[i] != 0x1b,
        other != 0x5c,
    ensures
        ({
            let bytes = seq![0x1bu8, kind] + body + seq![0x1bu8, other] + rest;
            &&& terminal::ready_length(bytes) >= 1
            &&& terminal::replayed(display, bytes) == terminal::replayed(
                Display { state: emulator::advanced(display.state, seq![0x1bu8]), ..display },
                bytes.skip(1),
            )
        }),
{
    let bytes = seq![0x1bu8, kind] + body + seq![0x1bu8, other] + rest;
    let at = 2 + body.len() as int;
    assert(bytes[0] == 0x1b && bytes[1] == kind && bytes[at] == 0x1b && bytes[at + 1] == other);
    assert forall|i: int| 2 <= i < at implies #[trigger] bytes[i] != 0x07 && bytes[i] != 0x1b by {
        assert(bytes[i] == body[i - 2]);
    }
    lemma_broken_string(bytes, 2, at);
    assert(!terminal::is_open(bytes, 0));
    assert(terminal::unit_end(bytes, 0) == 1);
    terminal::lemma_ready_from(bytes, 1);
    assert(bytes.subrange(0, 1) =~= seq![0x1bu8]);
    assert(terminal::after_unit(display, bytes, 0) == (Display {
        state: emulator::advanced(display.state, seq![0x1bu8]),
        ..display
    }));
    lemma_replay_behind(terminal::after_unit(display, bytes, 0), bytes.take(1), bytes.skip(1), 0);
    assert(bytes.take(1) + bytes.skip(1) =~= bytes);
    reveal_with_fuel(terminal::replayed_from, 2);
}

proof fn lemma_broken_string(bytes: Seq<u8>, at: int, end: int)
    requires
        0 <= at <= end,
        end + 1 < bytes.len(),
        bytes[end] == 0x1b,
        bytes[end + 1] != 0x5c,
        forall|i: int| at <= i < end ==> #[trigger] bytes[i] != 0x07 && bytes[i] != 0x1b,
    ensures
        terminal::string_end(bytes, at) is None,
        terminal::is_broken(bytes, at),
    decreases end - at,
{
    if at < end {
        assert(bytes[at] != 0x07 && bytes[at] != 0x1b);
        lemma_broken_string(bytes, at + 1, end);
    }
}

} // verus!
