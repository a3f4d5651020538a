//! The encoding of the values that messages are made of.
//!
//! A message is a tag byte followed by fields. Each field has a kind, and the
//! kind alone says how the field is written and read back.

use vstd::prelude::*;
use vstd::utf8::*;

use crate::geometry::Size;
use crate::text;

verus! {

/// The most strings that a list of command arguments may hold.
pub const MAX_STRINGS: u32 = 1024;

#[derive(Debug, Clone, Copy, PartialEq, Eq, Structural)]
pub enum OptionScope {
    Global,
    Session,
    Window,
    Pane,
}

#[derive(Debug, Clone, Copy, PartialEq, Eq, Structural)]
pub enum PaneDirection {
    Left,
    Right,
    Up,
    Down,
    Next,
    Previous,
    Last,
}

/// What can be wrong with the bytes of a frame.
#[derive(Debug, Clone, Copy, PartialEq, Eq, Structural)]
pub enum WireError {
    UnexpectedEnd,
    FrameTooLarge,
    InvalidFrameLength,
    UnknownRequestTag,
    UnknownServerMessageTag,
    UnknownClientMessageTag,
    UnknownDirection,
    UnknownScope,
    TruncatedFrame,
    TruncatedInteger,
    TruncatedBytes,
    LengthOverflow,
    InvalidBoolean,
    InvalidUtf8,
    InvalidOptionalString,
    TooManyArguments,
    TrailingData,
}

impl WireError {
    /// The text shown for an error.
    pub open spec fn text(self) -> Seq<char> {
        match self {
            WireError::UnexpectedEnd => "failed to fill whole buffer"@,
            WireError::FrameTooLarge => "frame is too large"@,
            WireError::InvalidFrameLength => "invalid frame length"@,
            WireError::UnknownRequestTag => "unknown request tag"@,
            WireError::UnknownServerMessageTag => "unknown server message tag"@,
            WireError::UnknownClientMessageTag => "unknown client message tag"@,
            WireError::UnknownDirection => "unknown pane direction"@,
            WireError::UnknownScope => "unknown option scope"@,
            WireError::TruncatedFrame => "truncated frame"@,
            WireError::TruncatedInteger => "truncated integer"@,
            WireError::TruncatedBytes => "truncated bytes"@,
            WireError::LengthOverflow => "length overflow"@,
            WireError::InvalidBoolean => "invalid boolean"@,
            WireError::InvalidUtf8 => "invalid UTF-8 string"@,
            WireError::InvalidOptionalString => "invalid optional string"@,
            WireError::TooManyArguments => "too many command arguments"@,
            WireError::TrailingData => "trailing frame data"@,
        }
    }

    pub fn message(self) -> (message: &'static str)
        ensures
            message@ == self.text(),
    {
        match self {
            WireError::UnexpectedEnd => "failed to fill whole buffer",
            WireError::FrameTooLarge => "frame is too large",
            WireError::InvalidFrameLength => "invalid frame length",
            WireError::UnknownRequestTag => "unknown request tag",
            WireError::UnknownServerMessageTag => "unknown server message tag",
            WireError::UnknownClientMessageTag => "unknown client message tag",
            WireError::UnknownDirection => "unknown pane direction",
            WireError::UnknownScope => "unknown option scope",
            WireError::TruncatedFrame => "truncated frame",
            WireError::TruncatedInteger => "truncated integer",
            WireError::TruncatedBytes => "truncated bytes",
            WireError::LengthOverflow => "length overflow",
            WireError::InvalidBoolean => "invalid boolean",
            WireError::InvalidUtf8 => "invalid UTF-8 string",
            WireError::InvalidOptionalString => "invalid optional string",
            WireError::TooManyArguments => "too many command arguments",
            WireError::TrailingData => "trailing frame data",
        }
    }
}

/// The kinds of field that a message can hold.
#[derive(Debug, Clone, Copy, PartialEq, Eq, Structural)]
pub enum Kind {
    Text,
    OptionalText,
    Texts,
    Bytes,
    OptionalBytes,
    Flag,
    OptionalFlag,
    Count,
    OptionalIndex,
    Amount,
    OptionalLine,
    OptionalCells,
    Dimensions,
    Direction,
    OptionalDirection,
    OptionalScope,
}

/// A field, over the types that stand for a text, a list of texts and a run of
/// bytes: executable code holds strings and vectors, contracts speak of
/// sequences.
pub enum FieldOf<S, L, B> {
    Text(S),
    OptionalText(Option<S>),
    Texts(L),
    Bytes(B),
    OptionalBytes(Option<B>),
    Flag(bool),
    OptionalFlag(Option<bool>),
    Count(u32),
    OptionalIndex(Option<u32>),
    Amount(i32),
    OptionalLine(Option<i32>),
    OptionalCells(Option<u16>),
    Dimensions(Size),
    Direction(PaneDirection),
    OptionalDirection(Option<PaneDirection>),
    OptionalScope(Option<OptionScope>),
}

pub type Field = FieldOf<String, Vec<String>, Vec<u8>>;

pub type FieldView = FieldOf<Seq<char>, Seq<Seq<char>>, Seq<u8>>;

/// The text that an optional string holds.
pub open spec fn text_view(value: Option<String>) -> Option<Seq<char>> {
    match value {
        Some(text) => Some(text@),
        None => None,
    }
}

/// The bytes that an optional vector holds.
pub open spec fn bytes_view(value: Option<Vec<u8>>) -> Option<Seq<u8>> {
    match value {
        Some(bytes) => Some(bytes@),
        None => None,
    }
}

impl View for FieldOf<String, Vec<String>, Vec<u8>> {
    type V = FieldOf<Seq<char>, Seq<Seq<char>>, Seq<u8>>;

    open spec fn view(&self) -> FieldOf<Seq<char>, Seq<Seq<char>>, Seq<u8>> {
        match *self {
            FieldOf::Text(value) => FieldOf::Text(value@),
            FieldOf::OptionalText(value) => FieldOf::OptionalText(text_view(value)),
            FieldOf::Texts(value) => FieldOf::Texts(text::texts(value@)),
            FieldOf::Bytes(value) => FieldOf::Bytes(value@),
            FieldOf::OptionalBytes(value) => FieldOf::OptionalBytes(bytes_view(value)),
            FieldOf::Flag(value) => FieldOf::Flag(value),
            FieldOf::OptionalFlag(value) => FieldOf::OptionalFlag(value),
            FieldOf::Count(value) => FieldOf::Count(value),
            FieldOf::OptionalIndex(value) => FieldOf::OptionalIndex(value),
            FieldOf::Amount(value) => FieldOf::Amount(value),
            FieldOf::OptionalLine(value) => FieldOf::OptionalLine(value),
            FieldOf::OptionalCells(value) => FieldOf::OptionalCells(value),
            FieldOf::Dimensions(value) => FieldOf::Dimensions(value),
            FieldOf::Direction(value) => FieldOf::Direction(value),
            FieldOf::OptionalDirection(value) => FieldOf::OptionalDirection(value),
            FieldOf::OptionalScope(value) => FieldOf::OptionalScope(value),
        }
    }
}

/// The kind of a field.
pub open spec fn kind_of<S, L, B>(field: FieldOf<S, L, B>) -> Kind {
    match field {
        FieldOf::Text(_) => Kind::Text,
        FieldOf::OptionalText(_) => Kind::OptionalText,
        FieldOf::Texts(_) => Kind::Texts,
        FieldOf::Bytes(_) => Kind::Bytes,
        FieldOf::OptionalBytes(_) => Kind::OptionalBytes,
        FieldOf::Flag(_) => Kind::Flag,
        FieldOf::OptionalFlag(_) => Kind::OptionalFlag,
        FieldOf::Count(_) => Kind::Count,
        FieldOf::OptionalIndex(_) => Kind::OptionalIndex,
        FieldOf::Amount(_) => Kind::Amount,
        FieldOf::OptionalLine(_) => Kind::OptionalLine,
        FieldOf::OptionalCells(_) => Kind::OptionalCells,
        FieldOf::Dimensions(_) => Kind::Dimensions,
        FieldOf::Direction(_) => Kind::Direction,
        FieldOf::OptionalDirection(_) => Kind::OptionalDirection,
        FieldOf::OptionalScope(_) => Kind::OptionalScope,
    }
}

// ---------------------------------------------------------------------------
// How fields are written.

/// The two bytes of a number, least significant first.
pub open spec fn le16(value: int) -> Seq<u8> {
    seq![(value % 256) as u8, (value / 256 % 256) as u8]
}

/// The four low bytes of a number, least significant first.
pub open spec fn le32(value: int) -> Seq<u8> {
    seq![
        (value % 256) as u8,
        (value / 256 % 256) as u8,
        (value / 65536 % 256) as u8,
        (value / 16777216 % 256) as u8,
    ]
}

/// The number whose two's complement pattern a signed value has.
pub open spec fn unsigned(value: i32) -> int {
    if value >= 0 {
        value as int
    } else {
        value + 4294967296
    }
}

/// A run of bytes behind its length.
pub open spec fn sized(bytes: Seq<u8>) -> Seq<u8> {
    le32(bytes.len() as int) + bytes
}

/// Texts one after the other, each behind the length of its encoding.
pub open spec fn sized_texts(list: Seq<Seq<char>>) -> Seq<u8>
    decreases list.len(),
{
    if list.len() == 0 {
        seq![]
    } else {
        sized_texts(list.drop_last()) + sized(encode_utf8(list.last()))
    }
}

pub open spec fn flag_byte(value: bool) -> u8 {
    if value {
        1
    } else {
        0
    }
}

pub open spec fn direction_byte(direction: PaneDirection) -> u8 {
    match direction {
        PaneDirection::Left => 1,
        PaneDirection::Right => 2,
        PaneDirection::Up => 3,
        PaneDirection::Down => 4,
        PaneDirection::Next => 5,
        PaneDirection::Previous => 6,
        PaneDirection::Last => 7,
    }
}

pub open spec fn scope_byte(scope: OptionScope) -> u8 {
    match scope {
        OptionScope::Global => 1,
        OptionScope::Session => 2,
        OptionScope::Window => 3,
        OptionScope::Pane => 4,
    }
}

/// A presence byte, and behind it the encoding of a value that is there.
pub open spec fn optional(value: Option<Seq<u8>>) -> Seq<u8> {
    match value {
        Some(bytes) => seq![1u8] + bytes,
        None => seq![0u8],
    }
}

/// The bytes of a field.
#[verifier::opaque]
pub open spec fn field_bytes(field: FieldView) -> Seq<u8> {
    match field {
        FieldOf::Text(value) => sized(encode_utf8(value)),
        FieldOf::OptionalText(value) => optional(
            match value {
                Some(text) => Some(sized(encode_utf8(text))),
                None => None,
            },
        ),
        FieldOf::Texts(value) => le32(value.len() as int) + sized_texts(value),
        FieldOf::Bytes(value) => sized(value),
        FieldOf::OptionalBytes(value) => optional(
            match value {
                Some(bytes) => Some(sized(bytes)),
                None => None,
            },
        ),
        FieldOf::Flag(value) => seq![flag_byte(value)],
        FieldOf::OptionalFlag(value) => optional(
            match value {
                Some(flag) => Some(seq![flag_byte(flag)]),
                None => None,
            },
        ),
        FieldOf::Count(value) => le32(value as int),
        FieldOf::OptionalIndex(value) => optional(
            match value {
                Some(number) => Some(le32(number as int)),
                None => None,
            },
        ),
        FieldOf::Amount(value) => le32(unsigned(value)),
        FieldOf::OptionalLine(value) => optional(
            match value {
                Some(number) => Some(le32(unsigned(number))),
                None => None,
            },
        ),
        FieldOf::OptionalCells(value) => optional(
            match value {
                Some(number) => Some(le16(number as int)),
                None => None,
            },
        ),
        FieldOf::Dimensions(value) => le16(value.cols as int) + le16(value.rows as int),
        FieldOf::Direction(value) => seq![direction_byte(value)],
        FieldOf::OptionalDirection(value) => optional(
            match value {
                Some(direction) => Some(seq![direction_byte(direction)]),
                None => None,
            },
        ),
        FieldOf::OptionalScope(value) => optional(
            match value {
                Some(scope) => Some(seq![scope_byte(scope)]),
                None => None,
            },
        ),
    }
}

/// The bytes of a message: its tag, and its fields one after the other.
pub open spec fn message_bytes(tag: u8, fields: Seq<FieldView>) -> Seq<u8>
    decreases fields.len(),
{
    if fields.len() == 0 {
        seq![tag]
    } else {
        message_bytes(tag, fields.drop_last()) + field_bytes(fields.last())
    }
}

// ---------------------------------------------------------------------------
// Writing.

/// Appends one run of bytes to another.
fn append(output: &mut Vec<u8>, bytes: &[u8])
    ensures
        final(output)@ == old(output)@ + bytes@,
{
    let mut index: usize = 0;
    while index < bytes.len()
        invariant
            index <= bytes.len(),
            output@ =~= old(output)@ + bytes@.subrange(0, index as int),
        decreases bytes.len() - index,
    {
        output.push(bytes[index]);
        index += 1;
    }
    assert(bytes@.subrange(0, index as int) =~= bytes@);
}

pub fn put_u16(output: &mut Vec<u8>, value: u16)
    ensures
        final(output)@ == old(output)@ + le16(value as int),
{
    output.push((value % 256) as u8);
    output.push((value / 256 % 256) as u8);
    assert(output@ =~= old(output)@ + le16(value as int));
}

pub fn put_u32(output: &mut Vec<u8>, value: u32)
    ensures
        final(output)@ == old(output)@ + le32(value as int),
        final(output)@ == old(output)@ + field_bytes(FieldOf::Count(value)),
{
    proof {
        reveal(field_bytes);
    }
    output.push((value % 256) as u8);
    output.push((value / 256 % 256) as u8);
    output.push((value / 65536 % 256) as u8);
    output.push((value / 16777216 % 256) as u8);
    assert(output@ =~= old(output)@ + le32(value as int));
}

pub fn put_i32(output: &mut Vec<u8>, value: i32)
    ensures
        final(output)@ == old(output)@ + field_bytes(FieldOf::Amount(value)),
{
    proof {
        reveal(field_bytes);
    }
    let pattern: u32 = if value >= 0 {
        value as u32
    } else {
        (value as i64 + 4294967296) as u32
    };
    put_u32(output, pattern);
}

/// Writes the four low bytes of a length.
fn put_length(output: &mut Vec<u8>, length: usize)
    ensures
        final(output)@ == old(output)@ + le32(length as int),
{
    output.push((length % 256) as u8);
    output.push((length / 256 % 256) as u8);
    output.push((length / 65536 % 256) as u8);
    output.push((length / 16777216 % 256) as u8);
    assert(output@ =~= old(output)@ + le32(length as int));
}

pub fn put_bytes(output: &mut Vec<u8>, bytes: &[u8])
    ensures
        final(output)@ == old(output)@ + field_bytes(FieldOf::Bytes(bytes@)),
{
    proof {
        reveal(field_bytes);
    }
    put_length(output, bytes.len());
    append(output, bytes);
    assert(output@ =~= old(output)@ + sized(bytes@));
}

pub fn put_string(output: &mut Vec<u8>, value: &str)
    ensures
        final(output)@ == old(output)@ + field_bytes(FieldOf::Text(value@)),
{
    proof {
        reveal(field_bytes);
    }
    put_bytes(output, value.as_bytes());
}

pub fn put_optional_string(output: &mut Vec<u8>, value: &Option<String>)
    ensures
        final(output)@ == old(output)@ + field_bytes(FieldOf::OptionalText(text_view(*value))),
{
    proof {
        reveal(field_bytes);
    }
    match value {
        Some(value) => {
            output.push(1);
            put_string(output, value.as_str());
            assert(output@ =~= old(output)@ + field_bytes(FieldOf::OptionalText(Some(value@))));
        },
        None => output.push(0),
    }
}

pub fn put_strings(output: &mut Vec<u8>, values: &[String])
    ensures
        final(output)@ == old(output)@ + field_bytes(FieldOf::Texts(text::texts(values@))),
{
    proof {
        reveal(field_bytes);
    }
    put_length(output, values.len());
    let ghost start = output@;
    let ghost list = text::texts(values@);
    assert(list.take(0) =~= seq![]);
    let mut index: usize = 0;
    while index < values.len()
        invariant
            index <= values.len(),
            list == text::texts(values@),
            output@ =~= start + sized_texts(list.take(index as int)),
        decreases values.len() - index,
    {
        put_string(output, values[index].as_str());
        proof {
            reveal(field_bytes);
        }
        assert(list.take(index + 1).drop_last() =~= list.take(index as int));
        index += 1;
    }
    assert(list.take(index as int) =~= list);
    assert(output@ =~= old(output)@ + field_bytes(FieldOf::Texts(list)));
}

pub fn put_bool(output: &mut Vec<u8>, value: bool)
    ensures
        final(output)@ == old(output)@ + field_bytes(FieldOf::Flag(value)),
{
    proof {
        reveal(field_bytes);
    }
    output.push(if value { 1 } else { 0 });
    assert(output@ =~= old(output)@ + seq![flag_byte(value)]);
}

pub fn put_optional_bool(output: &mut Vec<u8>, value: Option<bool>)
    ensures
        final(output)@ == old(output)@ + field_bytes(FieldOf::OptionalFlag(value)),
{
    proof {
        reveal(field_bytes);
    }
    match value {
        Some(value) => {
            put_bool(output, true);
            put_bool(output, value);
            assert(output@ =~= old(output)@ + field_bytes(FieldOf::OptionalFlag(Some(value))));
        },
        None => put_bool(output, false),
    }
}

pub fn put_optional_bytes(output: &mut Vec<u8>, value: &Option<Vec<u8>>)
    ensures
        final(output)@ == old(output)@ + field_bytes(FieldOf::OptionalBytes(bytes_view(*value))),
{
    proof {
        reveal(field_bytes);
    }
    match value {
        Some(value) => {
            put_bool(output, true);
            put_bytes(output, value.as_slice());
            assert(output@ =~= old(output)@ + field_bytes(FieldOf::OptionalBytes(Some(value@))));
        },
        None => put_bool(output, false),
    }
}

pub fn put_optional_i32(output: &mut Vec<u8>, value: Option<i32>)
    ensures
        final(output)@ == old(output)@ + field_bytes(FieldOf::OptionalLine(value)),
{
    proof {
        reveal(field_bytes);
    }
    match value {
        Some(value) => {
            put_bool(output, true);
            put_i32(output, value);
            assert(output@ =~= old(output)@ + field_bytes(FieldOf::OptionalLine(Some(value))));
        },
        None => put_bool(output, false),
    }
}

pub fn put_optional_u16(output: &mut Vec<u8>, value: Option<u16>)
    ensures
        final(output)@ == old(output)@ + field_bytes(FieldOf::OptionalCells(value)),
{
    proof {
        reveal(field_bytes);
    }
    match value {
        Some(value) => {
            put_bool(output, true);
            put_u16(output, value);
            assert(output@ =~= old(output)@ + field_bytes(FieldOf::OptionalCells(Some(value))));
        },
        None => put_bool(output, false),
    }
}

pub fn put_optional_u32(output: &mut Vec<u8>, value: Option<u32>)
    ensures
        final(output)@ == old(output)@ + field_bytes(FieldOf::OptionalIndex(value)),
{
    proof {
        reveal(field_bytes);
    }
    match value {
        Some(value) => {
            put_bool(output, true);
            put_u32(output, value);
            assert(output@ =~= old(output)@ + field_bytes(FieldOf::OptionalIndex(Some(value))));
        },
        None => put_bool(output, false),
    }
}

pub fn put_size(output: &mut Vec<u8>, size: Size)
    ensures
        final(output)@ == old(output)@ + field_bytes(FieldOf::Dimensions(size)),
{
    proof {
        reveal(field_bytes);
    }
    put_u16(output, size.cols);
    put_u16(output, size.rows);
    assert(output@ =~= old(output)@ + field_bytes(FieldOf::Dimensions(size)));
}

pub fn put_direction(output: &mut Vec<u8>, direction: PaneDirection)
    ensures
        final(output)@ == old(output)@ + field_bytes(FieldOf::Direction(direction)),
{
    proof {
        reveal(field_bytes);
    }
    output.push(direction_code(direction));
    assert(output@ =~= old(output)@ + seq![direction_byte(direction)]);
}

pub fn put_optional_direction(output: &mut Vec<u8>, value: Option<PaneDirection>)
    ensures
        final(output)@ == old(output)@ + field_bytes(FieldOf::OptionalDirection(value)),
{
    proof {
        reveal(field_bytes);
    }
    match value {
        Some(value) => {
            put_bool(output, true);
            put_direction(output, value);
            assert(output@ =~= old(output)@ + field_bytes(FieldOf::OptionalDirection(Some(value))));
        },
        None => put_bool(output, false),
    }
}

pub fn put_optional_scope(output: &mut Vec<u8>, value: Option<OptionScope>)
    ensures
        final(output)@ == old(output)@ + field_bytes(FieldOf::OptionalScope(value)),
{
    proof {
        reveal(field_bytes);
    }
    match value {
        Some(value) => {
            put_bool(output, true);
            output.push(option_scope_code(value));
            assert(output@ =~= old(output)@ + field_bytes(FieldOf::OptionalScope(Some(value))));
        },
        None => put_bool(output, false),
    }
}

pub fn direction_code(direction: PaneDirection) -> (code: u8)
    ensures
        code == direction_byte(direction),
{
    match direction {
        PaneDirection::Left => 1,
        PaneDirection::Right => 2,
        PaneDirection::Up => 3,
        PaneDirection::Down => 4,
        PaneDirection::Next => 5,
        PaneDirection::Previous => 6,
        PaneDirection::Last => 7,
    }
}

pub fn option_scope_code(scope: OptionScope) -> (code: u8)
    ensures
        code == scope_byte(scope),
{
    match scope {
        OptionScope::Global => 1,
        OptionScope::Session => 2,
        OptionScope::Window => 3,
        OptionScope::Pane => 4,
    }
}

} // verus!
