//! Reading fields back out of the bytes of a frame.

use vstd::prelude::*;
use vstd::utf8::*;

use crate::geometry::Size;
use crate::protocol::wire::{
    self, Field, FieldOf, FieldView, Kind, OptionScope, PaneDirection, WireError,
    MAX_STRINGS,
};
use crate::text;

verus! {

/// What reading one value at a position gives: the value and the position
/// behind it, or what is wrong with the bytes there.
pub type Step<T> = Result<(T, int), WireError>;

pub open spec fn byte_at(bytes: Seq<u8>, at: int) -> Step<u8> {
    if at < bytes.len() {
        Ok((bytes[at], at + 1))
    } else {
        Err(WireError::TruncatedFrame)
    }
}

pub open spec fn flag_at(bytes: Seq<u8>, at: int) -> Step<bool> {
    match byte_at(bytes, at) {
        Ok((byte, next)) => if byte == 0 {
            Ok((false, next))
        } else if byte == 1 {
            Ok((true, next))
        } else {
            Err(WireError::InvalidBoolean)
        },
        Err(error) => Err(error),
    }
}

/// The number that two bytes hold, least significant first.
pub open spec fn number16(bytes: Seq<u8>, at: int) -> int {
    bytes[at] + 256 * bytes[at + 1]
}

/// The number that four bytes hold, least significant first.
pub open spec fn number32(bytes: Seq<u8>, at: int) -> int {
    bytes[at] + 256 * bytes[at + 1] + 65536 * bytes[at + 2] + 16777216 * bytes[at + 3]
}

/// The signed value that has a two's complement pattern.
pub open spec fn signed(pattern: int) -> int {
    if pattern < 2147483648 {
        pattern
    } else {
        pattern - 4294967296
    }
}

pub open spec fn u16_at(bytes: Seq<u8>, at: int) -> Step<u16> {
    if at + 2 > usize::MAX {
        Err(WireError::LengthOverflow)
    } else if at + 2 > bytes.len() {
        Err(WireError::TruncatedInteger)
    } else {
        Ok((number16(bytes, at) as u16, at + 2))
    }
}

pub open spec fn u32_at(bytes: Seq<u8>, at: int) -> Step<u32> {
    if at + 4 > usize::MAX {
        Err(WireError::LengthOverflow)
    } else if at + 4 > bytes.len() {
        Err(WireError::TruncatedInteger)
    } else {
        Ok((number32(bytes, at) as u32, at + 4))
    }
}

pub open spec fn i32_at(bytes: Seq<u8>, at: int) -> Step<i32> {
    if at + 4 > bytes.len() {
        Err(WireError::TruncatedFrame)
    } else {
        Ok((signed(number32(bytes, at)) as i32, at + 4))
    }
}

pub open spec fn bytes_at(bytes: Seq<u8>, at: int) -> Step<Seq<u8>> {
    match u32_at(bytes, at) {
        Ok((length, start)) => if start + length > usize::MAX {
            Err(WireError::LengthOverflow)
        } else if start + length > bytes.len() {
            Err(WireError::TruncatedBytes)
        } else {
            Ok((bytes.subrange(start, start + length), start + length))
        },
        Err(error) => Err(error),
    }
}

pub open spec fn text_at(bytes: Seq<u8>, at: int) -> Step<Seq<char>> {
    match bytes_at(bytes, at) {
        Ok((value, next)) => if valid_utf8(value) {
            Ok((decode_utf8(value), next))
        } else {
            Err(WireError::InvalidUtf8)
        },
        Err(error) => Err(error),
    }
}

/// The given number of texts, one after the other.
pub open spec fn repeated_text_at(bytes: Seq<u8>, at: int, count: nat) -> Step<Seq<Seq<char>>>
    decreases count,
{
    if count == 0 {
        Ok((seq![], at))
    } else {
        match repeated_text_at(bytes, at, (count - 1) as nat) {
            Ok((list, next)) => match text_at(bytes, next) {
                Ok((text, end)) => Ok((list.push(text), end)),
                Err(error) => Err(error),
            },
            Err(error) => Err(error),
        }
    }
}

pub open spec fn texts_at(bytes: Seq<u8>, at: int) -> Step<Seq<Seq<char>>> {
    match u32_at(bytes, at) {
        Ok((count, next)) => if count > MAX_STRINGS {
            Err(WireError::TooManyArguments)
        } else {
            repeated_text_at(bytes, next, count as nat)
        },
        Err(error) => Err(error),
    }
}

pub open spec fn optional_text_at(bytes: Seq<u8>, at: int) -> Step<Option<Seq<char>>> {
    match byte_at(bytes, at) {
        Ok((presence, next)) => if presence == 0 {
            Ok((None, next))
        } else if presence == 1 {
            match text_at(bytes, next) {
                Ok((text, end)) => Ok((Some(text), end)),
                Err(error) => Err(error),
            }
        } else {
            Err(WireError::InvalidOptionalString)
        },
        Err(error) => Err(error),
    }
}

pub open spec fn size_at(bytes: Seq<u8>, at: int) -> Step<Size> {
    match u16_at(bytes, at) {
        Ok((cols, next)) => match u16_at(bytes, next) {
            Ok((rows, end)) => Ok((Size { cols, rows }, end)),
            Err(error) => Err(error),
        },
        Err(error) => Err(error),
    }
}

/// The direction that a code stands for.
pub open spec fn direction_of(code: u8) -> Result<PaneDirection, WireError> {
    if code == 1 {
        Ok(PaneDirection::Left)
    } else if code == 2 {
        Ok(PaneDirection::Right)
    } else if code == 3 {
        Ok(PaneDirection::Up)
    } else if code == 4 {
        Ok(PaneDirection::Down)
    } else if code == 5 {
        Ok(PaneDirection::Next)
    } else if code == 6 {
        Ok(PaneDirection::Previous)
    } else if code == 7 {
        Ok(PaneDirection::Last)
    } else {
        Err(WireError::UnknownDirection)
    }
}

/// The scope that a code stands for.
pub open spec fn scope_of(code: u8) -> Result<OptionScope, WireError> {
    if code == 1 {
        Ok(OptionScope::Global)
    } else if code == 2 {
        Ok(OptionScope::Session)
    } else if code == 3 {
        Ok(OptionScope::Window)
    } else if code == 4 {
        Ok(OptionScope::Pane)
    } else {
        Err(WireError::UnknownScope)
    }
}

pub open spec fn direction_at(bytes: Seq<u8>, at: int) -> Step<PaneDirection> {
    match byte_at(bytes, at) {
        Ok((code, next)) => match direction_of(code) {
            Ok(direction) => Ok((direction, next)),
            Err(error) => Err(error),
        },
        Err(error) => Err(error),
    }
}

pub open spec fn scope_at(bytes: Seq<u8>, at: int) -> Step<OptionScope> {
    match byte_at(bytes, at) {
        Ok((code, next)) => match scope_of(code) {
            Ok(scope) => Ok((scope, next)),
            Err(error) => Err(error),
        },
        Err(error) => Err(error),
    }
}

/// A presence flag, and behind it the value where the flag is set.
pub open spec fn optional_at<T>(
    bytes: Seq<u8>,
    at: int,
    value_at: spec_fn(Seq<u8>, int) -> Step<T>,
) -> Step<Option<T>> {
    match flag_at(bytes, at) {
        Ok((present, next)) => if present {
            match value_at(bytes, next) {
                Ok((value, end)) => Ok((Some(value), end)),
                Err(error) => Err(error),
            }
        } else {
            Ok((None, next))
        },
        Err(error) => Err(error),
    }
}

/// What one read gives, wrapped as a field.
pub open spec fn wrapped<T>(step: Step<T>, wrap: spec_fn(T) -> FieldView) -> Step<FieldView> {
    match step {
        Ok((value, next)) => Ok((wrap(value), next)),
        Err(error) => Err(error),
    }
}

/// The field of a kind at a position.
pub open spec fn field_at(bytes: Seq<u8>, at: int, kind: Kind) -> Step<FieldView> {
    match kind {
        Kind::Text => wrapped(text_at(bytes, at), |v: Seq<char>| FieldOf::Text(v)),
        Kind::OptionalText => wrapped(
            optional_text_at(bytes, at),
            |v: Option<Seq<char>>| FieldOf::OptionalText(v),
        ),
        Kind::Texts => wrapped(texts_at(bytes, at), |v: Seq<Seq<char>>| FieldOf::Texts(v)),
        Kind::Bytes => wrapped(bytes_at(bytes, at), |v: Seq<u8>| FieldOf::Bytes(v)),
        Kind::OptionalBytes => wrapped(
            optional_at(bytes, at, |b: Seq<u8>, i: int| bytes_at(b, i)),
            |v: Option<Seq<u8>>| FieldOf::OptionalBytes(v),
        ),
        Kind::Flag => wrapped(flag_at(bytes, at), |v: bool| FieldOf::Flag(v)),
        Kind::OptionalFlag => wrapped(
            optional_at(bytes, at, |b: Seq<u8>, i: int| flag_at(b, i)),
            |v: Option<bool>| FieldOf::OptionalFlag(v),
        ),
        Kind::Count => wrapped(u32_at(bytes, at), |v: u32| FieldOf::Count(v)),
        Kind::OptionalIndex => wrapped(
            optional_at(bytes, at, |b: Seq<u8>, i: int| u32_at(b, i)),
            |v: Option<u32>| FieldOf::OptionalIndex(v),
        ),
        Kind::Amount => wrapped(i32_at(bytes, at), |v: i32| FieldOf::Amount(v)),
        Kind::OptionalLine => wrapped(
            optional_at(bytes, at, |b: Seq<u8>, i: int| i32_at(b, i)),
            |v: Option<i32>| FieldOf::OptionalLine(v),
        ),
        Kind::OptionalCells => wrapped(
            optional_at(bytes, at, |b: Seq<u8>, i: int| u16_at(b, i)),
            |v: Option<u16>| FieldOf::OptionalCells(v),
        ),
        Kind::Dimensions => wrapped(size_at(bytes, at), |v: Size| FieldOf::Dimensions(v)),
        Kind::Direction => wrapped(
            direction_at(bytes, at),
            |v: PaneDirection| FieldOf::Direction(v),
        ),
        Kind::OptionalDirection => wrapped(
            optional_at(bytes, at, |b: Seq<u8>, i: int| direction_at(b, i)),
            |v: Option<PaneDirection>| FieldOf::OptionalDirection(v),
        ),
        Kind::OptionalScope => wrapped(
            optional_at(bytes, at, |b: Seq<u8>, i: int| scope_at(b, i)),
            |v: Option<OptionScope>| FieldOf::OptionalScope(v),
        ),
    }
}

/// The fields of the given kinds, one after the other.
pub open spec fn fields_at(bytes: Seq<u8>, at: int, kinds: Seq<Kind>) -> Step<Seq<FieldView>>
    decreases kinds.len(),
{
    if kinds.len() == 0 {
        Ok((seq![], at))
    } else {
        match fields_at(bytes, at, kinds.drop_last()) {
            Ok((fields, next)) => match field_at(bytes, next, kinds.last()) {
                Ok((field, end)) => Ok((fields.push(field), end)),
                Err(error) => Err(error),
            },
            Err(error) => Err(error),
        }
    }
}

/// The message that a payload holds: its tag and its fields. `schema` gives the
/// kinds of the fields behind each tag, and `unknown` is the error for a tag
/// that it does not have.
pub open spec fn message_in(
    payload: Seq<u8>,
    schema: spec_fn(u8) -> Option<Seq<Kind>>,
    unknown: WireError,
) -> Result<(u8, Seq<FieldView>), WireError> {
    match byte_at(payload, 0) {
        Ok((tag, next)) => match schema(tag) {
            Some(kinds) => match fields_at(payload, next, kinds) {
                Ok((fields, end)) => if end == payload.len() {
                    Ok((tag, fields))
                } else {
                    Err(WireError::TrailingData)
                },
                Err(error) => Err(error),
            },
            None => Err(unknown),
        },
        Err(error) => Err(error),
    }
}

// ---------------------------------------------------------------------------
// Where reading leaves the position.

/// The position behind what was read, or another where it could not be.
pub open spec fn behind<T>(step: Step<T>, otherwise: int) -> int {
    match step {
        Ok((_, next)) => next,
        Err(_) => otherwise,
    }
}

/// Where reading a code of one byte leaves the position: behind the byte, whatever
/// it stands for.
pub open spec fn code_stop(bytes: Seq<u8>, at: int) -> int {
    behind(byte_at(bytes, at), at)
}

/// Where reading a signed number leaves the position. It is read byte by byte.
pub open spec fn i32_stop(bytes: Seq<u8>, at: int) -> int {
    behind(i32_at(bytes, at), bytes.len() as int)
}

/// Where reading bytes or a text leaves the position: behind the length, where
/// that can be read and the bytes cannot.
pub open spec fn bytes_stop(bytes: Seq<u8>, at: int) -> int {
    behind(bytes_at(bytes, at), behind(u32_at(bytes, at), at))
}

pub open spec fn optional_text_stop(bytes: Seq<u8>, at: int) -> int {
    match byte_at(bytes, at) {
        Ok((presence, next)) => if presence == 1 {
            bytes_stop(bytes, next)
        } else {
            next
        },
        Err(_) => at,
    }
}

/// Where reading texts leaves the position: behind the last, or where the first
/// that cannot be read does.
pub open spec fn repeated_text_stop(bytes: Seq<u8>, at: int, count: nat) -> int
    decreases count,
{
    if count == 0 {
        at
    } else {
        match repeated_text_at(bytes, at, (count - 1) as nat) {
            Ok((_, next)) => bytes_stop(bytes, next),
            Err(_) => repeated_text_stop(bytes, at, (count - 1) as nat),
        }
    }
}

pub open spec fn texts_stop(bytes: Seq<u8>, at: int) -> int {
    match u32_at(bytes, at) {
        Ok((count, next)) => if count > MAX_STRINGS {
            next
        } else {
            repeated_text_stop(bytes, next, count as nat)
        },
        Err(_) => at,
    }
}

pub open spec fn size_stop(bytes: Seq<u8>, at: int) -> int {
    behind(size_at(bytes, at), behind(u16_at(bytes, at), at))
}

/// Where reading a value that may be missing leaves the position.
pub open spec fn optional_stop(
    bytes: Seq<u8>,
    at: int,
    value_stop: spec_fn(Seq<u8>, int) -> int,
) -> int {
    match flag_at(bytes, at) {
        Ok((present, next)) => if present {
            value_stop(bytes, next)
        } else {
            next
        },
        Err(_) => code_stop(bytes, at),
    }
}

/// Where reading a field leaves the position.
pub open spec fn field_stop(bytes: Seq<u8>, at: int, kind: Kind) -> int {
    match kind {
        Kind::Text | Kind::Bytes => bytes_stop(bytes, at),
        Kind::OptionalText => optional_text_stop(bytes, at),
        Kind::Texts => texts_stop(bytes, at),
        Kind::OptionalBytes => optional_stop(bytes, at, |b: Seq<u8>, i: int| bytes_stop(b, i)),
        Kind::Flag | Kind::Direction => code_stop(bytes, at),
        Kind::OptionalFlag | Kind::OptionalDirection | Kind::OptionalScope => optional_stop(
            bytes,
            at,
            |b: Seq<u8>, i: int| code_stop(b, i),
        ),
        Kind::Count => behind(u32_at(bytes, at), at),
        Kind::OptionalIndex => optional_stop(
            bytes,
            at,
            |b: Seq<u8>, i: int| behind(u32_at(b, i), i),
        ),
        Kind::Amount => i32_stop(bytes, at),
        Kind::OptionalLine => optional_stop(bytes, at, |b: Seq<u8>, i: int| i32_stop(b, i)),
        Kind::OptionalCells => optional_stop(
            bytes,
            at,
            |b: Seq<u8>, i: int| behind(u16_at(b, i), i),
        ),
        Kind::Dimensions => size_stop(bytes, at),
    }
}

/// Where reading fields leaves the position: behind the last, or where the first
/// that cannot be read does.
pub open spec fn fields_stop(bytes: Seq<u8>, at: int, kinds: Seq<Kind>) -> int
    decreases kinds.len(),
{
    if kinds.len() == 0 {
        at
    } else {
        match fields_at(bytes, at, kinds.drop_last()) {
            Ok((_, next)) => field_stop(bytes, next, kinds.last()),
            Err(_) => fields_stop(bytes, at, kinds.drop_last()),
        }
    }
}

// ---------------------------------------------------------------------------
// Reading.

/// The views of a list of fields.
pub open spec fn field_views(fields: Seq<Field>) -> Seq<FieldView> {
    fields.map_values(|field: Field| field@)
}

/// A position in the bytes of a frame. What cannot be read leaves the position
/// behind the parts that could be.
pub struct Decoder<'a> {
    pub bytes: &'a [u8],
    pub offset: usize,
}

/// What a method of the decoder returns, against what the bytes hold.
pub open spec fn reads<T>(
    before: Decoder,
    after: Decoder,
    result: Result<T, WireError>,
    step: Step<T>,
) -> bool {
    &&& after.bytes@ == before.bytes@
    &&& after.well_formed()
    &&& match step {
        Ok((value, next)) => result == Ok::<T, WireError>(value) && after.offset == next,
        Err(error) => result == Err::<T, WireError>(error),
    }
}

impl<'a> Decoder<'a> {
    pub open spec fn well_formed(self) -> bool {
        self.offset <= self.bytes@.len()
    }

    pub fn new(bytes: &'a [u8]) -> (decoder: Self)
        ensures
            decoder.bytes@ == bytes@,
            decoder.offset == 0,
            decoder.well_formed(),
    {
        Decoder { bytes, offset: 0 }
    }

    pub fn byte(&mut self) -> (result: Result<u8, WireError>)
        requires
            old(self).well_formed(),
        ensures
            reads(
                *old(self),
                *final(self),
                result,
                byte_at(old(self).bytes@, old(self).offset as int),
            ),
            final(self).offset == code_stop(old(self).bytes@, old(self).offset as int),
    {
        if self.offset < self.bytes.len() {
            let byte: u8 = self.bytes[self.offset];
            self.offset = self.offset + 1;
            Ok(byte)
        } else {
            Err(WireError::TruncatedFrame)
        }
    }

    pub fn bool(&mut self) -> (result: Result<bool, WireError>)
        requires
            old(self).well_formed(),
        ensures
            reads(
                *old(self),
                *final(self),
                result,
                flag_at(old(self).bytes@, old(self).offset as int),
            ),
            final(self).offset == code_stop(old(self).bytes@, old(self).offset as int),
    {
        match self.byte() {
            Ok(0) => Ok(false),
            Ok(1) => Ok(true),
            Ok(_) => Err(WireError::InvalidBoolean),
            Err(error) => Err(error),
        }
    }

    pub fn u16(&mut self) -> (result: Result<u16, WireError>)
        requires
            old(self).well_formed(),
        ensures
            reads(
                *old(self),
                *final(self),
                result,
                u16_at(old(self).bytes@, old(self).offset as int),
            ),
            final(self).offset == behind(
                u16_at(old(self).bytes@, old(self).offset as int),
                old(self).offset as int,
            ),
    {
        match self.offset.checked_add(2) {
            None => Err(WireError::LengthOverflow),
            Some(end) => {
                if end > self.bytes.len() {
                    return Err(WireError::TruncatedInteger);
                }
                let low: u16 = self.bytes[self.offset] as u16;
                let high: u16 = self.bytes[self.offset + 1] as u16;
                self.offset = end;
                Ok(low + 256 * high)
            },
        }
    }

    pub fn u32(&mut self) -> (result: Result<u32, WireError>)
        requires
            old(self).well_formed(),
        ensures
            reads(
                *old(self),
                *final(self),
                result,
                u32_at(old(self).bytes@, old(self).offset as int),
            ),
            final(self).offset == behind(
                u32_at(old(self).bytes@, old(self).offset as int),
                old(self).offset as int,
            ),
    {
        match self.offset.checked_add(4) {
            None => Err(WireError::LengthOverflow),
            Some(end) => {
                if end > self.bytes.len() {
                    return Err(WireError::TruncatedInteger);
                }
                let value: u32 = self.four_bytes();
                Ok(value)
            },
        }
    }

    /// The number that the next four bytes hold.
    fn four_bytes(&mut self) -> (value: u32)
        requires
            old(self).well_formed(),
            old(self).offset + 4 <= old(self).bytes@.len(),
        ensures
            final(self).bytes@ == old(self).bytes@,
            final(self).offset == old(self).offset + 4,
            value == number32(old(self).bytes@, old(self).offset as int),
    {
        let first: u32 = self.bytes[self.offset] as u32;
        let second: u32 = self.bytes[self.offset + 1] as u32;
        let third: u32 = self.bytes[self.offset + 2] as u32;
        let fourth: u32 = self.bytes[self.offset + 3] as u32;
        self.offset = self.offset + 4;
        first + 256 * second + 65536 * third + 16777216 * fourth
    }

    pub fn i32(&mut self) -> (result: Result<i32, WireError>)
        requires
            old(self).well_formed(),
        ensures
            reads(
                *old(self),
                *final(self),
                result,
                i32_at(old(self).bytes@, old(self).offset as int),
            ),
            final(self).offset == i32_stop(old(self).bytes@, old(self).offset as int),
    {
        if self.bytes.len() - self.offset < 4 {
            self.offset = self.bytes.len();
            return Err(WireError::TruncatedFrame);
        }
        let pattern: u32 = self.four_bytes();
        if pattern < 2147483648 {
            Ok(pattern as i32)
        } else {
            Ok((pattern as i64 - 4294967296) as i32)
        }
    }

    pub fn bytes(&mut self) -> (result: Result<Vec<u8>, WireError>)
        requires
            old(self).well_formed(),
        ensures
            final(self).bytes@ == old(self).bytes@,
            final(self).well_formed(),
            match bytes_at(old(self).bytes@, old(self).offset as int) {
                Ok((value, next)) => {
                    &&& result matches Ok(bytes)
                    &&& bytes@ == value
                    &&& final(self).offset == next
                },
                Err(error) => result == Err::<Vec<u8>, WireError>(error),
            },
            final(self).offset == bytes_stop(old(self).bytes@, old(self).offset as int),
    {
        let length: usize = match self.u32() {
            Ok(length) => length as usize,
            Err(error) => return Err(error),
        };
        match self.offset.checked_add(length) {
            None => Err(WireError::LengthOverflow),
            Some(end) => {
                if end > self.bytes.len() {
                    return Err(WireError::TruncatedBytes);
                }
                let mut value: Vec<u8> = Vec::new();
                let start: usize = self.offset;
                let mut index: usize = start;
                while index < end
                    invariant
                        start <= index <= end <= self.bytes@.len(),
                        value@ =~= self.bytes@.subrange(start as int, index as int),
                    decreases end - index,
                {
                    value.push(self.bytes[index]);
                    index += 1;
                }
                self.offset = end;
                Ok(value)
            },
        }
    }

    pub fn string(&mut self) -> (result: Result<String, WireError>)
        requires
            old(self).well_formed(),
        ensures
            final(self).bytes@ == old(self).bytes@,
            final(self).well_formed(),
            match text_at(old(self).bytes@, old(self).offset as int) {
                Ok((value, next)) => {
                    &&& result matches Ok(text)
                    &&& text@ == value
                    &&& final(self).offset == next
                },
                Err(error) => result == Err::<String, WireError>(error),
            },
            final(self).offset == bytes_stop(old(self).bytes@, old(self).offset as int),
    {
        match self.bytes() {
            Ok(bytes) => match text::string_from_utf8(bytes) {
                Some(text) => Ok(text),
                None => Err(WireError::InvalidUtf8),
            },
            Err(error) => Err(error),
        }
    }

    pub fn optional_string(&mut self) -> (result: Result<Option<String>, WireError>)
        requires
            old(self).well_formed(),
        ensures
            final(self).bytes@ == old(self).bytes@,
            final(self).well_formed(),
            match optional_text_at(old(self).bytes@, old(self).offset as int) {
                Ok((value, next)) => {
                    &&& result matches Ok(text)
                    &&& wire::text_view(text) == value
                    &&& final(self).offset == next
                },
                Err(error) => result == Err::<Option<String>, WireError>(error),
            },
            final(self).offset == optional_text_stop(old(self).bytes@, old(self).offset as int),
    {
        match self.byte() {
            Ok(0) => Ok(None),
            Ok(1) => match self.string() {
                Ok(text) => Ok(Some(text)),
                Err(error) => Err(error),
            },
            Ok(_) => Err(WireError::InvalidOptionalString),
            Err(error) => Err(error),
        }
    }

    pub fn strings(&mut self) -> (result: Result<Vec<String>, WireError>)
        requires
            old(self).well_formed(),
        ensures
            final(self).bytes@ == old(self).bytes@,
            final(self).well_formed(),
            match texts_at(old(self).bytes@, old(self).offset as int) {
                Ok((value, next)) => {
                    &&& result matches Ok(list)
                    &&& text::texts(list@) == value
                    &&& final(self).offset == next
                },
                Err(error) => result == Err::<Vec<String>, WireError>(error),
            },
            final(self).offset == texts_stop(old(self).bytes@, old(self).offset as int),
    {
        let count: u32 = match self.u32() {
            Ok(count) => count,
            Err(error) => return Err(error),
        };
        if count > MAX_STRINGS {
            return Err(WireError::TooManyArguments);
        }
        let ghost data = self.bytes@;
        let ghost start = self.offset as int;
        let mut list: Vec<String> = Vec::new();
        assert(text::texts(list@) =~= seq![]);
        let mut index: u32 = 0;
        while index < count
            invariant
                index <= count <= MAX_STRINGS,
                self.bytes@ == data,
                self.well_formed(),
                old(self).bytes@ == data,
                texts_at(
                    data,
                    old(self).offset as int,
                ) == repeated_text_at(data, start, count as nat),
                texts_stop(
                    data,
                    old(self).offset as int,
                ) == repeated_text_stop(data, start, count as nat),
                repeated_text_stop(data, start, index as nat) == self.offset,
                repeated_text_at(
                    data,
                    start,
                    index as nat,
                ) == Ok::<(Seq<Seq<char>>, int), WireError>(
                    (text::texts(list@), self.offset as int),
                ),
            decreases count - index,
        {
            match self.string() {
                Ok(text) => {
                    let ghost before = list@;
                    list.push(text);
                    assert(text::texts(list@) =~= text::texts(before).push(text@));
                },
                Err(error) => {
                    proof {
                        lemma_texts_stop(data, start, (index + 1) as nat, count as nat, error);
                    }
                    return Err(error);
                },
            }
            index += 1;
        }
        Ok(list)
    }

    pub fn size(&mut self) -> (result: Result<Size, WireError>)
        requires
            old(self).well_formed(),
        ensures
            reads(
                *old(self),
                *final(self),
                result,
                size_at(old(self).bytes@, old(self).offset as int),
            ),
            final(self).offset == size_stop(old(self).bytes@, old(self).offset as int),
    {
        let cols: u16 = match self.u16() {
            Ok(cols) => cols,
            Err(error) => return Err(error),
        };
        let rows: u16 = match self.u16() {
            Ok(rows) => rows,
            Err(error) => return Err(error),
        };
        Ok(Size::new(cols, rows))
    }

    pub fn optional_bool(&mut self) -> (result: Result<Option<bool>, WireError>)
        requires
            old(self).well_formed(),
        ensures
            reads(
                *old(self),
                *final(self),
                result,
                optional_at(
                    old(self).bytes@,
                    old(self).offset as int,
                    |b: Seq<u8>,
                    i: int| flag_at(b, i),
                ),
            ),
            final(self).offset == optional_stop(
                old(self).bytes@,
                old(self).offset as int,
                |b: Seq<u8>, i: int| code_stop(b, i),
            ),
    {
        match self.bool() {
            Ok(false) => Ok(None),
            Ok(true) => match self.bool() {
                Ok(value) => Ok(Some(value)),
                Err(error) => Err(error),
            },
            Err(error) => Err(error),
        }
    }

    pub fn optional_bytes(&mut self) -> (result: Result<Option<Vec<u8>>, WireError>)
        requires
            old(self).well_formed(),
        ensures
            final(self).bytes@ == old(self).bytes@,
            final(self).well_formed(),
            match optional_at(
                old(self).bytes@,
                old(self).offset as int,
                |b: Seq<u8>, i: int| bytes_at(b, i),
            ) {
                Ok((value, next)) => {
                    &&& result matches Ok(bytes)
                    &&& wire::bytes_view(bytes) == value
                    &&& final(self).offset == next
                },
                Err(error) => result == Err::<Option<Vec<u8>>, WireError>(error),
            },
            final(self).offset == optional_stop(
                old(self).bytes@,
                old(self).offset as int,
                |b: Seq<u8>, i: int| bytes_stop(b, i),
            ),
    {
        match self.bool() {
            Ok(false) => Ok(None),
            Ok(true) => match self.bytes() {
                Ok(value) => Ok(Some(value)),
                Err(error) => Err(error),
            },
            Err(error) => Err(error),
        }
    }

    pub fn optional_i32(&mut self) -> (result: Result<Option<i32>, WireError>)
        requires
            old(self).well_formed(),
        ensures
            reads(
                *old(self),
                *final(self),
                result,
                optional_at(
                    old(self).bytes@,
                    old(self).offset as int,
                    |b: Seq<u8>,
                    i: int| i32_at(b, i),
                ),
            ),
            final(self).offset == optional_stop(
                old(self).bytes@,
                old(self).offset as int,
                |b: Seq<u8>, i: int| i32_stop(b, i),
            ),
    {
        match self.bool() {
            Ok(false) => Ok(None),
            Ok(true) => match self.i32() {
                Ok(value) => Ok(Some(value)),
                Err(error) => Err(error),
            },
            Err(error) => Err(error),
        }
    }

    pub fn optional_u16(&mut self) -> (result: Result<Option<u16>, WireError>)
        requires
            old(self).well_formed(),
        ensures
            reads(
                *old(self),
                *final(self),
                result,
                optional_at(
                    old(self).bytes@,
                    old(self).offset as int,
                    |b: Seq<u8>,
                    i: int| u16_at(b, i),
                ),
            ),
            final(self).offset == optional_stop(
                old(self).bytes@,
                old(self).offset as int,
                |b: Seq<u8>, i: int| behind(u16_at(b, i), i),
            ),
    {
        match self.bool() {
            Ok(false) => Ok(None),
            Ok(true) => match self.u16() {
                Ok(value) => Ok(Some(value)),
                Err(error) => Err(error),
            },
            Err(error) => Err(error),
        }
    }

    pub fn optional_u32(&mut self) -> (result: Result<Option<u32>, WireError>)
        requires
            old(self).well_formed(),
        ensures
            reads(
                *old(self),
                *final(self),
                result,
                optional_at(
                    old(self).bytes@,
                    old(self).offset as int,
                    |b: Seq<u8>,
                    i: int| u32_at(b, i),
                ),
            ),
            final(self).offset == optional_stop(
                old(self).bytes@,
                old(self).offset as int,
                |b: Seq<u8>, i: int| behind(u32_at(b, i), i),
            ),
    {
        match self.bool() {
            Ok(false) => Ok(None),
            Ok(true) => match self.u32() {
                Ok(value) => Ok(Some(value)),
                Err(error) => Err(error),
            },
            Err(error) => Err(error),
        }
    }

    pub fn direction(&mut self) -> (result: Result<PaneDirection, WireError>)
        requires
            old(self).well_formed(),
        ensures
            reads(
                *old(self),
                *final(self),
                result,
                direction_at(old(self).bytes@, old(self).offset as int),
            ),
            final(self).offset == code_stop(old(self).bytes@, old(self).offset as int),
    {
        match self.byte() {
            Ok(code) => decode_direction(code),
            Err(error) => Err(error),
        }
    }

    pub fn optional_direction(&mut self) -> (result: Result<Option<PaneDirection>, WireError>)
        requires
            old(self).well_formed(),
        ensures
            reads(
                *old(self),
                *final(self),
                result,
                optional_at(
                    old(self).bytes@,
                    old(self).offset as int,
                    |b: Seq<u8>, i: int| direction_at(b, i),
                ),
            ),
            final(self).offset == optional_stop(
                old(self).bytes@,
                old(self).offset as int,
                |b: Seq<u8>, i: int| code_stop(b, i),
            ),
    {
        match self.bool() {
            Ok(false) => Ok(None),
            Ok(true) => match self.direction() {
                Ok(value) => Ok(Some(value)),
                Err(error) => Err(error),
            },
            Err(error) => Err(error),
        }
    }

    pub fn optional_scope(&mut self) -> (result: Result<Option<OptionScope>, WireError>)
        requires
            old(self).well_formed(),
        ensures
            reads(
                *old(self),
                *final(self),
                result,
                optional_at(
                    old(self).bytes@,
                    old(self).offset as int,
                    |b: Seq<u8>,
                    i: int| scope_at(b, i),
                ),
            ),
            final(self).offset == optional_stop(
                old(self).bytes@,
                old(self).offset as int,
                |b: Seq<u8>, i: int| code_stop(b, i),
            ),
    {
        match self.bool() {
            Ok(false) => Ok(None),
            Ok(true) => match self.byte() {
                Ok(code) => match decode_option_scope(code) {
                    Ok(value) => Ok(Some(value)),
                    Err(error) => Err(error),
                },
                Err(error) => Err(error),
            },
            Err(error) => Err(error),
        }
    }

    /// The field of a kind.
    pub fn field(&mut self, kind: Kind) -> (result: Result<Field, WireError>)
        requires
            old(self).well_formed(),
        ensures
            final(self).bytes@ == old(self).bytes@,
            final(self).well_formed(),
            match field_at(old(self).bytes@, old(self).offset as int, kind) {
                Ok((value, next)) => {
                    &&& result matches Ok(field)
                    &&& field@ == value
                    &&& final(self).offset == next
                },
                Err(error) => result == Err::<Field, WireError>(error),
            },
            final(self).offset == field_stop(old(self).bytes@, old(self).offset as int, kind),
    {
        match kind {
            Kind::Text => match self.string() {
                Ok(value) => Ok(FieldOf::Text(value)),
                Err(error) => Err(error),
            },
            Kind::OptionalText => match self.optional_string() {
                Ok(value) => Ok(FieldOf::OptionalText(value)),
                Err(error) => Err(error),
            },
            Kind::Texts => match self.strings() {
                Ok(value) => Ok(FieldOf::Texts(value)),
                Err(error) => Err(error),
            },
            Kind::Bytes => match self.bytes() {
                Ok(value) => Ok(FieldOf::Bytes(value)),
                Err(error) => Err(error),
            },
            Kind::OptionalBytes => match self.optional_bytes() {
                Ok(value) => Ok(FieldOf::OptionalBytes(value)),
                Err(error) => Err(error),
            },
            Kind::Flag => match self.bool() {
                Ok(value) => Ok(FieldOf::Flag(value)),
                Err(error) => Err(error),
            },
            Kind::OptionalFlag => match self.optional_bool() {
                Ok(value) => Ok(FieldOf::OptionalFlag(value)),
                Err(error) => Err(error),
            },
            Kind::Count => match self.u32() {
                Ok(value) => Ok(FieldOf::Count(value)),
                Err(error) => Err(error),
            },
            Kind::OptionalIndex => match self.optional_u32() {
                Ok(value) => Ok(FieldOf::OptionalIndex(value)),
                Err(error) => Err(error),
            },
            Kind::Amount => match self.i32() {
                Ok(value) => Ok(FieldOf::Amount(value)),
                Err(error) => Err(error),
            },
            Kind::OptionalLine => match self.optional_i32() {
                Ok(value) => Ok(FieldOf::OptionalLine(value)),
                Err(error) => Err(error),
            },
            Kind::OptionalCells => match self.optional_u16() {
                Ok(value) => Ok(FieldOf::OptionalCells(value)),
                Err(error) => Err(error),
            },
            Kind::Dimensions => match self.size() {
                Ok(value) => Ok(FieldOf::Dimensions(value)),
                Err(error) => Err(error),
            },
            Kind::Direction => match self.direction() {
                Ok(value) => Ok(FieldOf::Direction(value)),
                Err(error) => Err(error),
            },
            Kind::OptionalDirection => match self.optional_direction() {
                Ok(value) => Ok(FieldOf::OptionalDirection(value)),
                Err(error) => Err(error),
            },
            Kind::OptionalScope => match self.optional_scope() {
                Ok(value) => Ok(FieldOf::OptionalScope(value)),
                Err(error) => Err(error),
            },
        }
    }

    /// The fields of the given kinds, one after the other.
    pub fn fields(&mut self, kinds: &Vec<Kind>) -> (result: Result<Vec<Field>, WireError>)
        requires
            old(self).well_formed(),
        ensures
            final(self).bytes@ == old(self).bytes@,
            final(self).well_formed(),
            match fields_at(old(self).bytes@, old(self).offset as int, kinds@) {
                Ok((value, next)) => {
                    &&& result matches Ok(fields)
                    &&& field_views(fields@) == value
                    &&& final(self).offset == next
                },
                Err(error) => result == Err::<Vec<Field>, WireError>(error),
            },
            final(self).offset == fields_stop(old(self).bytes@, old(self).offset as int, kinds@),
    {
        let ghost data = self.bytes@;
        let ghost start = self.offset as int;
        let mut fields: Vec<Field> = Vec::new();
        assert(field_views(fields@) =~= seq![]);
        assert(kinds@.take(0) =~= seq![]);
        let mut index: usize = 0;
        while index < kinds.len()
            invariant
                index <= kinds@.len(),
                self.bytes@ == data,
                self.well_formed(),
                old(self).bytes@ == data,
                old(self).offset == start,
                fields_at(data, start, kinds@.take(index as int)) == Ok::<
                    (Seq<FieldView>, int),
                    WireError,
                >((field_views(fields@), self.offset as int)),
                fields_stop(data, start, kinds@.take(index as int)) == self.offset,
            decreases kinds@.len() - index,
        {
            assert(kinds@.take(index + 1).drop_last() =~= kinds@.take(index as int));
            match self.field(kinds[index]) {
                Ok(field) => {
                    let ghost before = fields@;
                    fields.push(field);
                    assert(field_views(fields@) =~= field_views(before).push(field@));
                },
                Err(error) => {
                    proof {
                        lemma_fields_stop(data, start, kinds@, index + 1, error);
                    }
                    return Err(error);
                },
            }
            index += 1;
        }
        assert(kinds@.take(index as int) =~= kinds@);
        Ok(fields)
    }

    /// Fails unless every byte of the frame has been read.
    pub fn finish(&self) -> (result: Result<(), WireError>)
        requires
            self.well_formed(),
        ensures
            result == if self.offset == self.bytes@.len() {
                Ok::<(), WireError>(())
            } else {
                Err::<(), WireError>(WireError::TrailingData)
            },
    {
        if self.offset == self.bytes.len() {
            Ok(())
        } else {
            Err(WireError::TrailingData)
        }
    }
}

pub fn decode_direction(code: u8) -> (result: Result<PaneDirection, WireError>)
    ensures
        result == direction_of(code),
{
    match code {
        1 => Ok(PaneDirection::Left),
        2 => Ok(PaneDirection::Right),
        3 => Ok(PaneDirection::Up),
        4 => Ok(PaneDirection::Down),
        5 => Ok(PaneDirection::Next),
        6 => Ok(PaneDirection::Previous),
        7 => Ok(PaneDirection::Last),
        _ => Err(WireError::UnknownDirection),
    }
}

pub fn decode_option_scope(code: u8) -> (result: Result<OptionScope, WireError>)
    ensures
        result == scope_of(code),
{
    match code {
        1 => Ok(OptionScope::Global),
        2 => Ok(OptionScope::Session),
        3 => Ok(OptionScope::Window),
        4 => Ok(OptionScope::Pane),
        _ => Err(WireError::UnknownScope),
    }
}

/// A list of texts that cannot be read fails with its first unreadable text.
proof fn lemma_texts_stop(bytes: Seq<u8>, at: int, few: nat, many: nat, error: WireError)
    requires
        few <= many,
        repeated_text_at(bytes, at, few) == Err::<(Seq<Seq<char>>, int), WireError>(error),
    ensures
        repeated_text_at(bytes, at, many) == Err::<(Seq<Seq<char>>, int), WireError>(error),
        repeated_text_stop(bytes, at, many) == repeated_text_stop(bytes, at, few),
    decreases many,
{
    if few < many {
        lemma_texts_stop(bytes, at, few, (many - 1) as nat, error);
    }
}

/// Fields that cannot be read fail with the first unreadable field.
proof fn lemma_fields_stop(bytes: Seq<u8>, at: int, kinds: Seq<Kind>, count: int, error: WireError)
    requires
        0 <= count <= kinds.len(),
        fields_at(bytes, at, kinds.take(count)) == Err::<(Seq<FieldView>, int), WireError>(error),
    ensures
        fields_at(bytes, at, kinds) == Err::<(Seq<FieldView>, int), WireError>(error),
        fields_stop(bytes, at, kinds) == fields_stop(bytes, at, kinds.take(count)),
    decreases kinds.len(),
{
    if count < kinds.len() {
        assert(kinds.drop_last().take(count) =~= kinds.take(count));
        lemma_fields_stop(bytes, at, kinds.drop_last(), count, error);
    } else {
        assert(kinds.take(count) =~= kinds);
    }
}

} // verus!
