//! What holds of the protocol as a whole: what is written is read back, and no
//! two messages share an encoding.

use vstd::prelude::*;
use vstd::utf8::*;

use crate::protocol::decode;
use crate::protocol::frame::{self, MAX_FRAME};
use crate::protocol::message::{self, ClientMessageView, ServerMessageView};
use crate::protocol::request::{self, RequestView};
use crate::protocol::wire::{
    self, FieldOf, FieldView, Kind, OptionScope, PaneDirection, WireError, MAX_STRINGS,
};

verus! {

/// Whether a reader accepts a field of this size.
pub open spec fn readable(field: FieldView) -> bool {
    field matches FieldOf::Texts(list) ==> list.len() <= MAX_STRINGS
}

/// Whether a reader accepts every list that a request holds.
pub open spec fn readable_request(request: RequestView) -> bool {
    forall|i: int|
        0 <= i < request::request_fields(request).len() ==> readable(
            #[trigger] request::request_fields(request)[i],
        )
}

proof fn lemma_number32(bytes: Seq<u8>, at: int, value: int)
    requires
        0 <= at,
        at + 4 <= bytes.len(),
        0 <= value < 4294967296,
        bytes.subrange(at, at + 4) == wire::le32(value),
    ensures
        decode::number32(bytes, at) == value,
{
    let part = bytes.subrange(at, at + 4);
    assert(part[0] == bytes[at] && part[1] == bytes[at + 1] && part[2] == bytes[at + 2] && part[3]
        == bytes[at + 3]);
}

proof fn lemma_number16(bytes: Seq<u8>, at: int, value: int)
    requires
        0 <= at,
        at + 2 <= bytes.len(),
        0 <= value < 65536,
        bytes.subrange(at, at + 2) == wire::le16(value),
    ensures
        decode::number16(bytes, at) == value,
{
    let part = bytes.subrange(at, at + 2);
    assert(part[0] == bytes[at] && part[1] == bytes[at + 1]);
}

/// The bytes of a number that is put together from bytes.
#[verifier::spinoff_prover]
proof fn lemma_four_bytes(first: int, second: int, third: int, fourth: int)
    requires
        0 <= first < 256,
        0 <= second < 256,
        0 <= third < 256,
        0 <= fourth < 256,
    ensures
        ({
            let value = first + 256 * second + 65536 * third + 16777216 * fourth;
            &&& 0 <= value < 4294967296
            &&& value % 256 == first
            &&& value / 256 % 256 == second
            &&& value / 65536 % 256 == third
            &&& value / 16777216 % 256 == fourth
        }),
{
    let value = first + 256 * second + 65536 * third + 16777216 * fourth;
    assert(value / 256 == second + 256 * third + 65536 * fourth);
    assert(value / 65536 == third + 256 * fourth);
    assert(value / 16777216 == fourth);
}

#[verifier::spinoff_prover]
proof fn lemma_le32(bytes: Seq<u8>, at: int)
    requires
        0 <= at,
        at + 4 <= bytes.len(),
    ensures
        bytes.subrange(at, at + 4) == wire::le32(decode::number32(bytes, at)),
        0 <= decode::number32(bytes, at) < 4294967296,
{
    lemma_four_bytes(
        bytes[at] as int,
        bytes[at + 1] as int,
        bytes[at + 2] as int,
        bytes[at + 3] as int,
    );
    assert(bytes.subrange(at, at + 4) =~= wire::le32(decode::number32(bytes, at)));
}

proof fn lemma_le16(bytes: Seq<u8>, at: int)
    requires
        0 <= at,
        at + 2 <= bytes.len(),
    ensures
        bytes.subrange(at, at + 2) == wire::le16(decode::number16(bytes, at)),
        0 <= decode::number16(bytes, at) < 65536,
{
    assert(bytes.subrange(at, at + 2) =~= wire::le16(decode::number16(bytes, at)));
}

/// Whether the given bytes stand at a position.
spec fn stands_at(bytes: Seq<u8>, at: int, part: Seq<u8>) -> bool {
    &&& 0 <= at
    &&& at + part.len() <= bytes.len() <= usize::MAX
    &&& bytes.subrange(at, at + part.len()) == part
}

proof fn lemma_stands_split(bytes: Seq<u8>, at: int, first: Seq<u8>, second: Seq<u8>)
    requires
        stands_at(bytes, at, first + second),
    ensures
        stands_at(bytes, at, first),
        stands_at(bytes, at + first.len(), second),
{
    let whole = bytes.subrange(at, at + (first + second).len());
    assert(bytes.subrange(at, at + first.len()) =~= whole.subrange(0, first.len() as int));
    assert(whole.subrange(0, first.len() as int) =~= first);
    assert(bytes.subrange(at + first.len(), at + first.len() + second.len()) =~= whole.subrange(
        first.len() as int,
        whole.len() as int,
    ));
    assert(whole.subrange(first.len() as int, whole.len() as int) =~= second);
}

proof fn lemma_stands_first(bytes: Seq<u8>, at: int, part: Seq<u8>)
    requires
        stands_at(bytes, at, part),
        part.len() > 0,
    ensures
        bytes[at] == part[0],
{
    assert(bytes.subrange(at, at + part.len())[0] == bytes[at]);
}

proof fn lemma_bytes_read_back(bytes: Seq<u8>, at: int, value: Seq<u8>)
    requires
        stands_at(bytes, at, wire::sized(value)),
        value.len() <= u32::MAX,
    ensures
        decode::bytes_at(bytes, at) == Ok::<(Seq<u8>, int), WireError>(
            (value, at + wire::sized(value).len()),
        ),
{
    let prefix = wire::le32(value.len() as int);
    assert(prefix.len() == 4);
    lemma_stands_split(bytes, at, prefix, value);
    lemma_number32(bytes, at, value.len() as int);
}

proof fn lemma_text_read_back(bytes: Seq<u8>, at: int, value: Seq<char>)
    requires
        stands_at(bytes, at, wire::sized(encode_utf8(value))),
        encode_utf8(value).len() <= u32::MAX,
    ensures
        decode::text_at(bytes, at) == Ok::<(Seq<char>, int), WireError>(
            (value, at + wire::sized(encode_utf8(value)).len()),
        ),
{
    lemma_bytes_read_back(bytes, at, encode_utf8(value));
    encode_utf8_valid_utf8(value);
    encode_utf8_decode_utf8(value);
}

/// Whether the length of every text in a list can be written.
pub open spec fn have_lengths(list: Seq<Seq<char>>) -> bool {
    forall|i: int| 0 <= i < list.len() ==> encode_utf8(#[trigger] list[i]).len() <= u32::MAX
}

/// Texts that stand in few bytes are short.
proof fn lemma_texts_have_lengths(list: Seq<Seq<char>>)
    requires
        wire::sized_texts(list).len() <= u32::MAX,
    ensures
        have_lengths(list),
    decreases list.len(),
{
    if list.len() > 0 {
        let front = list.drop_last();
        lemma_texts_have_lengths(front);
        assert forall|i: int| 0 <= i < list.len() implies encode_utf8(#[trigger] list[i]).len()
            <= u32::MAX by {
            if i < front.len() {
                assert(front[i] == list[i]);
            }
        }
    }
}

proof fn lemma_texts_read_back(bytes: Seq<u8>, at: int, list: Seq<Seq<char>>)
    requires
        stands_at(bytes, at, wire::sized_texts(list)),
        have_lengths(list),
    ensures
        decode::repeated_text_at(bytes, at, list.len()) == Ok::<(Seq<Seq<char>>, int), WireError>(
            (list, at + wire::sized_texts(list).len()),
        ),
    decreases list.len(),
{
    if list.len() == 0 {
        assert(list =~= seq![]);
    } else {
        let front = wire::sized_texts(list.drop_last());
        let back = wire::sized(encode_utf8(list.last()));
        lemma_stands_split(bytes, at, front, back);
        assert forall|i: int| 0 <= i < list.drop_last().len() implies encode_utf8(
            #[trigger] list.drop_last()[i],
        ).len() <= u32::MAX by {
            assert(list.drop_last()[i] == list[i]);
        }
        lemma_texts_read_back(bytes, at, list.drop_last());
        assert(encode_utf8(list[list.len() - 1]).len() <= u32::MAX);
        lemma_text_read_back(bytes, at + front.len(), list.last());
        assert(list.drop_last().push(list.last()) =~= list);
    }
}

/// A field that stands in a frame is read back from there.
#[verifier::rlimit(40)]
proof fn lemma_field_read_back(bytes: Seq<u8>, at: int, field: FieldView)
    requires
        stands_at(bytes, at, wire::field_bytes(field)),
        bytes.len() <= MAX_FRAME,
        readable(field),
    ensures
        decode::field_at(bytes, at, wire::kind_of(field)) == Ok::<(FieldView, int), WireError>(
            (field, at + wire::field_bytes(field).len()),
        ),
{
    reveal(wire::field_bytes);
    let part = wire::field_bytes(field);
    match field {
        FieldOf::Text(value) => {
            lemma_text_read_back(bytes, at, value);
        },
        FieldOf::OptionalText(value) => {
            lemma_stands_first(bytes, at, part);
            if let Some(text) = value {
                lemma_stands_split(bytes, at, seq![1u8], wire::sized(encode_utf8(text)));
                lemma_text_read_back(bytes, at + 1, text);
            }
        },
        FieldOf::Texts(value) => {
            let prefix = wire::le32(value.len() as int);
            assert(prefix.len() == 4);
            lemma_stands_split(bytes, at, prefix, wire::sized_texts(value));
            lemma_number32(bytes, at, value.len() as int);
            lemma_texts_have_lengths(value);
            lemma_texts_read_back(bytes, at + 4, value);
        },
        FieldOf::Bytes(value) => {
            lemma_bytes_read_back(bytes, at, value);
        },
        FieldOf::OptionalBytes(value) => {
            lemma_stands_first(bytes, at, part);
            if let Some(inner) = value {
                lemma_stands_split(bytes, at, seq![1u8], wire::sized(inner));
                lemma_bytes_read_back(bytes, at + 1, inner);
            }
        },
        FieldOf::Flag(_) => {
            lemma_stands_first(bytes, at, part);
        },
        FieldOf::OptionalFlag(value) => {
            lemma_stands_first(bytes, at, part);
            if let Some(flag) = value {
                lemma_stands_split(bytes, at, seq![1u8], seq![wire::flag_byte(flag)]);
                lemma_stands_first(bytes, at + 1, seq![wire::flag_byte(flag)]);
            }
        },
        FieldOf::Count(value) => {
            lemma_number32(bytes, at, value as int);
        },
        FieldOf::OptionalIndex(value) => {
            lemma_stands_first(bytes, at, part);
            if let Some(number) = value {
                lemma_stands_split(bytes, at, seq![1u8], wire::le32(number as int));
                lemma_number32(bytes, at + 1, number as int);
            }
        },
        FieldOf::Amount(value) => {
            lemma_number32(bytes, at, wire::unsigned(value));
        },
        FieldOf::OptionalLine(value) => {
            lemma_stands_first(bytes, at, part);
            if let Some(number) = value {
                lemma_stands_split(bytes, at, seq![1u8], wire::le32(wire::unsigned(number)));
                lemma_number32(bytes, at + 1, wire::unsigned(number));
            }
        },
        FieldOf::OptionalCells(value) => {
            lemma_stands_first(bytes, at, part);
            if let Some(number) = value {
                lemma_stands_split(bytes, at, seq![1u8], wire::le16(number as int));
                lemma_number16(bytes, at + 1, number as int);
            }
        },
        FieldOf::Dimensions(value) => {
            lemma_stands_split(
                bytes,
                at,
                wire::le16(value.cols as int),
                wire::le16(value.rows as int),
            );
            lemma_number16(bytes, at, value.cols as int);
            lemma_number16(bytes, at + 2, value.rows as int);
        },
        FieldOf::Direction(_) => {
            lemma_stands_first(bytes, at, part);
        },
        FieldOf::OptionalDirection(value) => {
            lemma_stands_first(bytes, at, part);
            if let Some(direction) = value {
                lemma_stands_split(bytes, at, seq![1u8], seq![wire::direction_byte(direction)]);
                lemma_stands_first(bytes, at + 1, seq![wire::direction_byte(direction)]);
            }
        },
        FieldOf::OptionalScope(value) => {
            lemma_stands_first(bytes, at, part);
            if let Some(scope) = value {
                lemma_stands_split(bytes, at, seq![1u8], seq![wire::scope_byte(scope)]);
                lemma_stands_first(bytes, at + 1, seq![wire::scope_byte(scope)]);
            }
        },
    }
}

/// A list of strings is read back from wherever it was written, and the reader
/// then stands behind it; a list of more than [`MAX_STRINGS`] is refused, whatever
/// it holds. The length of each string fits the four bytes it is written with.
pub proof fn law_strings_are_read_back(
    before: Seq<u8>,
    list: Seq<Seq<char>>,
    after: Seq<u8>,
)
    requires
        list.len() <= u32::MAX,
        have_lengths(list),
        (before + wire::field_bytes(FieldOf::Texts(list)) + after).len() <= usize::MAX,
    ensures
        ({
            let written = wire::field_bytes(FieldOf::Texts(list));
            let read = decode::texts_at(before + written + after, before.len() as int);
            &&& list.len() <= MAX_STRINGS ==> read == Ok::<(Seq<Seq<char>>, int), WireError>(
                (list, (before.len() + written.len()) as int),
            )
            &&& list.len() > MAX_STRINGS ==> read == Err::<(Seq<Seq<char>>, int), WireError>(
                WireError::TooManyArguments,
            )
        }),
{
    reveal(wire::field_bytes);
    let written = wire::field_bytes(FieldOf::Texts(list));
    let bytes = before + written + after;
    let at = before.len() as int;
    let prefix = wire::le32(list.len() as int);
    assert(prefix.len() == 4);
    assert(bytes.subrange(at, at + written.len()) =~= written);
    lemma_stands_split(bytes, at, prefix, wire::sized_texts(list));
    lemma_number32(bytes, at, list.len() as int);
    if list.len() <= MAX_STRINGS {
        lemma_texts_read_back(bytes, at + 4, list);
    }
}

/// The kinds of a list of fields.
pub open spec fn kinds_of(fields: Seq<FieldView>) -> Seq<Kind> {
    fields.map_values(|field: FieldView| wire::kind_of(field))
}

/// Fields that stand behind a tag are read back from there.
proof fn lemma_fields_read_back(bytes: Seq<u8>, tag: u8, fields: Seq<FieldView>)
    requires
        stands_at(bytes, 0, wire::message_bytes(tag, fields)),
        bytes.len() <= MAX_FRAME,
        forall|i: int| 0 <= i < fields.len() ==> readable(#[trigger] fields[i]),
    ensures
        decode::fields_at(bytes, 1, kinds_of(fields)) == Ok::<(Seq<FieldView>, int), WireError>(
            (fields, wire::message_bytes(tag, fields).len() as int),
        ),
        bytes[0] == tag,
    decreases fields.len(),
{
    if fields.len() == 0 {
        lemma_stands_first(bytes, 0, seq![tag]);
        assert(fields =~= seq![]);
    } else {
        let front = wire::message_bytes(tag, fields.drop_last());
        lemma_stands_split(bytes, 0, front, wire::field_bytes(fields.last()));
        assert forall|i: int| 0 <= i < fields.drop_last().len() implies readable(
            #[trigger] fields.drop_last()[i],
        ) by {
            assert(fields.drop_last()[i] == fields[i]);
        }
        lemma_fields_read_back(bytes, tag, fields.drop_last());
        lemma_field_read_back(bytes, front.len() as int, fields.last());
        assert(kinds_of(fields).drop_last() =~= kinds_of(fields.drop_last()));
        assert(fields.drop_last().push(fields.last()) =~= fields);
    }
}

/// A payload that was written for a tag and fields of its schema is read back
/// as that tag and those fields.
proof fn lemma_message_read_back(
    tag: u8,
    fields: Seq<FieldView>,
    schema: spec_fn(u8) -> Option<Seq<Kind>>,
    unknown: WireError,
)
    requires
        schema(tag) == Some(kinds_of(fields)),
        wire::message_bytes(tag, fields).len() <= MAX_FRAME,
        forall|i: int| 0 <= i < fields.len() ==> readable(#[trigger] fields[i]),
    ensures
        decode::message_in(wire::message_bytes(tag, fields), schema, unknown) == Ok::<
            (u8, Seq<FieldView>),
            WireError,
        >((tag, fields)),
{
    let payload = wire::message_bytes(tag, fields);
    assert(payload.subrange(0, payload.len() as int) =~= payload);
    lemma_fields_read_back(payload, tag, fields);
    lemma_message_is_not_empty(tag, fields);
}

proof fn lemma_message_is_not_empty(tag: u8, fields: Seq<FieldView>)
    ensures
        wire::message_bytes(tag, fields).len() >= 1,
    decreases fields.len(),
{
    if fields.len() > 0 {
        lemma_message_is_not_empty(tag, fields.drop_last());
    }
}

proof fn lemma_request_schema(request: RequestView)
    ensures
        request::request_schema(request::request_tag(request)) == Some(
            kinds_of(request::request_fields(request)),
        ),
{
    let kinds = kinds_of(request::request_fields(request));
    assert(request::request_schema(request::request_tag(request))->0 =~= kinds);
}

/// A frame is read back from wherever it stands in a stream, and the reader then
/// stands behind it.
pub proof fn law_frame_is_read_back(before: Seq<u8>, payload: Seq<u8>, after: Seq<u8>)
    requires
        0 < payload.len() <= MAX_FRAME,
    ensures
        frame::frame_at(before + frame::frame_bytes(payload) + after, before.len() as int) == Ok::<
            (Seq<u8>, int),
            WireError,
        >((payload, (before.len() + frame::frame_bytes(payload).len()) as int)),
{
    let stream = before + frame::frame_bytes(payload) + after;
    let at = before.len() as int;
    let header = wire::le32(payload.len() as int);
    assert(header.len() == 4);
    assert(stream.subrange(at, at + 4) =~= header);
    lemma_number32(stream, at, payload.len() as int);
    assert(stream.subrange(at + 4, at + 4 + payload.len()) =~= payload);
}

/// A request that was written to a stream is read back from it, and from
/// nothing that was written for another request.
pub proof fn law_request_round_trip(request: RequestView, before: Seq<u8>, after: Seq<u8>)
    requires
        message::request_bytes(request).len() <= MAX_FRAME,
        readable_request(request),
    ensures
        ({
            let payload = message::request_bytes(request);
            let stream = before + frame::frame_bytes(payload) + after;
            &&& frame::frame_at(stream, before.len() as int) == Ok::<(Seq<u8>, int), WireError>(
                (payload, (before.len() + frame::frame_bytes(payload).len()) as int),
            )
            &&& message::request_in(payload) == Ok::<(u8, Seq<FieldView>), WireError>(
                (request::request_tag(request), request::request_fields(request)),
            )
        }),
        forall|other: RequestView|
            #![trigger request::request_tag(other)]
            request::request_tag(other) == request::request_tag(request)
                && request::request_fields(other) == request::request_fields(request)
                ==> other == request,
{
    let tag = request::request_tag(request);
    let fields = request::request_fields(request);
    lemma_message_is_not_empty(tag, fields);
    law_frame_is_read_back(before, message::request_bytes(request), after);
    lemma_request_schema(request);
    let schema = |tag: u8| request::request_schema(tag);
    lemma_message_read_back(tag, fields, schema, WireError::UnknownRequestTag);
    assert forall|other: RequestView|
        #![trigger request::request_tag(other)]
        request::request_tag(other) == tag && request::request_fields(other)
            == fields implies other == request by {
        law_requests_differ_on_the_wire(request, other);
    }
}

/// The tag and the fields of a request say which request it is.
#[verifier::rlimit(60)]
#[verifier::spinoff_prover]
pub proof fn law_requests_differ_on_the_wire(one: RequestView, other: RequestView)
    requires
        request::request_tag(one) == request::request_tag(other),
        request::request_fields(one) == request::request_fields(other),
    ensures
        one == other,
{
    let a = request::request_fields(one);
    let b = request::request_fields(other);
    assert(a.len() == b.len());
    assert(a[0] == b[0] && a[1] == b[1] && a[2] == b[2] && a[3] == b[3]);
    assert(a[4] == b[4] && a[5] == b[5] && a[6] == b[6] && a[7] == b[7]);
    assert(a[8] == b[8] && a[9] == b[9] && a[10] == b[10] && a[11] == b[11]);
}

proof fn lemma_server_schema(message: ServerMessageView)
    ensures
        message::server_schema(message::server_tag(message)) == Some(
            kinds_of(message::server_fields(message)),
        ),
{
    let kinds = kinds_of(message::server_fields(message));
    assert(message::server_schema(message::server_tag(message))->0 =~= kinds);
}

#[verifier::spinoff_prover]
proof fn lemma_server_messages_differ(one: ServerMessageView, other: ServerMessageView)
    requires
        message::server_tag(one) == message::server_tag(other),
        message::server_fields(one) == message::server_fields(other),
    ensures
        one == other,
{
    let a = message::server_fields(one);
    let b = message::server_fields(other);
    assert(a[0] == b[0] && a[1] == b[1]);
}

/// What the daemon says is read back by the client as it was said.
#[verifier::spinoff_prover]
pub proof fn law_server_message_round_trip(
    message: ServerMessageView,
    before: Seq<u8>,
    after: Seq<u8>,
)
    requires
        message::server_message_bytes(message).len() <= MAX_FRAME,
    ensures
        ({
            let payload = message::server_message_bytes(message);
            let stream = before + frame::frame_bytes(payload) + after;
            &&& frame::frame_at(stream, before.len() as int) == Ok::<(Seq<u8>, int), WireError>(
                (payload, (before.len() + frame::frame_bytes(payload).len()) as int),
            )
            &&& message::server_message_in(payload) == Ok::<(u8, Seq<FieldView>), WireError>(
                (message::server_tag(message), message::server_fields(message)),
            )
        }),
        forall|other: ServerMessageView|
            #![trigger message::server_tag(other)]
            message::server_tag(other) == message::server_tag(message) && message::server_fields(
                other,
            ) == message::server_fields(message) ==> other == message,
{
    let tag = message::server_tag(message);
    let fields = message::server_fields(message);
    lemma_message_is_not_empty(tag, fields);
    law_frame_is_read_back(before, message::server_message_bytes(message), after);
    lemma_server_schema(message);
    let schema = |tag: u8| message::server_schema(tag);
    lemma_message_read_back(tag, fields, schema, WireError::UnknownServerMessageTag);
    assert forall|other: ServerMessageView|
        #![trigger message::server_tag(other)]
        message::server_tag(other) == tag && message::server_fields(other)
            == fields implies other == message by {
        lemma_server_messages_differ(message, other);
    }
}

proof fn lemma_client_schema(message: ClientMessageView)
    ensures
        message::client_schema(message::client_tag(message)) == Some(
            kinds_of(message::client_fields(message)),
        ),
{
    let kinds = kinds_of(message::client_fields(message));
    assert(message::client_schema(message::client_tag(message))->0 =~= kinds);
}

#[verifier::spinoff_prover]
proof fn lemma_client_messages_differ(one: ClientMessageView, other: ClientMessageView)
    requires
        message::client_tag(one) == message::client_tag(other),
        message::client_fields(one) == message::client_fields(other),
    ensures
        one == other,
{
    let a = message::client_fields(one);
    let b = message::client_fields(other);
    assert(a[0] == b[0]);
}

/// What a client says is read back by the daemon as it was said.
#[verifier::spinoff_prover]
pub proof fn law_client_message_round_trip(
    message: ClientMessageView,
    before: Seq<u8>,
    after: Seq<u8>,
)
    requires
        message::client_message_bytes(message).len() <= MAX_FRAME,
    ensures
        ({
            let payload = message::client_message_bytes(message);
            let stream = before + frame::frame_bytes(payload) + after;
            &&& frame::frame_at(stream, before.len() as int) == Ok::<(Seq<u8>, int), WireError>(
                (payload, (before.len() + frame::frame_bytes(payload).len()) as int),
            )
            &&& message::client_message_in(payload) == Ok::<(u8, Seq<FieldView>), WireError>(
                (message::client_tag(message), message::client_fields(message)),
            )
        }),
        forall|other: ClientMessageView|
            #![trigger message::client_tag(other)]
            message::client_tag(other) == message::client_tag(message) && message::client_fields(
                other,
            ) == message::client_fields(message) ==> other == message,
{
    let tag = message::client_tag(message);
    let fields = message::client_fields(message);
    lemma_message_is_not_empty(tag, fields);
    law_frame_is_read_back(before, message::client_message_bytes(message), after);
    lemma_client_schema(message);
    let schema = |tag: u8| message::client_schema(tag);
    lemma_message_read_back(tag, fields, schema, WireError::UnknownClientMessageTag);
    assert forall|other: ClientMessageView|
        #![trigger message::client_tag(other)]
        message::client_tag(other) == tag && message::client_fields(other)
            == fields implies other == message by {
        lemma_client_messages_differ(message, other);
    }
}

/// The codes of directions and scopes are read back as what they stand for.
pub proof fn law_codes_are_read_back(direction: PaneDirection, scope: OptionScope)
    ensures
        decode::direction_of(wire::direction_byte(direction)) == Ok::<PaneDirection, WireError>(
            direction,
        ),
        decode::scope_of(wire::scope_byte(scope)) == Ok::<OptionScope, WireError>(scope),
{
}

// ---------------------------------------------------------------------------
// Nothing else is accepted.

proof fn lemma_bytes_canonical(bytes: Seq<u8>, at: int)
    requires
        0 <= at,
    ensures
        decode::bytes_at(bytes, at) matches Ok((value, end)) ==> {
            &&& at <= end <= bytes.len()
            &&& bytes.subrange(at, end) == wire::sized(value)
        },
{
    if let Ok((value, end)) = decode::bytes_at(bytes, at) {
        lemma_le32(bytes, at);
        assert(bytes.subrange(at, end) =~= wire::sized(value));
    }
}

proof fn lemma_text_canonical(bytes: Seq<u8>, at: int)
    requires
        0 <= at,
    ensures
        decode::text_at(bytes, at) matches Ok((value, end)) ==> {
            &&& at <= end <= bytes.len()
            &&& bytes.subrange(at, end) == wire::sized(encode_utf8(value))
        },
{
    lemma_bytes_canonical(bytes, at);
    if let Ok((value, end)) = decode::bytes_at(bytes, at) {
        if valid_utf8(value) {
            decode_utf8_encode_utf8(value);
        }
    }
}

proof fn lemma_texts_canonical(bytes: Seq<u8>, at: int, count: nat)
    requires
        0 <= at <= bytes.len(),
    ensures
        decode::repeated_text_at(bytes, at, count) matches Ok((list, end)) ==> {
            &&& at <= end <= bytes.len()
            &&& list.len() == count
            &&& bytes.subrange(at, end) == wire::sized_texts(list)
        },
    decreases count,
{
    if count == 0 {
        assert(bytes.subrange(at, at) =~= wire::sized_texts(seq![]));
    } else {
        lemma_texts_canonical(bytes, at, (count - 1) as nat);
        if let Ok((list, next)) = decode::repeated_text_at(bytes, at, (count - 1) as nat) {
            lemma_text_canonical(bytes, next);
            if let Ok((text, end)) = decode::text_at(bytes, next) {
                assert(list.push(text).drop_last() =~= list);
                assert(bytes.subrange(at, end) =~= bytes.subrange(at, next) + bytes.subrange(
                    next,
                    end,
                ));
            }
        }
    }
}

/// A field that is accepted stands in the frame exactly as it would be written.
#[verifier::rlimit(80)]
#[verifier::spinoff_prover]
proof fn lemma_field_canonical(bytes: Seq<u8>, at: int, kind: Kind)
    requires
        0 <= at <= bytes.len(),
    ensures
        decode::field_at(bytes, at, kind) matches Ok((field, end)) ==> {
            &&& at <= end <= bytes.len()
            &&& wire::kind_of(field) == kind
            &&& readable(field)
            &&& bytes.subrange(at, end) == wire::field_bytes(field)
        },
{
    reveal(wire::field_bytes);
    if let Ok((field, end)) = decode::field_at(bytes, at, kind) {
        match kind {
            Kind::Text => {
                lemma_text_canonical(bytes, at);
            },
            Kind::OptionalText => {
                lemma_text_canonical(bytes, at + 1);
                assert(bytes.subrange(at, end) =~= seq![bytes[at]] + bytes.subrange(at + 1, end));
            },
            Kind::Texts => {
                lemma_le32(bytes, at);
                lemma_texts_canonical(bytes, at + 4, decode::u32_at(bytes, at)->Ok_0.0 as nat);
                assert(bytes.subrange(at, end) =~= bytes.subrange(at, at + 4) + bytes.subrange(
                    at + 4,
                    end,
                ));
            },
            Kind::Bytes => {
                lemma_bytes_canonical(bytes, at);
            },
            Kind::OptionalBytes => {
                lemma_bytes_canonical(bytes, at + 1);
                assert(bytes.subrange(at, end) =~= seq![bytes[at]] + bytes.subrange(at + 1, end));
            },
            Kind::Flag | Kind::Direction => {
                assert(bytes.subrange(at, end) =~= seq![bytes[at]]);
            },
            Kind::OptionalFlag | Kind::OptionalDirection | Kind::OptionalScope => {
                if end == at + 1 {
                    assert(bytes.subrange(at, end) =~= seq![bytes[at]]);
                } else {
                    assert(bytes.subrange(at, end) =~= seq![bytes[at]] + seq![bytes[at + 1]]);
                }
            },
            Kind::Count | Kind::Amount => {
                lemma_le32(bytes, at);
            },
            Kind::OptionalIndex | Kind::OptionalLine => {
                if end == at + 1 {
                    assert(bytes.subrange(at, end) =~= seq![bytes[at]]);
                } else {
                    lemma_le32(bytes, at + 1);
                    assert(bytes.subrange(at, end) =~= seq![bytes[at]] + bytes.subrange(
                        at + 1,
                        at + 1 + 4,
                    ));
                }
            },
            Kind::OptionalCells => {
                if end == at + 1 {
                    assert(bytes.subrange(at, end) =~= seq![bytes[at]]);
                } else {
                    lemma_le16(bytes, at + 1);
                    assert(bytes.subrange(at, end) =~= seq![bytes[at]] + bytes.subrange(
                        at + 1,
                        at + 1 + 2,
                    ));
                }
            },
            Kind::Dimensions => {
                lemma_le16(bytes, at);
                lemma_le16(bytes, at + 2);
                assert(bytes.subrange(at, end) =~= bytes.subrange(at, at + 2) + bytes.subrange(
                    at + 2,
                    at + 2 + 2,
                ));
            },
        }
    }
}

proof fn lemma_fields_canonical(bytes: Seq<u8>, tag: u8, kinds: Seq<Kind>)
    requires
        bytes.len() > 0,
        bytes[0] == tag,
    ensures
        decode::fields_at(bytes, 1, kinds) matches Ok((fields, end)) ==> {
            &&& 1 <= end <= bytes.len()
            &&& kinds_of(fields) == kinds
            &&& bytes.subrange(0, end) == wire::message_bytes(tag, fields)
            &&& forall|i: int| 0 <= i < fields.len() ==> readable(#[trigger] fields[i])
        },
    decreases kinds.len(),
{
    if kinds.len() == 0 {
        assert(bytes.subrange(0, 1) =~= seq![tag]);
        assert(kinds =~= seq![]);
        assert(kinds_of(seq![]) =~= seq![]);
    } else {
        lemma_fields_canonical(bytes, tag, kinds.drop_last());
        if let Ok((fields, next)) = decode::fields_at(bytes, 1, kinds.drop_last()) {
            lemma_field_canonical(bytes, next, kinds.last());
            if let Ok((field, end)) = decode::field_at(bytes, next, kinds.last()) {
                assert(fields.push(field).drop_last() =~= fields);
                assert(kinds_of(fields.push(field)) =~= kinds_of(fields).push(wire::kind_of(field)));
                assert(kinds.drop_last().push(kinds.last()) =~= kinds);
                assert(bytes.subrange(0, end) =~= bytes.subrange(0, next) + bytes.subrange(
                    next,
                    end,
                ));
            }
        }
    }
}

/// Every payload that is accepted as a request is the one encoding of its tag
/// and fields: nothing is skipped, padded or written in a second way.
pub proof fn law_request_encoding_is_unique(payload: Seq<u8>)
    ensures
        message::request_in(payload) matches Ok((tag, fields)) ==> {
            &&& payload == wire::message_bytes(tag, fields)
            &&& request::request_schema(tag) == Some(kinds_of(fields))
        },
{
    if let Ok((tag, fields)) = message::request_in(payload) {
        lemma_fields_canonical(payload, tag, request::request_schema(tag)->0);
        assert(payload.subrange(0, payload.len() as int) =~= payload);
    }
}

/// The same of the messages of the daemon and of its clients.
pub proof fn law_message_encoding_is_unique(payload: Seq<u8>)
    ensures
        message::server_message_in(payload) matches Ok((tag, fields)) ==> {
            &&& payload == wire::message_bytes(tag, fields)
            &&& message::server_schema(tag) == Some(kinds_of(fields))
        },
        message::client_message_in(payload) matches Ok((tag, fields)) ==> {
            &&& payload == wire::message_bytes(tag, fields)
            &&& message::client_schema(tag) == Some(kinds_of(fields))
        },
{
    assert(payload.subrange(0, payload.len() as int) =~= payload);
    if let Ok((tag, fields)) = message::server_message_in(payload) {
        lemma_fields_canonical(payload, tag, message::server_schema(tag)->0);
    }
    if let Ok((tag, fields)) = message::client_message_in(payload) {
        lemma_fields_canonical(payload, tag, message::client_schema(tag)->0);
    }
}

} // verus!
