//! Requests and messages as they travel: one per frame.

use vstd::prelude::*;

use crate::geometry::Size;
use crate::protocol::assemble::build_request;
use crate::protocol::decode::{self, Decoder};
use crate::protocol::frame::{self, read_frame, write_frame, Input, MAX_FRAME};
use crate::protocol::request::{self, encode_request, request_kinds, Request};
use crate::protocol::wire::{self, put_bool, put_bytes, put_size, put_string};
use crate::protocol::wire::{Field, FieldOf, FieldView, Kind, WireError};

verus! {

/// A message from an attached client, over the type that stands for a run of
/// bytes.
#[derive(Debug)]
pub enum ClientMessageOf<B> {
    Input(B),
    Resize(Size),
    Detach,
}

/// A message from the daemon, over the types that stand for a text and a run
/// of bytes.
#[derive(Debug)]
pub enum ServerMessageOf<S, B> {
    Response { ok: bool, body: S },
    Render(B),
    Closed,
}

pub type ClientMessage = ClientMessageOf<Vec<u8>>;

pub type ClientMessageView = ClientMessageOf<Seq<u8>>;

pub type ServerMessage = ServerMessageOf<String, Vec<u8>>;

pub type ServerMessageView = ServerMessageOf<Seq<char>, Seq<u8>>;

impl View for ClientMessageOf<Vec<u8>> {
    type V = ClientMessageOf<Seq<u8>>;

    open spec fn view(&self) -> ClientMessageOf<Seq<u8>> {
        match *self {
            ClientMessageOf::Input(bytes) => ClientMessageOf::Input(bytes@),
            ClientMessageOf::Resize(size) => ClientMessageOf::Resize(size),
            ClientMessageOf::Detach => ClientMessageOf::Detach,
        }
    }
}

impl View for ServerMessageOf<String, Vec<u8>> {
    type V = ServerMessageOf<Seq<char>, Seq<u8>>;

    open spec fn view(&self) -> ServerMessageOf<Seq<char>, Seq<u8>> {
        match *self {
            ServerMessageOf::Response { ok, body } => ServerMessageOf::Response { ok, body: body@ },
            ServerMessageOf::Render(bytes) => ServerMessageOf::Render(bytes@),
            ServerMessageOf::Closed => ServerMessageOf::Closed,
        }
    }
}

pub open spec fn client_tag<B>(message: ClientMessageOf<B>) -> u8 {
    match message {
        ClientMessageOf::Input(_) => 1,
        ClientMessageOf::Resize(_) => 2,
        ClientMessageOf::Detach => 3,
    }
}

pub open spec fn client_fields(message: ClientMessageView) -> Seq<FieldView> {
    match message {
        ClientMessageOf::Input(bytes) => seq![FieldOf::Bytes(bytes)],
        ClientMessageOf::Resize(size) => seq![FieldOf::Dimensions(size)],
        ClientMessageOf::Detach => seq![],
    }
}

pub open spec fn client_schema(tag: u8) -> Option<Seq<Kind>> {
    if tag == 1 {
        Some(seq![Kind::Bytes])
    } else if tag == 2 {
        Some(seq![Kind::Dimensions])
    } else if tag == 3 {
        Some(seq![])
    } else {
        None
    }
}

pub open spec fn server_tag<S, B>(message: ServerMessageOf<S, B>) -> u8 {
    match message {
        ServerMessageOf::Response { .. } => 1,
        ServerMessageOf::Render(_) => 2,
        ServerMessageOf::Closed => 3,
    }
}

pub open spec fn server_fields(message: ServerMessageView) -> Seq<FieldView> {
    match message {
        ServerMessageOf::Response { ok, body } => seq![FieldOf::Flag(ok), FieldOf::Text(body)],
        ServerMessageOf::Render(bytes) => seq![FieldOf::Bytes(bytes)],
        ServerMessageOf::Closed => seq![],
    }
}

pub open spec fn server_schema(tag: u8) -> Option<Seq<Kind>> {
    if tag == 1 {
        Some(seq![Kind::Flag, Kind::Text])
    } else if tag == 2 {
        Some(seq![Kind::Bytes])
    } else if tag == 3 {
        Some(seq![])
    } else {
        None
    }
}

/// The tag and the fields of the request that a payload holds, or what is
/// wrong with it.
pub open spec fn request_in(payload: Seq<u8>) -> Result<(u8, Seq<FieldView>), WireError> {
    decode::message_in(
        payload,
        |tag: u8| request::request_schema(tag),
        WireError::UnknownRequestTag,
    )
}

/// The tag and the fields of the message of the daemon that a payload holds, or
/// what is wrong with it.
pub open spec fn server_message_in(payload: Seq<u8>) -> Result<(u8, Seq<FieldView>), WireError> {
    decode::message_in(
        payload,
        |tag: u8| server_schema(tag),
        WireError::UnknownServerMessageTag,
    )
}

/// The tag and the fields of the message of a client that a payload holds, or
/// what is wrong with it.
pub open spec fn client_message_in(payload: Seq<u8>) -> Result<(u8, Seq<FieldView>), WireError> {
    decode::message_in(
        payload,
        |tag: u8| client_schema(tag),
        WireError::UnknownClientMessageTag,
    )
}

/// The bytes of a request.
pub open spec fn request_bytes(request: request::RequestView) -> Seq<u8> {
    wire::message_bytes(request::request_tag(request), request::request_fields(request))
}

/// The bytes of a message of the daemon.
pub open spec fn server_message_bytes(message: ServerMessageView) -> Seq<u8> {
    wire::message_bytes(server_tag(message), server_fields(message))
}

/// The bytes of a message of a client.
pub open spec fn client_message_bytes(message: ClientMessageView) -> Seq<u8> {
    wire::message_bytes(client_tag(message), client_fields(message))
}

/// How writing a payload to a stream ends: it is appended in a frame, or
/// refused because no frame can hold it.
pub open spec fn frame_written(
    before: Seq<u8>,
    after: Seq<u8>,
    payload: Seq<u8>,
    result: Result<(), WireError>,
) -> bool {
    if payload.len() > MAX_FRAME {
        result == Err::<(), WireError>(WireError::FrameTooLarge) && after == before
    } else {
        result == Ok::<(), WireError>(()) && after == before + frame::frame_bytes(payload)
    }
}

pub fn write_request(stream: &mut Vec<u8>, request: &Request) -> (result: Result<(), WireError>)
    ensures
        frame_written(old(stream)@, final(stream)@, request_bytes(request@), result),
{
    let payload = encode_request(request);
    assert(request::request_tag(*request) == request::request_tag(request@));
    write_frame(stream, payload.as_slice())
}

/// The request that a payload holds.
pub fn decode_request(payload: &[u8]) -> (result: Result<Request, WireError>)
    ensures
        match request_in(payload@) {
            Ok((tag, fields)) => {
                &&& result matches Ok(request)
                &&& request::request_tag(request@) == tag
                &&& request::request_fields(request@) == fields
            },
            Err(error) => result == Err::<Request, WireError>(error),
        },
{
    let mut decoder = Decoder::new(payload);
    let tag: u8 = match decoder.byte() {
        Ok(tag) => tag,
        Err(error) => return Err(error),
    };
    match request_kinds(tag) {
        Some(kinds) => {
            let fields: Vec<Field> = match decoder.fields(&kinds) {
                Ok(fields) => fields,
                Err(error) => return Err(error),
            };
            match decoder.finish() {
                Ok(_) => {
                    proof {
                        let views = decode::field_views(fields@);
                        lemma_fields_have_kinds(payload@, 1, kinds@);
                        assert(views.len() == fields@.len());
                        assert forall|i: int| 0 <= i < fields@.len() implies wire::kind_of(
                            #[trigger] fields@[i],
                        ) == kinds@[i] by {
                            assert(views[i] == fields@[i]@);
                            assert(wire::kind_of(views[i]) == kinds@[i]);
                        }
                    }
                    let request = build_request(tag, fields);
                    assert(request::request_tag(request) == request::request_tag(request@));
                    Ok(request)
                },
                Err(error) => Err(error),
            }
        },
        None => Err(WireError::UnknownRequestTag),
    }
}

/// Reads the next request from a stream.
pub fn read_request(stream: &mut Input) -> (result: Result<Request, WireError>)
    requires
        old(stream).well_formed(),
    ensures
        final(stream).well_formed(),
        final(stream).bytes@ == old(stream).bytes@,
        match frame::frame_at(old(stream).bytes@, old(stream).position as int) {
            Ok((payload, next)) => {
                &&& final(stream).position == next
                &&& match request_in(payload) {
                    Ok((tag, fields)) => {
                        &&& result matches Ok(request)
                        &&& request::request_tag(request@) == tag
                        &&& request::request_fields(request@) == fields
                    },
                    Err(error) => result == Err::<Request, WireError>(error),
                }
            },
            Err(error) => {
                &&& result == Err::<Request, WireError>(error)
                &&& final(stream).position == frame::position_after_error(*old(stream), error)
            },
        },
{
    match read_frame(stream) {
        Ok(payload) => decode_request(payload.as_slice()),
        Err(error) => Err(error),
    }
}

pub fn write_server_message(stream: &mut Vec<u8>, message: &ServerMessage) -> (result: Result<
    (),
    WireError,
>)
    ensures
        frame_written(old(stream)@, final(stream)@, server_message_bytes(message@), result),
{
    proof {
        reveal_with_fuel(wire::message_bytes, 3);
    }
    let mut payload: Vec<u8> = Vec::new();
    match message {
        ServerMessageOf::Response { ok, body } => {
            payload.push(1);
            put_bool(&mut payload, *ok);
            put_string(&mut payload, body.as_str());
        },
        ServerMessageOf::Render(bytes) => {
            payload.push(2);
            put_bytes(&mut payload, bytes.as_slice());
        },
        ServerMessageOf::Closed => payload.push(3),
    }
    assert(payload@ == server_message_bytes(message@));
    write_frame(stream, payload.as_slice())
}

/// The message of the daemon that a payload holds.
pub fn decode_server_message(payload: &[u8]) -> (result: Result<ServerMessage, WireError>)
    ensures
        match server_message_in(payload@) {
            Ok((tag, fields)) => {
                &&& result matches Ok(message)
                &&& server_tag(message@) == tag
                &&& server_fields(message@) == fields
            },
            Err(error) => result == Err::<ServerMessage, WireError>(error),
        },
{
    proof {
        reveal_with_fuel(decode::fields_at, 3);
    }
    let mut decoder = Decoder::new(payload);
    let message = match decoder.byte() {
        Ok(1) => {
            let ok: bool = match decoder.bool() {
                Ok(ok) => ok,
                Err(error) => return Err(error),
            };
            match decoder.string() {
                Ok(body) => ServerMessageOf::Response { ok, body },
                Err(error) => return Err(error),
            }
        },
        Ok(2) => match decoder.bytes() {
            Ok(bytes) => ServerMessageOf::Render(bytes),
            Err(error) => return Err(error),
        },
        Ok(3) => ServerMessageOf::Closed,
        Ok(_) => return Err(WireError::UnknownServerMessageTag),
        Err(error) => return Err(error),
    };
    match decoder.finish() {
        Ok(_) => Ok(message),
        Err(error) => Err(error),
    }
}

/// Reads the next message of the daemon from a stream.
pub fn read_server_message(stream: &mut Input) -> (result: Result<ServerMessage, WireError>)
    requires
        old(stream).well_formed(),
    ensures
        final(stream).well_formed(),
        final(stream).bytes@ == old(stream).bytes@,
        match frame::frame_at(old(stream).bytes@, old(stream).position as int) {
            Ok((payload, next)) => {
                &&& final(stream).position == next
                &&& match server_message_in(payload) {
                    Ok((tag, fields)) => {
                        &&& result matches Ok(message)
                        &&& server_tag(message@) == tag
                        &&& server_fields(message@) == fields
                    },
                    Err(error) => result == Err::<ServerMessage, WireError>(error),
                }
            },
            Err(error) => {
                &&& result == Err::<ServerMessage, WireError>(error)
                &&& final(stream).position == frame::position_after_error(*old(stream), error)
            },
        },
{
    match read_frame(stream) {
        Ok(payload) => decode_server_message(payload.as_slice()),
        Err(error) => Err(error),
    }
}

pub fn write_client_message(stream: &mut Vec<u8>, message: &ClientMessage) -> (result: Result<
    (),
    WireError,
>)
    ensures
        frame_written(old(stream)@, final(stream)@, client_message_bytes(message@), result),
{
    proof {
        reveal_with_fuel(wire::message_bytes, 2);
    }
    let mut payload: Vec<u8> = Vec::new();
    match message {
        ClientMessageOf::Input(bytes) => {
            payload.push(1);
            put_bytes(&mut payload, bytes.as_slice());
        },
        ClientMessageOf::Resize(size) => {
            payload.push(2);
            put_size(&mut payload, *size);
        },
        ClientMessageOf::Detach => payload.push(3),
    }
    assert(payload@ == client_message_bytes(message@));
    write_frame(stream, payload.as_slice())
}

/// The message of a client that a payload holds.
pub fn decode_client_message(payload: &[u8]) -> (result: Result<ClientMessage, WireError>)
    ensures
        match client_message_in(payload@) {
            Ok((tag, fields)) => {
                &&& result matches Ok(message)
                &&& client_tag(message@) == tag
                &&& client_fields(message@) == fields
            },
            Err(error) => result == Err::<ClientMessage, WireError>(error),
        },
{
    proof {
        reveal_with_fuel(decode::fields_at, 2);
    }
    let mut decoder = Decoder::new(payload);
    let message = match decoder.byte() {
        Ok(1) => match decoder.bytes() {
            Ok(bytes) => ClientMessageOf::Input(bytes),
            Err(error) => return Err(error),
        },
        Ok(2) => match decoder.size() {
            Ok(size) => ClientMessageOf::Resize(size),
            Err(error) => return Err(error),
        },
        Ok(3) => ClientMessageOf::Detach,
        Ok(_) => return Err(WireError::UnknownClientMessageTag),
        Err(error) => return Err(error),
    };
    match decoder.finish() {
        Ok(_) => Ok(message),
        Err(error) => Err(error),
    }
}

/// Reads the next message of a client from a stream.
pub fn read_client_message(stream: &mut Input) -> (result: Result<ClientMessage, WireError>)
    requires
        old(stream).well_formed(),
    ensures
        final(stream).well_formed(),
        final(stream).bytes@ == old(stream).bytes@,
        match frame::frame_at(old(stream).bytes@, old(stream).position as int) {
            Ok((payload, next)) => {
                &&& final(stream).position == next
                &&& match client_message_in(payload) {
                    Ok((tag, fields)) => {
                        &&& result matches Ok(message)
                        &&& client_tag(message@) == tag
                        &&& client_fields(message@) == fields
                    },
                    Err(error) => result == Err::<ClientMessage, WireError>(error),
                }
            },
            Err(error) => {
                &&& result == Err::<ClientMessage, WireError>(error)
                &&& final(stream).position == frame::position_after_error(*old(stream), error)
            },
        },
{
    match read_frame(stream) {
        Ok(payload) => decode_client_message(payload.as_slice()),
        Err(error) => Err(error),
    }
}

/// Fields that are read have the kinds that were asked for.
proof fn lemma_fields_have_kinds(bytes: Seq<u8>, at: int, kinds: Seq<Kind>)
    ensures
        decode::fields_at(bytes, at, kinds) matches Ok((fields, _)) ==> {
            &&& fields.len() == kinds.len()
            &&& forall|i: int| 0 <= i < kinds.len() ==> wire::kind_of(#[trigger] fields[i]) == kinds[i]
        },
    decreases kinds.len(),
{
    if kinds.len() > 0 {
        lemma_fields_have_kinds(bytes, at, kinds.drop_last());
    }
}

} // verus!
