//! The bytes that stand for numbers, fields and requests.

use vstd::prelude::*;
use vstd::utf8::{encode_utf8, valid_utf8};

use crate::geometry::Size;
use crate::protocol::decode;
use crate::protocol::frame::{self, Input, MAX_FRAME};
use crate::protocol::message::{self, ClientMessageOf, ServerMessageOf};
use crate::protocol::request::{self, RequestOf, RequestView};
use crate::protocol::wire::{self, FieldOf, FieldView, Kind, OptionScope, PaneDirection, WireError};

verus! {

/// Numbers are written with the least significant byte first.
#[verifier::spinoff_prover]
pub proof fn law_numbers_start_with_the_lowest_byte(value: int)
    ensures
        0 <= value < 65536 ==> ({
            let bytes = wire::le16(value);
            bytes.len() == 2 && bytes[0] + 256 * bytes[1] == value
        }),
        0 <= value < 4294967296 ==> ({
            let bytes = wire::le32(value);
            bytes.len() == 4 && bytes[0] + 256 * bytes[1] + 65536 * bytes[2] + 16777216 * bytes[3]
                == value
        }),
{
}

/// A negative number is written as it stands in two's complement.
pub proof fn law_negative_numbers_are_complements(value: i32)
    ensures
        wire::unsigned(value) == value || wire::unsigned(value) == value + 4294967296,
        0 <= wire::unsigned(value) < 4294967296,
{
}

/// A flag is one byte, a text stands behind the length of its encoding, and what
/// may be missing stands behind a byte that says whether it is there.
pub proof fn law_fields_have_fixed_forms(
    flag: bool,
    text: Seq<char>,
    bytes: Seq<u8>,
    size: Size,
    number: u32,
    amount: i32,
)
    ensures
        wire::field_bytes(FieldOf::Flag(flag)) == seq![if flag { 1u8 } else { 0u8 }],
        wire::field_bytes(FieldOf::Text(text)) == wire::le32(encode_utf8(text).len() as int)
            + encode_utf8(text),
        wire::field_bytes(FieldOf::OptionalText(None)) == seq![0u8],
        wire::field_bytes(FieldOf::OptionalText(Some(text))) == seq![1u8] + wire::field_bytes(
            FieldOf::Text(text),
        ),
        wire::field_bytes(FieldOf::Bytes(bytes)) == wire::le32(bytes.len() as int) + bytes,
        wire::field_bytes(FieldOf::OptionalBytes(None)) == seq![0u8],
        wire::field_bytes(FieldOf::OptionalBytes(Some(bytes))) == seq![1u8] + wire::field_bytes(
            FieldOf::Bytes(bytes),
        ),
        wire::field_bytes(FieldOf::Dimensions(size)) == wire::le16(size.cols as int) + wire::le16(
            size.rows as int,
        ),
        wire::field_bytes(FieldOf::Count(number)) == wire::le32(number as int),
        wire::field_bytes(FieldOf::OptionalIndex(Some(number))) == seq![1u8] + wire::le32(
            number as int,
        ),
        wire::field_bytes(FieldOf::OptionalFlag(Some(flag))) == seq![1u8] + wire::field_bytes(
            FieldOf::Flag(flag),
        ),
        wire::field_bytes(FieldOf::Amount(amount)) == wire::le32(wire::unsigned(amount)),
        wire::field_bytes(FieldOf::OptionalLine(Some(amount))) == seq![1u8] + wire::field_bytes(
            FieldOf::Amount(amount),
        ),
{
    reveal(wire::field_bytes);
}

/// A list of texts stands behind their number, each as a text does.
pub proof fn law_lists_stand_behind_their_number(list: Seq<Seq<char>>, last: Seq<char>)
    ensures
        wire::field_bytes(FieldOf::Texts(list)) == wire::le32(list.len() as int)
            + wire::sized_texts(list),
        wire::sized_texts(list.push(last)) == wire::sized_texts(list) + wire::field_bytes(
            FieldOf::Text(last),
        ),
        wire::sized_texts(seq![]) == Seq::<u8>::empty(),
{
    reveal(wire::field_bytes);
    assert(list.push(last).drop_last() =~= list);
}

/// The bytes of directions and scopes.
pub proof fn law_codes_are_fixed()
    ensures
        wire::direction_byte(PaneDirection::Left) == 1,
        wire::direction_byte(PaneDirection::Right) == 2,
        wire::direction_byte(PaneDirection::Up) == 3,
        wire::direction_byte(PaneDirection::Down) == 4,
        wire::direction_byte(PaneDirection::Next) == 5,
        wire::direction_byte(PaneDirection::Previous) == 6,
        wire::direction_byte(PaneDirection::Last) == 7,
        wire::scope_byte(OptionScope::Global) == 1,
        wire::scope_byte(OptionScope::Session) == 2,
        wire::scope_byte(OptionScope::Window) == 3,
        wire::scope_byte(OptionScope::Pane) == 4,
{
}

/// Only known codes are read: a flag is a zero or a one, and other bytes are
/// refused.
pub proof fn law_other_codes_are_refused(bytes: Seq<u8>, at: int)
    requires
        0 <= at < bytes.len(),
    ensures
        bytes[at] > 1 ==> decode::flag_at(bytes, at) == Err::<(bool, int), WireError>(
            WireError::InvalidBoolean,
        ),
        bytes[at] == 0 || bytes[at] > 7 ==> decode::direction_at(bytes, at) == Err::<
            (PaneDirection, int),
            WireError,
        >(WireError::UnknownDirection),
        bytes[at] == 0 || bytes[at] > 4 ==> decode::scope_at(bytes, at) == Err::<
            (OptionScope, int),
            WireError,
        >(WireError::UnknownScope),
{
}

/// A message is its tag, and its fields one after the other.
pub proof fn law_messages_are_tag_and_fields(tag: u8, fields: Seq<FieldView>, last: FieldView)
    ensures
        wire::message_bytes(tag, seq![]) == seq![tag],
        wire::message_bytes(tag, fields.push(last)) == wire::message_bytes(tag, fields)
            + wire::field_bytes(last),
{
    assert(fields.push(last).drop_last() =~= fields);
}

/// A frame is the length of its payload in four bytes, and the payload. One of no
/// bytes, or of more than sixteen mebibytes, is refused; one that is cut short ends
/// too early.
pub proof fn law_frames_have_a_length(payload: Seq<u8>, count: int)
    requires
        payload.len() <= u32::MAX,
        0 <= count < payload.len() + 4,
    ensures
        frame::frame_bytes(payload) == wire::le32(payload.len() as int) + payload,
        payload.len() == 0 || payload.len() > 16777216 ==> frame::frame_at(
            frame::frame_bytes(payload),
            0,
        ) == Err::<(Seq<u8>, int), WireError>(WireError::InvalidFrameLength),
        0 < payload.len() <= 16777216 ==> frame::frame_at(
            frame::frame_bytes(payload).take(count),
            0,
        ) == Err::<(Seq<u8>, int), WireError>(WireError::UnexpectedEnd),
        MAX_FRAME == 16777216,
{
    let bytes = frame::frame_bytes(payload);
    let header = wire::le32(payload.len() as int);
    law_numbers_start_with_the_lowest_byte(payload.len() as int);
    assert(bytes[0] == header[0] && bytes[1] == header[1] && bytes[2] == header[2] && bytes[3]
        == header[3]);
    assert(decode::number32(bytes, 0) == payload.len());
    if count >= 4 {
        let part = bytes.take(count);
        assert(part[0] == bytes[0] && part[1] == bytes[1] && part[2] == bytes[2] && part[3]
            == bytes[3]);
        assert(decode::number32(part, 0) == payload.len());
    }
}

/// The tags of the messages between a client and the daemon.
pub proof fn law_message_tags_are_fixed(ok: bool, body: Seq<char>, bytes: Seq<u8>, size: Size)
    ensures
        message::server_message_bytes(ServerMessageOf::Response { ok, body })
            == wire::message_bytes(1, seq![FieldOf::Flag(ok), FieldOf::Text(body)]),
        message::server_message_bytes(ServerMessageOf::Render(bytes)) == wire::message_bytes(
            2,
            seq![FieldOf::Bytes(bytes)],
        ),
        message::server_message_bytes(ServerMessageOf::Closed) == seq![3u8],
        message::client_message_bytes(ClientMessageOf::Input(bytes)) == wire::message_bytes(
            1,
            seq![FieldOf::Bytes(bytes)],
        ),
        message::client_message_bytes(ClientMessageOf::Resize(size)) == wire::message_bytes(
            2,
            seq![FieldOf::Dimensions(size)],
        ),
        message::client_message_bytes(ClientMessageOf::Detach) == seq![3u8],
{
}

/// The tag that each request travels with.
pub proof fn law_request_tags_are_fixed(request: RequestView)
    ensures
        request is NewSession <==> request::request_tag(request) == 1,
        request is Attach <==> request::request_tag(request) == 2,
        request is ListSessions <==> request::request_tag(request) == 3,
        request is HasSession <==> request::request_tag(request) == 4,
        request is KillSession <==> request::request_tag(request) == 5,
        request is NewWindow <==> request::request_tag(request) == 6,
        request is SplitWindow <==> request::request_tag(request) == 7,
        request is ListWindows <==> request::request_tag(request) == 8,
        request is ListPanes <==> request::request_tag(request) == 9,
        request is SelectWindow <==> request::request_tag(request) == 10,
        request is NextWindow <==> request::request_tag(request) == 11,
        request is PreviousWindow <==> request::request_tag(request) == 12,
        request is RenameSession <==> request::request_tag(request) == 13,
        request is RenameWindow <==> request::request_tag(request) == 14,
        request is KillWindow <==> request::request_tag(request) == 15,
        request is SelectPane <==> request::request_tag(request) == 16,
        request is KillPane <==> request::request_tag(request) == 17,
        request is SendKeys <==> request::request_tag(request) == 18,
        request is CapturePane <==> request::request_tag(request) == 19,
        request is KillServer <==> request::request_tag(request) == 20,
        request is CopyMode <==> request::request_tag(request) == 21,
        request is CopyModeCommand <==> request::request_tag(request) == 22,
        request is DisplayMessage <==> request::request_tag(request) == 23,
        request is SetBuffer <==> request::request_tag(request) == 24,
        request is ShowBuffer <==> request::request_tag(request) == 25,
        request is SetWindowOption <==> request::request_tag(request) == 26,
        request is ListBuffers <==> request::request_tag(request) == 27,
        request is DeleteBuffer <==> request::request_tag(request) == 28,
        request is PasteBuffer <==> request::request_tag(request) == 29,
        request is LoadBuffer <==> request::request_tag(request) == 30,
        request is SaveBuffer <==> request::request_tag(request) == 31,
        request is SetOption <==> request::request_tag(request) == 32,
        request is ResizePane <==> request::request_tag(request) == 33,
        request is SwapPane <==> request::request_tag(request) == 34,
        request is BreakPane <==> request::request_tag(request) == 35,
        request is JoinPane <==> request::request_tag(request) == 36,
        request is RespawnPane <==> request::request_tag(request) == 37,
        request is ClearHistory <==> request::request_tag(request) == 38,
        request is RotateWindow <==> request::request_tag(request) == 39,
        request is SwapWindow <==> request::request_tag(request) == 40,
        request is MoveWindow <==> request::request_tag(request) == 41,
        request is LinkWindow <==> request::request_tag(request) == 42,
        request is UnlinkWindow <==> request::request_tag(request) == 43,
        request is ShowOptions <==> request::request_tag(request) == 44,
        request is SetEnvironment <==> request::request_tag(request) == 45,
        request is ShowEnvironment <==> request::request_tag(request) == 46,
        request is PipePane <==> request::request_tag(request) == 47,
        request is ListClients <==> request::request_tag(request) == 48,
        request is DetachClient <==> request::request_tag(request) == 49,
        request is SwitchClient <==> request::request_tag(request) == 50,
        request is RefreshClient <==> request::request_tag(request) == 51,
        request is RunShell <==> request::request_tag(request) == 52,
        request is ChooseTree <==> request::request_tag(request) == 53,
        request is ChooseBuffer <==> request::request_tag(request) == 54,
        request is ChooseClient <==> request::request_tag(request) == 55,
        request is DisplayPanes <==> request::request_tag(request) == 56,
{
}

/// Whether a request travels with the given fields.
pub open spec fn sends(request: RequestView, fields: Seq<FieldView>) -> bool {
    request::request_fields(request) == fields
}

/// The fields of each request travel in the order in which the request names them.
#[verifier::spinoff_prover]
#[verifier::rlimit(60)]
pub proof fn law_request_fields_are_in_order(request: RequestView)
    ensures
        match request {
            RequestOf::NewSession {
            name,
            detached,
            attach_existing,
            group_target,
            format,
            window_name,
            empty,
            command,
            cwd,
            size,
        } => sends(request, seq![
            FieldOf::OptionalText(name),
            FieldOf::Flag(detached),
            FieldOf::Flag(attach_existing),
            FieldOf::OptionalText(group_target),
            FieldOf::OptionalText(format),
            FieldOf::OptionalText(window_name),
            FieldOf::Flag(empty),
            FieldOf::Texts(command),
            FieldOf::OptionalText(cwd),
            FieldOf::Dimensions(size),
        ]),
            RequestOf::Attach { target, size } => sends(request, seq![
            FieldOf::OptionalText(target),
            FieldOf::Dimensions(size),
        ]),
            RequestOf::ListSessions { format } => sends(request, seq![
            FieldOf::OptionalText(format),
        ]),
            RequestOf::HasSession { target } => sends(request, seq![
            FieldOf::Text(target),
        ]),
            RequestOf::KillSession { target, all } => sends(request, seq![
            FieldOf::OptionalText(target),
            FieldOf::Flag(all),
        ]),
            RequestOf::NewWindow {
            target,
            name,
            detached,
            empty,
            index,
            force,
            format,
            after,
            before,
            select_existing,
            command,
            cwd,
        } => sends(request, seq![
            FieldOf::OptionalText(target),
            FieldOf::OptionalText(name),
            FieldOf::Flag(detached),
            FieldOf::Flag(empty),
            FieldOf::OptionalIndex(index),
            FieldOf::Flag(force),
            FieldOf::OptionalText(format),
            FieldOf::Flag(after),
            FieldOf::Flag(before),
            FieldOf::Flag(select_existing),
            FieldOf::Texts(command),
            FieldOf::OptionalText(cwd),
        ]),
            RequestOf::SplitWindow {
            target,
            horizontal,
            before,
            full,
            detached,
            empty,
            zoom,
            size,
            command,
            cwd,
        } => sends(request, seq![
            FieldOf::OptionalText(target),
            FieldOf::Flag(horizontal),
            FieldOf::Flag(before),
            FieldOf::Flag(full),
            FieldOf::Flag(detached),
            FieldOf::Flag(empty),
            FieldOf::Flag(zoom),
            FieldOf::OptionalText(size),
            FieldOf::Texts(command),
            FieldOf::OptionalText(cwd),
        ]),
            RequestOf::ListWindows { target, format } => sends(request, seq![
            FieldOf::OptionalText(target),
            FieldOf::OptionalText(format),
        ]),
            RequestOf::ListPanes { target, format } => sends(request, seq![
            FieldOf::OptionalText(target),
            FieldOf::OptionalText(format),
        ]),
            RequestOf::SelectWindow { target } => sends(request, seq![
            FieldOf::Text(target),
        ]),
            RequestOf::NextWindow { target } => sends(request, seq![
            FieldOf::OptionalText(target),
        ]),
            RequestOf::PreviousWindow { target } => sends(request, seq![
            FieldOf::OptionalText(target),
        ]),
            RequestOf::RenameSession { target, name } => sends(request, seq![
            FieldOf::OptionalText(target),
            FieldOf::Text(name),
        ]),
            RequestOf::RenameWindow { target, name } => sends(request, seq![
            FieldOf::OptionalText(target),
            FieldOf::Text(name),
        ]),
            RequestOf::KillWindow { target, all } => sends(request, seq![
            FieldOf::OptionalText(target),
            FieldOf::Flag(all),
        ]),
            RequestOf::SelectPane {
                target,
                direction,
                mark,
                title,
                enabled,
            } => sends(request, seq![
            FieldOf::OptionalText(target),
            FieldOf::Direction(direction),
            FieldOf::OptionalFlag(mark),
            FieldOf::OptionalText(title),
            FieldOf::OptionalFlag(enabled),
        ]),
            RequestOf::KillPane { target, all, filter } => sends(request, seq![
            FieldOf::OptionalText(target),
            FieldOf::Flag(all),
            FieldOf::OptionalText(filter),
        ]),
            RequestOf::SendKeys { target, bytes, reset } => sends(request, seq![
            FieldOf::OptionalText(target),
            FieldOf::Bytes(bytes),
            FieldOf::Flag(reset),
        ]),
            RequestOf::CapturePane {
                target,
                start,
                end,
                escape,
                join,
                preserve_trailing,
            } => sends(request, seq![
            FieldOf::OptionalText(target),
            FieldOf::OptionalLine(start),
            FieldOf::OptionalLine(end),
            FieldOf::Flag(escape),
            FieldOf::Flag(join),
            FieldOf::Flag(preserve_trailing),
        ]),
            RequestOf::KillServer => sends(request, Seq::<FieldView>::empty()),
            RequestOf::CopyMode {
            target,
            source,
            exit_on_scroll,
            hide_position,
            kill_on_exit,
            page,
            page_down,
            reset,
            mouse_start,
            scroll_to_mouse,
        } => sends(request, seq![
            FieldOf::OptionalText(target),
            FieldOf::OptionalText(source),
            FieldOf::Flag(exit_on_scroll),
            FieldOf::Flag(hide_position),
            FieldOf::Flag(kill_on_exit),
            FieldOf::Flag(page),
            FieldOf::Flag(page_down),
            FieldOf::Flag(reset),
            FieldOf::Flag(mouse_start),
            FieldOf::Flag(scroll_to_mouse),
        ]),
            RequestOf::CopyModeCommand { target, action, repeat } => sends(request, seq![
            FieldOf::OptionalText(target),
            FieldOf::Text(action),
            FieldOf::Count(repeat),
        ]),
            RequestOf::DisplayMessage { target, format } => sends(request, seq![
            FieldOf::OptionalText(target),
            FieldOf::Text(format),
        ]),
            RequestOf::SetBuffer { name, append, data, rename } => sends(request, seq![
            FieldOf::OptionalText(name),
            FieldOf::Flag(append),
            FieldOf::Bytes(data),
            FieldOf::OptionalText(rename),
        ]),
            RequestOf::ShowBuffer { name } => sends(request, seq![
            FieldOf::OptionalText(name),
        ]),
            RequestOf::SetWindowOption { target, key, value } => sends(request, seq![
            FieldOf::OptionalText(target),
            FieldOf::Text(key),
            FieldOf::Text(value),
        ]),
            RequestOf::ListBuffers { format, filter } => sends(request, seq![
            FieldOf::OptionalText(format),
            FieldOf::OptionalText(filter),
        ]),
            RequestOf::DeleteBuffer { name } => sends(request, seq![
            FieldOf::OptionalText(name),
        ]),
            RequestOf::PasteBuffer {
                target,
                name,
                raw,
                bracketed,
                separator,
                delete,
            } => sends(request, seq![
            FieldOf::OptionalText(target),
            FieldOf::OptionalText(name),
            FieldOf::Flag(raw),
            FieldOf::Flag(bracketed),
            FieldOf::OptionalBytes(separator),
            FieldOf::Flag(delete),
        ]),
            RequestOf::LoadBuffer { name, data } => sends(request, seq![
            FieldOf::OptionalText(name),
            FieldOf::Bytes(data),
        ]),
            RequestOf::SaveBuffer { name, path, append } => sends(request, seq![
            FieldOf::OptionalText(name),
            FieldOf::OptionalText(path),
            FieldOf::Flag(append),
        ]),
            RequestOf::SetOption { target, scope, key, value, unset } => sends(request, seq![
            FieldOf::OptionalText(target),
            FieldOf::OptionalScope(scope),
            FieldOf::Text(key),
            FieldOf::Text(value),
            FieldOf::Flag(unset),
        ]),
            RequestOf::ResizePane {
            target,
            direction,
            amount,
            absolute,
            absolute_percent,
            zoom,
        } => sends(request, seq![
            FieldOf::OptionalText(target),
            FieldOf::Direction(direction),
            FieldOf::Amount(amount),
            FieldOf::OptionalCells(absolute),
            FieldOf::Flag(absolute_percent),
            FieldOf::Flag(zoom),
        ]),
            RequestOf::SwapPane { source, target, direction, detached } => sends(request, seq![
            FieldOf::OptionalText(source),
            FieldOf::OptionalText(target),
            FieldOf::OptionalDirection(direction),
            FieldOf::Flag(detached),
        ]),
            RequestOf::BreakPane { source, target, name, detached, format } => sends(request, seq![
            FieldOf::OptionalText(source),
            FieldOf::OptionalText(target),
            FieldOf::OptionalText(name),
            FieldOf::Flag(detached),
            FieldOf::OptionalText(format),
        ]),
            RequestOf::JoinPane {
                source,
                target,
                horizontal,
                before,
                detached,
                size,
            } => sends(request, seq![
            FieldOf::OptionalText(source),
            FieldOf::OptionalText(target),
            FieldOf::Flag(horizontal),
            FieldOf::Flag(before),
            FieldOf::Flag(detached),
            FieldOf::OptionalText(size),
        ]),
            RequestOf::RespawnPane {
                target,
                command,
                cwd,
                kill,
                empty,
                window,
            } => sends(request, seq![
            FieldOf::OptionalText(target),
            FieldOf::Texts(command),
            FieldOf::OptionalText(cwd),
            FieldOf::Flag(kill),
            FieldOf::Flag(empty),
            FieldOf::Flag(window),
        ]),
            RequestOf::ClearHistory { target } => sends(request, seq![
            FieldOf::OptionalText(target),
        ]),
            RequestOf::RotateWindow { target, up } => sends(request, seq![
            FieldOf::OptionalText(target),
            FieldOf::Flag(up),
        ]),
            RequestOf::SwapWindow { source, target, detached } => sends(request, seq![
            FieldOf::OptionalText(source),
            FieldOf::OptionalText(target),
            FieldOf::Flag(detached),
        ]),
            RequestOf::MoveWindow {
                source,
                target,
                after,
                detached,
                force,
                renumber,
            } => sends(request, seq![
            FieldOf::OptionalText(source),
            FieldOf::OptionalText(target),
            FieldOf::Flag(after),
            FieldOf::Flag(detached),
            FieldOf::Flag(force),
            FieldOf::Flag(renumber),
        ]),
            RequestOf::LinkWindow { source, target, detached, force } => sends(request, seq![
            FieldOf::OptionalText(source),
            FieldOf::OptionalText(target),
            FieldOf::Flag(detached),
            FieldOf::Flag(force),
        ]),
            RequestOf::UnlinkWindow { target, force } => sends(request, seq![
            FieldOf::OptionalText(target),
            FieldOf::Flag(force),
        ]),
            RequestOf::ShowOptions {
                target,
                global,
                window,
                pane,
                value,
                all,
                quiet,
                key,
            } => sends(request, seq![
            FieldOf::OptionalText(target),
            FieldOf::Flag(global),
            FieldOf::Flag(window),
            FieldOf::Flag(pane),
            FieldOf::Flag(value),
            FieldOf::Flag(all),
            FieldOf::Flag(quiet),
            FieldOf::OptionalText(key),
        ]),
            RequestOf::SetEnvironment { name, value, remove } => sends(request, seq![
            FieldOf::Text(name),
            FieldOf::OptionalText(value),
            FieldOf::Flag(remove),
        ]),
            RequestOf::ShowEnvironment { format, name } => sends(request, seq![
            FieldOf::OptionalText(format),
            FieldOf::OptionalText(name),
        ]),
            RequestOf::PipePane { target, command, toggle } => sends(request, seq![
            FieldOf::OptionalText(target),
            FieldOf::OptionalText(command),
            FieldOf::Flag(toggle),
        ]),
            RequestOf::ListClients { format } => sends(request, seq![
            FieldOf::OptionalText(format),
        ]),
            RequestOf::DetachClient { target, all } => sends(request, seq![
            FieldOf::OptionalText(target),
            FieldOf::Flag(all),
        ]),
            RequestOf::SwitchClient { client, session } => sends(request, seq![
            FieldOf::OptionalText(client),
            FieldOf::Text(session),
        ]),
            RequestOf::RefreshClient { target } => sends(request, seq![
            FieldOf::OptionalText(target),
        ]),
            RequestOf::RunShell { command, background, target } => sends(request, seq![
            FieldOf::Text(command),
            FieldOf::Flag(background),
            FieldOf::OptionalText(target),
        ]),
            RequestOf::ChooseTree {
            target,
            filter,
            format,
            sort,
            reverse,
            hide_source,
            kill_on_exit,
        } => sends(request, seq![
            FieldOf::OptionalText(target),
            FieldOf::OptionalText(filter),
            FieldOf::OptionalText(format),
            FieldOf::Text(sort),
            FieldOf::Flag(reverse),
            FieldOf::Flag(hide_source),
            FieldOf::Flag(kill_on_exit),
        ]),
            RequestOf::ChooseBuffer {
                target,
                filter,
                format,
                sort,
                reverse,
                kill_on_exit,
            } => sends(request, seq![
            FieldOf::OptionalText(target),
            FieldOf::OptionalText(filter),
            FieldOf::OptionalText(format),
            FieldOf::Text(sort),
            FieldOf::Flag(reverse),
            FieldOf::Flag(kill_on_exit),
        ]),
            RequestOf::ChooseClient { target, filter, format, kill_on_exit } => sends(request, seq![
            FieldOf::OptionalText(target),
            FieldOf::OptionalText(filter),
            FieldOf::OptionalText(format),
            FieldOf::Flag(kill_on_exit),
        ]),
            RequestOf::DisplayPanes {
                target,
                source,
                no_zoom,
                no_mode,
                command,
                kill_on_exit,
            } => sends(request, seq![
            FieldOf::OptionalText(target),
            FieldOf::OptionalText(source),
            FieldOf::Flag(no_zoom),
            FieldOf::Flag(no_mode),
            FieldOf::Texts(command),
            FieldOf::Flag(kill_on_exit),
        ]),
        },
{
}

/// A tag that no request has is refused, and so is a presence byte that is neither
/// zero nor one.
pub proof fn law_unknown_tags_are_refused(payload: Seq<u8>)
    requires
        payload.len() > 0,
    ensures
        payload[0] == 0 || payload[0] > 56 ==> message::request_in(payload) == Err::<
            (u8, Seq<FieldView>),
            WireError,
        >(WireError::UnknownRequestTag),
        payload[0] == 0 || payload[0] > 3 ==> message::server_message_in(payload) == Err::<
            (u8, Seq<FieldView>),
            WireError,
        >(WireError::UnknownServerMessageTag),
        payload[0] == 0 || payload[0] > 3 ==> message::client_message_in(payload) == Err::<
            (u8, Seq<FieldView>),
            WireError,
        >(WireError::UnknownClientMessageTag),
        payload[0] > 1 ==> decode::optional_text_at(payload, 0) == Err::<
            (Option<Seq<char>>, int),
            WireError,
        >(WireError::InvalidOptionalString),
{
}

/// What each error is reported as.
pub proof fn law_errors_have_their_texts()
    ensures
        WireError::UnexpectedEnd.text() == "failed to fill whole buffer"@,
        WireError::FrameTooLarge.text() == "frame is too large"@,
        WireError::InvalidFrameLength.text() == "invalid frame length"@,
        WireError::UnknownRequestTag.text() == "unknown request tag"@,
        WireError::UnknownServerMessageTag.text() == "unknown server message tag"@,
        WireError::UnknownClientMessageTag.text() == "unknown client message tag"@,
        WireError::UnknownDirection.text() == "unknown pane direction"@,
        WireError::UnknownScope.text() == "unknown option scope"@,
        WireError::TruncatedFrame.text() == "truncated frame"@,
        WireError::TruncatedInteger.text() == "truncated integer"@,
        WireError::TruncatedBytes.text() == "truncated bytes"@,
        WireError::LengthOverflow.text() == "length overflow"@,
        WireError::InvalidBoolean.text() == "invalid boolean"@,
        WireError::InvalidUtf8.text() == "invalid UTF-8 string"@,
        WireError::InvalidOptionalString.text() == "invalid optional string"@,
        WireError::TooManyArguments.text() == "too many command arguments"@,
        WireError::TrailingData.text() == "trailing frame data"@,
{
}

/// Bytes that end too early are refused, and the error says what is missing: a byte
/// or a signed number, another number, or bytes behind their length.
pub proof fn law_short_fields_are_refused(bytes: Seq<u8>, at: int)
    requires
        0 <= at <= bytes.len() <= usize::MAX - 4,
    ensures
        at == bytes.len() ==> decode::byte_at(bytes, at) == Err::<(u8, int), WireError>(
            WireError::TruncatedFrame,
        ),
        at == bytes.len() ==> decode::flag_at(bytes, at) == Err::<(bool, int), WireError>(
            WireError::TruncatedFrame,
        ),
        at + 2 > bytes.len() ==> decode::u16_at(bytes, at) == Err::<(u16, int), WireError>(
            WireError::TruncatedInteger,
        ),
        at + 4 > bytes.len() ==> decode::u32_at(bytes, at) == Err::<(u32, int), WireError>(
            WireError::TruncatedInteger,
        ),
        at + 4 > bytes.len() ==> decode::i32_at(bytes, at) == Err::<(i32, int), WireError>(
            WireError::TruncatedFrame,
        ),
        at + 4 <= bytes.len() && decode::number32(bytes, at) <= usize::MAX - at - 4 && at + 4
            + decode::number32(bytes, at) > bytes.len() ==> decode::bytes_at(bytes, at) == Err::<
            (Seq<u8>, int),
            WireError,
        >(WireError::TruncatedBytes),
{
}

/// A list of up to 1024 texts is read as its texts are; a longer one is refused
/// before any of them.
pub proof fn law_long_lists_are_refused(bytes: Seq<u8>, at: int)
    requires
        0 <= at,
        at + 4 <= bytes.len() <= usize::MAX,
    ensures
        ({
            let count = decode::number32(bytes, at);
            &&& count > 1024 ==> decode::texts_at(bytes, at) == Err::<
                (Seq<Seq<char>>, int),
                WireError,
            >(WireError::TooManyArguments)
            &&& count <= 1024 ==> decode::texts_at(bytes, at) == decode::repeated_text_at(
                bytes,
                at + 4,
                count as nat,
            )
        }),
{
}

/// Bytes behind a length are a text if they are UTF-8, and are refused as one if
/// they are not.
pub proof fn law_texts_are_utf8(bytes: Seq<u8>, at: int, value: Seq<u8>, next: int)
    requires
        decode::bytes_at(bytes, at) == Ok::<(Seq<u8>, int), WireError>((value, next)),
    ensures
        !valid_utf8(value) ==> decode::text_at(bytes, at) == Err::<(Seq<char>, int), WireError>(
            WireError::InvalidUtf8,
        ),
        valid_utf8(value) ==> (decode::text_at(bytes, at) matches Ok((text, end)) && encode_utf8(
            text,
        ) == value && end == next),
{
    if valid_utf8(value) {
        vstd::utf8::decode_utf8_encode_utf8(value);
    }
}

/// A decoder stops right behind a field that it has read, and where nothing is left
/// it stays.
#[verifier::spinoff_prover]
pub proof fn law_reading_stops_behind_a_field(bytes: Seq<u8>, at: int, kind: Kind)
    requires
        0 <= at <= bytes.len(),
    ensures
        decode::field_at(bytes, at, kind) matches Ok((_, next)) ==> decode::field_stop(
            bytes,
            at,
            kind,
        ) == next,
        at == bytes.len() ==> decode::field_stop(bytes, at, kind) == at,
{
    if kind == Kind::Texts {
        if let Ok((count, next)) = decode::u32_at(bytes, at) {
            if decode::repeated_text_at(bytes, next, count as nat) is Ok {
                lemma_texts_stop(bytes, next, count as nat);
            }
        }
    }
}

proof fn lemma_texts_stop(bytes: Seq<u8>, at: int, count: nat)
    requires
        decode::repeated_text_at(bytes, at, count) is Ok,
    ensures
        decode::repeated_text_stop(bytes, at, count) == decode::repeated_text_at(
            bytes,
            at,
            count,
        )->Ok_0.1,
    decreases count,
{
}

/// Where a stream stands when no frame could be read: behind the four bytes of a
/// length that is refused, else at the end.
pub proof fn law_stream_is_used_up(stream: Input, error: WireError)
    ensures
        frame::position_after_error(stream, WireError::InvalidFrameLength) == stream.position + 4,
        error != WireError::InvalidFrameLength ==> frame::position_after_error(stream, error)
            == stream.bytes@.len(),
{
}

/// What is left behind the last field is refused.
pub proof fn law_trailing_bytes_are_refused(
    payload: Seq<u8>,
    kinds: Seq<Kind>,
    fields: Seq<FieldView>,
    end: int,
    schema: spec_fn(u8) -> Option<Seq<Kind>>,
    unknown: WireError,
)
    requires
        payload.len() > 0,
        schema(payload[0]) == Some(kinds),
        decode::fields_at(payload, 1, kinds) == Ok::<(Seq<FieldView>, int), WireError>(
            (fields, end),
        ),
    ensures
        end == payload.len() ==> decode::message_in(payload, schema, unknown) == Ok::<
            (u8, Seq<FieldView>),
            WireError,
        >((payload[0], fields)),
        end != payload.len() ==> decode::message_in(payload, schema, unknown) == Err::<
            (u8, Seq<FieldView>),
            WireError,
        >(WireError::TrailingData),
{
}

/// Where a number is cut short, a decoder stays where it is; a signed one it reads
/// byte by byte, to the end. A code that is refused has been read.
pub proof fn law_refused_fields_leave_the_place(bytes: Seq<u8>, at: int)
    requires
        0 <= at < bytes.len() <= usize::MAX - 4,
    ensures
        at + 4 > bytes.len() ==> decode::field_stop(bytes, at, Kind::Count) == at,
        at + 4 > bytes.len() ==> decode::field_stop(bytes, at, Kind::Bytes) == at,
        at + 4 > bytes.len() ==> decode::field_stop(bytes, at, Kind::Text) == at,
        at + 4 > bytes.len() ==> decode::field_stop(bytes, at, Kind::Texts) == at,
        at + 4 > bytes.len() ==> decode::field_stop(bytes, at, Kind::Amount) == bytes.len(),
        at + 2 > bytes.len() ==> decode::field_stop(bytes, at, Kind::Dimensions) == at,
        at + 2 <= bytes.len() && at + 4 > bytes.len() ==> decode::field_stop(
            bytes,
            at,
            Kind::Dimensions,
        ) == at + 2,
        decode::field_stop(bytes, at, Kind::Flag) == at + 1,
        decode::field_stop(bytes, at, Kind::Direction) == at + 1,
        bytes[at] != 1 ==> decode::field_stop(bytes, at, Kind::OptionalText) == at + 1,
        bytes[at] != 1 ==> decode::field_stop(bytes, at, Kind::OptionalBytes) == at + 1,
        bytes[at] != 1 ==> decode::field_stop(bytes, at, Kind::OptionalIndex) == at + 1,
        at + 4 <= bytes.len() && decode::number32(bytes, at) > bytes.len() ==> decode::field_stop(
            bytes,
            at,
            Kind::Bytes,
        ) == at + 4,
        at + 4 <= bytes.len() && decode::number32(bytes, at) > 1024 ==> decode::field_stop(
            bytes,
            at,
            Kind::Texts,
        ) == at + 4,
{
}

} // verus!
