//! Requests made of the fields that a frame holds.

use vstd::prelude::*;

use crate::geometry::Size;
use crate::protocol::request::{self, Request, RequestOf};
use crate::protocol::wire::{self, Field, FieldOf, FieldView, Kind, OptionScope, PaneDirection};
use crate::text;

verus! {

fn take_amount(fields: &mut Vec<Field>) -> (value: i32)
    requires
        old(fields)@.len() > 0,
        wire::kind_of(old(fields)@.last()) == Kind::Amount,
    ensures
        final(fields)@ == old(fields)@.drop_last(),
        old(fields)@.last()@ == FieldView::Amount(value),
{
    match fields.pop() {
        Some(FieldOf::Amount(value)) => value,
        _ => vstd::pervasive::unreached(),
    }
}

fn take_bytes(fields: &mut Vec<Field>) -> (value: Vec<u8>)
    requires
        old(fields)@.len() > 0,
        wire::kind_of(old(fields)@.last()) == Kind::Bytes,
    ensures
        final(fields)@ == old(fields)@.drop_last(),
        old(fields)@.last()@ == FieldView::Bytes(value@),
{
    match fields.pop() {
        Some(FieldOf::Bytes(value)) => value,
        _ => vstd::pervasive::unreached(),
    }
}

fn take_count(fields: &mut Vec<Field>) -> (value: u32)
    requires
        old(fields)@.len() > 0,
        wire::kind_of(old(fields)@.last()) == Kind::Count,
    ensures
        final(fields)@ == old(fields)@.drop_last(),
        old(fields)@.last()@ == FieldView::Count(value),
{
    match fields.pop() {
        Some(FieldOf::Count(value)) => value,
        _ => vstd::pervasive::unreached(),
    }
}

fn take_dimensions(fields: &mut Vec<Field>) -> (value: Size)
    requires
        old(fields)@.len() > 0,
        wire::kind_of(old(fields)@.last()) == Kind::Dimensions,
    ensures
        final(fields)@ == old(fields)@.drop_last(),
        old(fields)@.last()@ == FieldView::Dimensions(value),
{
    match fields.pop() {
        Some(FieldOf::Dimensions(value)) => value,
        _ => vstd::pervasive::unreached(),
    }
}

fn take_direction(fields: &mut Vec<Field>) -> (value: PaneDirection)
    requires
        old(fields)@.len() > 0,
        wire::kind_of(old(fields)@.last()) == Kind::Direction,
    ensures
        final(fields)@ == old(fields)@.drop_last(),
        old(fields)@.last()@ == FieldView::Direction(value),
{
    match fields.pop() {
        Some(FieldOf::Direction(value)) => value,
        _ => vstd::pervasive::unreached(),
    }
}

fn take_flag(fields: &mut Vec<Field>) -> (value: bool)
    requires
        old(fields)@.len() > 0,
        wire::kind_of(old(fields)@.last()) == Kind::Flag,
    ensures
        final(fields)@ == old(fields)@.drop_last(),
        old(fields)@.last()@ == FieldView::Flag(value),
{
    match fields.pop() {
        Some(FieldOf::Flag(value)) => value,
        _ => vstd::pervasive::unreached(),
    }
}

fn take_optional_bytes(fields: &mut Vec<Field>) -> (value: Option<Vec<u8>>)
    requires
        old(fields)@.len() > 0,
        wire::kind_of(old(fields)@.last()) == Kind::OptionalBytes,
    ensures
        final(fields)@ == old(fields)@.drop_last(),
        old(fields)@.last()@ == FieldView::OptionalBytes(wire::bytes_view(value)),
{
    match fields.pop() {
        Some(FieldOf::OptionalBytes(value)) => value,
        _ => vstd::pervasive::unreached(),
    }
}

fn take_optional_cells(fields: &mut Vec<Field>) -> (value: Option<u16>)
    requires
        old(fields)@.len() > 0,
        wire::kind_of(old(fields)@.last()) == Kind::OptionalCells,
    ensures
        final(fields)@ == old(fields)@.drop_last(),
        old(fields)@.last()@ == FieldView::OptionalCells(value),
{
    match fields.pop() {
        Some(FieldOf::OptionalCells(value)) => value,
        _ => vstd::pervasive::unreached(),
    }
}

fn take_optional_direction(fields: &mut Vec<Field>) -> (value: Option<PaneDirection>)
    requires
        old(fields)@.len() > 0,
        wire::kind_of(old(fields)@.last()) == Kind::OptionalDirection,
    ensures
        final(fields)@ == old(fields)@.drop_last(),
        old(fields)@.last()@ == FieldView::OptionalDirection(value),
{
    match fields.pop() {
        Some(FieldOf::OptionalDirection(value)) => value,
        _ => vstd::pervasive::unreached(),
    }
}

fn take_optional_flag(fields: &mut Vec<Field>) -> (value: Option<bool>)
    requires
        old(fields)@.len() > 0,
        wire::kind_of(old(fields)@.last()) == Kind::OptionalFlag,
    ensures
        final(fields)@ == old(fields)@.drop_last(),
        old(fields)@.last()@ == FieldView::OptionalFlag(value),
{
    match fields.pop() {
        Some(FieldOf::OptionalFlag(value)) => value,
        _ => vstd::pervasive::unreached(),
    }
}

fn take_optional_index(fields: &mut Vec<Field>) -> (value: Option<u32>)
    requires
        old(fields)@.len() > 0,
        wire::kind_of(old(fields)@.last()) == Kind::OptionalIndex,
    ensures
        final(fields)@ == old(fields)@.drop_last(),
        old(fields)@.last()@ == FieldView::OptionalIndex(value),
{
    match fields.pop() {
        Some(FieldOf::OptionalIndex(value)) => value,
        _ => vstd::pervasive::unreached(),
    }
}

fn take_optional_line(fields: &mut Vec<Field>) -> (value: Option<i32>)
    requires
        old(fields)@.len() > 0,
        wire::kind_of(old(fields)@.last()) == Kind::OptionalLine,
    ensures
        final(fields)@ == old(fields)@.drop_last(),
        old(fields)@.last()@ == FieldView::OptionalLine(value),
{
    match fields.pop() {
        Some(FieldOf::OptionalLine(value)) => value,
        _ => vstd::pervasive::unreached(),
    }
}

fn take_optional_scope(fields: &mut Vec<Field>) -> (value: Option<OptionScope>)
    requires
        old(fields)@.len() > 0,
        wire::kind_of(old(fields)@.last()) == Kind::OptionalScope,
    ensures
        final(fields)@ == old(fields)@.drop_last(),
        old(fields)@.last()@ == FieldView::OptionalScope(value),
{
    match fields.pop() {
        Some(FieldOf::OptionalScope(value)) => value,
        _ => vstd::pervasive::unreached(),
    }
}

fn take_optional_text(fields: &mut Vec<Field>) -> (value: Option<String>)
    requires
        old(fields)@.len() > 0,
        wire::kind_of(old(fields)@.last()) == Kind::OptionalText,
    ensures
        final(fields)@ == old(fields)@.drop_last(),
        old(fields)@.last()@ == FieldView::OptionalText(wire::text_view(value)),
{
    match fields.pop() {
        Some(FieldOf::OptionalText(value)) => value,
        _ => vstd::pervasive::unreached(),
    }
}

fn take_text(fields: &mut Vec<Field>) -> (value: String)
    requires
        old(fields)@.len() > 0,
        wire::kind_of(old(fields)@.last()) == Kind::Text,
    ensures
        final(fields)@ == old(fields)@.drop_last(),
        old(fields)@.last()@ == FieldView::Text(value@),
{
    match fields.pop() {
        Some(FieldOf::Text(value)) => value,
        _ => vstd::pervasive::unreached(),
    }
}

fn take_texts(fields: &mut Vec<Field>) -> (value: Vec<String>)
    requires
        old(fields)@.len() > 0,
        wire::kind_of(old(fields)@.last()) == Kind::Texts,
    ensures
        final(fields)@ == old(fields)@.drop_last(),
        old(fields)@.last()@ == FieldView::Texts(text::texts(value@)),
{
    match fields.pop() {
        Some(FieldOf::Texts(value)) => value,
        _ => vstd::pervasive::unreached(),
    }
}

/// Whether fields have the given kinds.
pub open spec fn kinds_match(fields: Seq<Field>, kinds: Seq<Kind>) -> bool {
    &&& fields.len() == kinds.len()
    &&& forall|i: int| 0 <= i < fields.len() ==> wire::kind_of(#[trigger] fields[i]) == kinds[i]
}

fn build_1_to_6(tag: u8, fields: Vec<Field>) -> (request: Request)
    requires
        1 <= tag <= 6,
        request::request_schema(tag) is Some,
        kinds_match(fields@, request::request_schema(tag)->0),
    ensures
        request::request_tag(request) == tag,
        request::request_fields(request@) == fields@.map_values(|field: Field| field@),
{
    let mut fields = fields;
    match tag {
        1 => {
            let size: Size = take_dimensions(&mut fields);
            let cwd: Option<String> = take_optional_text(&mut fields);
            let command: Vec<String> = take_texts(&mut fields);
            let empty: bool = take_flag(&mut fields);
            let window_name: Option<String> = take_optional_text(&mut fields);
            let format: Option<String> = take_optional_text(&mut fields);
            let group_target: Option<String> = take_optional_text(&mut fields);
            let attach_existing: bool = take_flag(&mut fields);
            let detached: bool = take_flag(&mut fields);
            let name: Option<String> = take_optional_text(&mut fields);
            RequestOf::NewSession {
                name,
                detached,
                attach_existing,
                group_target,
                format,
                window_name,
                empty,
                command,
                cwd,
                size,
            }
        },
        2 => {
            let size: Size = take_dimensions(&mut fields);
            let target: Option<String> = take_optional_text(&mut fields);
            RequestOf::Attach { target, size }
        },
        3 => {
            let format: Option<String> = take_optional_text(&mut fields);
            RequestOf::ListSessions { format }
        },
        4 => {
            let target: String = take_text(&mut fields);
            RequestOf::HasSession { target }
        },
        5 => {
            let all: bool = take_flag(&mut fields);
            let target: Option<String> = take_optional_text(&mut fields);
            RequestOf::KillSession { target, all }
        },
        6 => {
            let cwd: Option<String> = take_optional_text(&mut fields);
            let command: Vec<String> = take_texts(&mut fields);
            let select_existing: bool = take_flag(&mut fields);
            let before: bool = take_flag(&mut fields);
            let after: bool = take_flag(&mut fields);
            let format: Option<String> = take_optional_text(&mut fields);
            let force: bool = take_flag(&mut fields);
            let index: Option<u32> = take_optional_index(&mut fields);
            let empty: bool = take_flag(&mut fields);
            let detached: bool = take_flag(&mut fields);
            let name: Option<String> = take_optional_text(&mut fields);
            let target: Option<String> = take_optional_text(&mut fields);
            RequestOf::NewWindow {
                target,
                name,
                detached,
                empty,
                index,
                force,
                format,
                after,
                before,
                select_existing,
                command,
                cwd,
            }
        },
        _ => vstd::pervasive::unreached(),
    }
}

fn build_7_to_14(tag: u8, fields: Vec<Field>) -> (request: Request)
    requires
        7 <= tag <= 14,
        request::request_schema(tag) is Some,
        kinds_match(fields@, request::request_schema(tag)->0),
    ensures
        request::request_tag(request) == tag,
        request::request_fields(request@) == fields@.map_values(|field: Field| field@),
{
    let mut fields = fields;
    match tag {
        7 => {
            let cwd: Option<String> = take_optional_text(&mut fields);
            let command: Vec<String> = take_texts(&mut fields);
            let size: Option<String> = take_optional_text(&mut fields);
            let zoom: bool = take_flag(&mut fields);
            let empty: bool = take_flag(&mut fields);
            let detached: bool = take_flag(&mut fields);
            let full: bool = take_flag(&mut fields);
            let before: bool = take_flag(&mut fields);
            let horizontal: bool = take_flag(&mut fields);
            let target: Option<String> = take_optional_text(&mut fields);
            RequestOf::SplitWindow {
                target,
                horizontal,
                before,
                full,
                detached,
                empty,
                zoom,
                size,
                command,
                cwd,
            }
        },
        8 => {
            let format: Option<String> = take_optional_text(&mut fields);
            let target: Option<String> = take_optional_text(&mut fields);
            RequestOf::ListWindows { target, format }
        },
        9 => {
            let format: Option<String> = take_optional_text(&mut fields);
            let target: Option<String> = take_optional_text(&mut fields);
            RequestOf::ListPanes { target, format }
        },
        10 => {
            let target: String = take_text(&mut fields);
            RequestOf::SelectWindow { target }
        },
        11 => {
            let target: Option<String> = take_optional_text(&mut fields);
            RequestOf::NextWindow { target }
        },
        12 => {
            let target: Option<String> = take_optional_text(&mut fields);
            RequestOf::PreviousWindow { target }
        },
        13 => {
            let name: String = take_text(&mut fields);
            let target: Option<String> = take_optional_text(&mut fields);
            RequestOf::RenameSession { target, name }
        },
        14 => {
            let name: String = take_text(&mut fields);
            let target: Option<String> = take_optional_text(&mut fields);
            RequestOf::RenameWindow { target, name }
        },
        _ => vstd::pervasive::unreached(),
    }
}

fn build_15_to_21(tag: u8, fields: Vec<Field>) -> (request: Request)
    requires
        15 <= tag <= 21,
        request::request_schema(tag) is Some,
        kinds_match(fields@, request::request_schema(tag)->0),
    ensures
        request::request_tag(request) == tag,
        request::request_fields(request@) == fields@.map_values(|field: Field| field@),
{
    let mut fields = fields;
    match tag {
        15 => {
            let all: bool = take_flag(&mut fields);
            let target: Option<String> = take_optional_text(&mut fields);
            RequestOf::KillWindow { target, all }
        },
        16 => {
            let enabled: Option<bool> = take_optional_flag(&mut fields);
            let title: Option<String> = take_optional_text(&mut fields);
            let mark: Option<bool> = take_optional_flag(&mut fields);
            let direction: PaneDirection = take_direction(&mut fields);
            let target: Option<String> = take_optional_text(&mut fields);
            RequestOf::SelectPane { target, direction, mark, title, enabled }
        },
        17 => {
            let filter: Option<String> = take_optional_text(&mut fields);
            let all: bool = take_flag(&mut fields);
            let target: Option<String> = take_optional_text(&mut fields);
            RequestOf::KillPane { target, all, filter }
        },
        18 => {
            let reset: bool = take_flag(&mut fields);
            let bytes: Vec<u8> = take_bytes(&mut fields);
            let target: Option<String> = take_optional_text(&mut fields);
            RequestOf::SendKeys { target, bytes, reset }
        },
        19 => {
            let preserve_trailing: bool = take_flag(&mut fields);
            let join: bool = take_flag(&mut fields);
            let escape: bool = take_flag(&mut fields);
            let end: Option<i32> = take_optional_line(&mut fields);
            let start: Option<i32> = take_optional_line(&mut fields);
            let target: Option<String> = take_optional_text(&mut fields);
            RequestOf::CapturePane { target, start, end, escape, join, preserve_trailing }
        },
        20 => RequestOf::KillServer,
        21 => {
            let scroll_to_mouse: bool = take_flag(&mut fields);
            let mouse_start: bool = take_flag(&mut fields);
            let reset: bool = take_flag(&mut fields);
            let page_down: bool = take_flag(&mut fields);
            let page: bool = take_flag(&mut fields);
            let kill_on_exit: bool = take_flag(&mut fields);
            let hide_position: bool = take_flag(&mut fields);
            let exit_on_scroll: bool = take_flag(&mut fields);
            let source: Option<String> = take_optional_text(&mut fields);
            let target: Option<String> = take_optional_text(&mut fields);
            RequestOf::CopyMode {
                target,
                source,
                exit_on_scroll,
                hide_position,
                kill_on_exit,
                page,
                page_down,
                reset,
                mouse_start,
                scroll_to_mouse,
            }
        },
        _ => vstd::pervasive::unreached(),
    }
}

fn build_22_to_29(tag: u8, fields: Vec<Field>) -> (request: Request)
    requires
        22 <= tag <= 29,
        request::request_schema(tag) is Some,
        kinds_match(fields@, request::request_schema(tag)->0),
    ensures
        request::request_tag(request) == tag,
        request::request_fields(request@) == fields@.map_values(|field: Field| field@),
{
    let mut fields = fields;
    match tag {
        22 => {
            let repeat: u32 = take_count(&mut fields);
            let action: String = take_text(&mut fields);
            let target: Option<String> = take_optional_text(&mut fields);
            RequestOf::CopyModeCommand { target, action, repeat }
        },
        23 => {
            let format: String = take_text(&mut fields);
            let target: Option<String> = take_optional_text(&mut fields);
            RequestOf::DisplayMessage { target, format }
        },
        24 => {
            let rename: Option<String> = take_optional_text(&mut fields);
            let data: Vec<u8> = take_bytes(&mut fields);
            let append: bool = take_flag(&mut fields);
            let name: Option<String> = take_optional_text(&mut fields);
            RequestOf::SetBuffer { name, append, data, rename }
        },
        25 => {
            let name: Option<String> = take_optional_text(&mut fields);
            RequestOf::ShowBuffer { name }
        },
        26 => {
            let value: String = take_text(&mut fields);
            let key: String = take_text(&mut fields);
            let target: Option<String> = take_optional_text(&mut fields);
            RequestOf::SetWindowOption { target, key, value }
        },
        27 => {
            let filter: Option<String> = take_optional_text(&mut fields);
            let format: Option<String> = take_optional_text(&mut fields);
            RequestOf::ListBuffers { format, filter }
        },
        28 => {
            let name: Option<String> = take_optional_text(&mut fields);
            RequestOf::DeleteBuffer { name }
        },
        29 => {
            let delete: bool = take_flag(&mut fields);
            let separator: Option<Vec<u8>> = take_optional_bytes(&mut fields);
            let bracketed: bool = take_flag(&mut fields);
            let raw: bool = take_flag(&mut fields);
            let name: Option<String> = take_optional_text(&mut fields);
            let target: Option<String> = take_optional_text(&mut fields);
            RequestOf::PasteBuffer { target, name, raw, bracketed, separator, delete }
        },
        _ => vstd::pervasive::unreached(),
    }
}

fn build_30_to_35(tag: u8, fields: Vec<Field>) -> (request: Request)
    requires
        30 <= tag <= 35,
        request::request_schema(tag) is Some,
        kinds_match(fields@, request::request_schema(tag)->0),
    ensures
        request::request_tag(request) == tag,
        request::request_fields(request@) == fields@.map_values(|field: Field| field@),
{
    let mut fields = fields;
    match tag {
        30 => {
            let data: Vec<u8> = take_bytes(&mut fields);
            let name: Option<String> = take_optional_text(&mut fields);
            RequestOf::LoadBuffer { name, data }
        },
        31 => {
            let append: bool = take_flag(&mut fields);
            let path: Option<String> = take_optional_text(&mut fields);
            let name: Option<String> = take_optional_text(&mut fields);
            RequestOf::SaveBuffer { name, path, append }
        },
        32 => {
            let unset: bool = take_flag(&mut fields);
            let value: String = take_text(&mut fields);
            let key: String = take_text(&mut fields);
            let scope: Option<OptionScope> = take_optional_scope(&mut fields);
            let target: Option<String> = take_optional_text(&mut fields);
            RequestOf::SetOption { target, scope, key, value, unset }
        },
        33 => {
            let zoom: bool = take_flag(&mut fields);
            let absolute_percent: bool = take_flag(&mut fields);
            let absolute: Option<u16> = take_optional_cells(&mut fields);
            let amount: i32 = take_amount(&mut fields);
            let direction: PaneDirection = take_direction(&mut fields);
            let target: Option<String> = take_optional_text(&mut fields);
            RequestOf::ResizePane { target, direction, amount, absolute, absolute_percent, zoom }
        },
        34 => {
            let detached: bool = take_flag(&mut fields);
            let direction: Option<PaneDirection> = take_optional_direction(&mut fields);
            let target: Option<String> = take_optional_text(&mut fields);
            let source: Option<String> = take_optional_text(&mut fields);
            RequestOf::SwapPane { source, target, direction, detached }
        },
        35 => {
            let format: Option<String> = take_optional_text(&mut fields);
            let detached: bool = take_flag(&mut fields);
            let name: Option<String> = take_optional_text(&mut fields);
            let target: Option<String> = take_optional_text(&mut fields);
            let source: Option<String> = take_optional_text(&mut fields);
            RequestOf::BreakPane { source, target, name, detached, format }
        },
        _ => vstd::pervasive::unreached(),
    }
}

fn build_36_to_42(tag: u8, fields: Vec<Field>) -> (request: Request)
    requires
        36 <= tag <= 42,
        request::request_schema(tag) is Some,
        kinds_match(fields@, request::request_schema(tag)->0),
    ensures
        request::request_tag(request) == tag,
        request::request_fields(request@) == fields@.map_values(|field: Field| field@),
{
    let mut fields = fields;
    match tag {
        36 => {
            let size: Option<String> = take_optional_text(&mut fields);
            let detached: bool = take_flag(&mut fields);
            let before: bool = take_flag(&mut fields);
            let horizontal: bool = take_flag(&mut fields);
            let target: Option<String> = take_optional_text(&mut fields);
            let source: Option<String> = take_optional_text(&mut fields);
            RequestOf::JoinPane { source, target, horizontal, before, detached, size }
        },
        37 => {
            let window: bool = take_flag(&mut fields);
            let empty: bool = take_flag(&mut fields);
            let kill: bool = take_flag(&mut fields);
            let cwd: Option<String> = take_optional_text(&mut fields);
            let command: Vec<String> = take_texts(&mut fields);
            let target: Option<String> = take_optional_text(&mut fields);
            RequestOf::RespawnPane { target, command, cwd, kill, empty, window }
        },
        38 => {
            let target: Option<String> = take_optional_text(&mut fields);
            RequestOf::ClearHistory { target }
        },
        39 => {
            let up: bool = take_flag(&mut fields);
            let target: Option<String> = take_optional_text(&mut fields);
            RequestOf::RotateWindow { target, up }
        },
        40 => {
            let detached: bool = take_flag(&mut fields);
            let target: Option<String> = take_optional_text(&mut fields);
            let source: Option<String> = take_optional_text(&mut fields);
            RequestOf::SwapWindow { source, target, detached }
        },
        41 => {
            let renumber: bool = take_flag(&mut fields);
            let force: bool = take_flag(&mut fields);
            let detached: bool = take_flag(&mut fields);
            let after: bool = take_flag(&mut fields);
            let target: Option<String> = take_optional_text(&mut fields);
            let source: Option<String> = take_optional_text(&mut fields);
            RequestOf::MoveWindow { source, target, after, detached, force, renumber }
        },
        42 => {
            let force: bool = take_flag(&mut fields);
            let detached: bool = take_flag(&mut fields);
            let target: Option<String> = take_optional_text(&mut fields);
            let source: Option<String> = take_optional_text(&mut fields);
            RequestOf::LinkWindow { source, target, detached, force }
        },
        _ => vstd::pervasive::unreached(),
    }
}

fn build_43_to_49(tag: u8, fields: Vec<Field>) -> (request: Request)
    requires
        43 <= tag <= 49,
        request::request_schema(tag) is Some,
        kinds_match(fields@, request::request_schema(tag)->0),
    ensures
        request::request_tag(request) == tag,
        request::request_fields(request@) == fields@.map_values(|field: Field| field@),
{
    let mut fields = fields;
    match tag {
        43 => {
            let force: bool = take_flag(&mut fields);
            let target: Option<String> = take_optional_text(&mut fields);
            RequestOf::UnlinkWindow { target, force }
        },
        44 => {
            let key: Option<String> = take_optional_text(&mut fields);
            let quiet: bool = take_flag(&mut fields);
            let all: bool = take_flag(&mut fields);
            let value: bool = take_flag(&mut fields);
            let pane: bool = take_flag(&mut fields);
            let window: bool = take_flag(&mut fields);
            let global: bool = take_flag(&mut fields);
            let target: Option<String> = take_optional_text(&mut fields);
            RequestOf::ShowOptions { target, global, window, pane, value, all, quiet, key }
        },
        45 => {
            let remove: bool = take_flag(&mut fields);
            let value: Option<String> = take_optional_text(&mut fields);
            let name: String = take_text(&mut fields);
            RequestOf::SetEnvironment { name, value, remove }
        },
        46 => {
            let name: Option<String> = take_optional_text(&mut fields);
            let format: Option<String> = take_optional_text(&mut fields);
            RequestOf::ShowEnvironment { format, name }
        },
        47 => {
            let toggle: bool = take_flag(&mut fields);
            let command: Option<String> = take_optional_text(&mut fields);
            let target: Option<String> = take_optional_text(&mut fields);
            RequestOf::PipePane { target, command, toggle }
        },
        48 => {
            let format: Option<String> = take_optional_text(&mut fields);
            RequestOf::ListClients { format }
        },
        49 => {
            let all: bool = take_flag(&mut fields);
            let target: Option<String> = take_optional_text(&mut fields);
            RequestOf::DetachClient { target, all }
        },
        _ => vstd::pervasive::unreached(),
    }
}

fn build_50_to_56(tag: u8, fields: Vec<Field>) -> (request: Request)
    requires
        50 <= tag <= 56,
        request::request_schema(tag) is Some,
        kinds_match(fields@, request::request_schema(tag)->0),
    ensures
        request::request_tag(request) == tag,
        request::request_fields(request@) == fields@.map_values(|field: Field| field@),
{
    let mut fields = fields;
    match tag {
        50 => {
            let session: String = take_text(&mut fields);
            let client: Option<String> = take_optional_text(&mut fields);
            RequestOf::SwitchClient { client, session }
        },
        51 => {
            let target: Option<String> = take_optional_text(&mut fields);
            RequestOf::RefreshClient { target }
        },
        52 => {
            let target: Option<String> = take_optional_text(&mut fields);
            let background: bool = take_flag(&mut fields);
            let command: String = take_text(&mut fields);
            RequestOf::RunShell { command, background, target }
        },
        53 => {
            let kill_on_exit: bool = take_flag(&mut fields);
            let hide_source: bool = take_flag(&mut fields);
            let reverse: bool = take_flag(&mut fields);
            let sort: String = take_text(&mut fields);
            let format: Option<String> = take_optional_text(&mut fields);
            let filter: Option<String> = take_optional_text(&mut fields);
            let target: Option<String> = take_optional_text(&mut fields);
            RequestOf::ChooseTree {
                target,
                filter,
                format,
                sort,
                reverse,
                hide_source,
                kill_on_exit,
            }
        },
        54 => {
            let kill_on_exit: bool = take_flag(&mut fields);
            let reverse: bool = take_flag(&mut fields);
            let sort: String = take_text(&mut fields);
            let format: Option<String> = take_optional_text(&mut fields);
            let filter: Option<String> = take_optional_text(&mut fields);
            let target: Option<String> = take_optional_text(&mut fields);
            RequestOf::ChooseBuffer { target, filter, format, sort, reverse, kill_on_exit }
        },
        55 => {
            let kill_on_exit: bool = take_flag(&mut fields);
            let format: Option<String> = take_optional_text(&mut fields);
            let filter: Option<String> = take_optional_text(&mut fields);
            let target: Option<String> = take_optional_text(&mut fields);
            RequestOf::ChooseClient { target, filter, format, kill_on_exit }
        },
        56 => {
            let kill_on_exit: bool = take_flag(&mut fields);
            let command: Vec<String> = take_texts(&mut fields);
            let no_mode: bool = take_flag(&mut fields);
            let no_zoom: bool = take_flag(&mut fields);
            let source: Option<String> = take_optional_text(&mut fields);
            let target: Option<String> = take_optional_text(&mut fields);
            RequestOf::DisplayPanes { target, source, no_zoom, no_mode, command, kill_on_exit }
        },
        _ => vstd::pervasive::unreached(),
    }
}

/// The request with the given tag and fields.
pub fn build_request(tag: u8, fields: Vec<Field>) -> (request: Request)
    requires
        request::request_schema(tag) is Some,
        kinds_match(fields@, request::request_schema(tag)->0),
    ensures
        request::request_tag(request) == tag,
        request::request_fields(request@) == fields@.map_values(|field: Field| field@),
{
    if tag <= 6 {
        build_1_to_6(tag, fields)
    } else if tag <= 14 {
        build_7_to_14(tag, fields)
    } else if tag <= 21 {
        build_15_to_21(tag, fields)
    } else if tag <= 29 {
        build_22_to_29(tag, fields)
    } else if tag <= 35 {
        build_30_to_35(tag, fields)
    } else if tag <= 42 {
        build_36_to_42(tag, fields)
    } else if tag <= 49 {
        build_43_to_49(tag, fields)
    } else {
        build_50_to_56(tag, fields)
    }
}

} // verus!
