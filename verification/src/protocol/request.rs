//! The requests that a client sends, one per command, and their encoding.

use vstd::prelude::*;

use crate::geometry::Size;
use crate::protocol::wire::{
    self, put_bool, put_bytes, put_direction, put_i32, put_optional_bool, put_optional_bytes,
    put_optional_direction, put_optional_i32, put_optional_scope, put_optional_string,
    put_optional_u16, put_optional_u32, put_size, put_string, put_strings, put_u32, FieldOf,
    FieldView, Kind, OptionScope, PaneDirection,
};
use crate::text;

verus! {

/// A request, over the types that stand for a text, a list of texts and a run
/// of bytes: executable code holds strings and vectors, contracts speak of
/// sequences.
#[allow(inconsistent_fields)]
#[derive(Debug, Clone)]
pub enum RequestOf<S, L, B> {
    NewSession {
        name: Option<S>,
        detached: bool,
        attach_existing: bool,
        group_target: Option<S>,
        format: Option<S>,
        window_name: Option<S>,
        empty: bool,
        command: L,
        cwd: Option<S>,
        size: Size,
    },
    Attach {
        target: Option<S>,
        size: Size,
    },
    ListSessions {
        format: Option<S>,
    },
    HasSession {
        target: S,
    },
    KillSession {
        target: Option<S>,
        all: bool,
    },
    NewWindow {
        target: Option<S>,
        name: Option<S>,
        detached: bool,
        empty: bool,
        index: Option<u32>,
        force: bool,
        format: Option<S>,
        after: bool,
        before: bool,
        select_existing: bool,
        command: L,
        cwd: Option<S>,
    },
    SplitWindow {
        target: Option<S>,
        horizontal: bool,
        before: bool,
        full: bool,
        detached: bool,
        empty: bool,
        zoom: bool,
        size: Option<S>,
        command: L,
        cwd: Option<S>,
    },
    ListWindows {
        target: Option<S>,
        format: Option<S>,
    },
    ListPanes {
        target: Option<S>,
        format: Option<S>,
    },
    SelectWindow {
        target: S,
    },
    NextWindow {
        target: Option<S>,
    },
    PreviousWindow {
        target: Option<S>,
    },
    RenameSession {
        target: Option<S>,
        name: S,
    },
    RenameWindow {
        target: Option<S>,
        name: S,
    },
    KillWindow {
        target: Option<S>,
        all: bool,
    },
    SelectPane {
        target: Option<S>,
        direction: PaneDirection,
        mark: Option<bool>,
        title: Option<S>,
        enabled: Option<bool>,
    },
    KillPane {
        target: Option<S>,
        all: bool,
        filter: Option<S>,
    },
    SendKeys {
        target: Option<S>,
        bytes: B,
        reset: bool,
    },
    CapturePane {
        target: Option<S>,
        start: Option<i32>,
        end: Option<i32>,
        escape: bool,
        join: bool,
        preserve_trailing: bool,
    },
    KillServer,
    CopyMode {
        target: Option<S>,
        source: Option<S>,
        exit_on_scroll: bool,
        hide_position: bool,
        kill_on_exit: bool,
        page: bool,
        page_down: bool,
        reset: bool,
        mouse_start: bool,
        scroll_to_mouse: bool,
    },
    CopyModeCommand {
        target: Option<S>,
        action: S,
        repeat: u32,
    },
    ChooseTree {
        target: Option<S>,
        filter: Option<S>,
        format: Option<S>,
        sort: S,
        reverse: bool,
        hide_source: bool,
        kill_on_exit: bool,
    },
    ChooseBuffer {
        target: Option<S>,
        filter: Option<S>,
        format: Option<S>,
        sort: S,
        reverse: bool,
        kill_on_exit: bool,
    },
    ChooseClient {
        target: Option<S>,
        filter: Option<S>,
        format: Option<S>,
        kill_on_exit: bool,
    },
    DisplayPanes {
        target: Option<S>,
        source: Option<S>,
        no_zoom: bool,
        no_mode: bool,
        command: L,
        kill_on_exit: bool,
    },
    DisplayMessage {
        target: Option<S>,
        format: S,
    },
    SetBuffer {
        name: Option<S>,
        append: bool,
        data: B,
        rename: Option<S>,
    },
    ShowBuffer {
        name: Option<S>,
    },
    ListBuffers {
        format: Option<S>,
        filter: Option<S>,
    },
    DeleteBuffer {
        name: Option<S>,
    },
    PasteBuffer {
        target: Option<S>,
        name: Option<S>,
        raw: bool,
        bracketed: bool,
        separator: Option<B>,
        delete: bool,
    },
    LoadBuffer {
        name: Option<S>,
        data: B,
    },
    SaveBuffer {
        name: Option<S>,
        path: Option<S>,
        append: bool,
    },
    SetOption {
        target: Option<S>,
        scope: Option<OptionScope>,
        key: S,
        value: S,
        unset: bool,
    },
    ResizePane {
        target: Option<S>,
        direction: PaneDirection,
        amount: i32,
        absolute: Option<u16>,
        absolute_percent: bool,
        zoom: bool,
    },
    SwapPane {
        source: Option<S>,
        target: Option<S>,
        direction: Option<PaneDirection>,
        detached: bool,
    },
    BreakPane {
        source: Option<S>,
        target: Option<S>,
        name: Option<S>,
        detached: bool,
        format: Option<S>,
    },
    JoinPane {
        source: Option<S>,
        target: Option<S>,
        horizontal: bool,
        before: bool,
        detached: bool,
        size: Option<S>,
    },
    RespawnPane {
        target: Option<S>,
        command: L,
        cwd: Option<S>,
        kill: bool,
        empty: bool,
        window: bool,
    },
    ClearHistory {
        target: Option<S>,
    },
    SetWindowOption {
        target: Option<S>,
        key: S,
        value: S,
    },
    RotateWindow {
        target: Option<S>,
        up: bool,
    },
    SwapWindow {
        source: Option<S>,
        target: Option<S>,
        detached: bool,
    },
    MoveWindow {
        source: Option<S>,
        target: Option<S>,
        after: bool,
        detached: bool,
        force: bool,
        renumber: bool,
    },
    LinkWindow {
        source: Option<S>,
        target: Option<S>,
        detached: bool,
        force: bool,
    },
    UnlinkWindow {
        target: Option<S>,
        force: bool,
    },
    ShowOptions {
        target: Option<S>,
        global: bool,
        window: bool,
        pane: bool,
        value: bool,
        all: bool,
        quiet: bool,
        key: Option<S>,
    },
    SetEnvironment {
        name: S,
        value: Option<S>,
        remove: bool,
    },
    ShowEnvironment {
        format: Option<S>,
        name: Option<S>,
    },
    PipePane {
        target: Option<S>,
        command: Option<S>,
        toggle: bool,
    },
    ListClients {
        format: Option<S>,
    },
    DetachClient {
        target: Option<S>,
        all: bool,
    },
    SwitchClient {
        client: Option<S>,
        session: S,
    },
    RefreshClient {
        target: Option<S>,
    },
    RunShell {
        command: S,
        background: bool,
        target: Option<S>,
    },
}

pub type Request = RequestOf<String, Vec<String>, Vec<u8>>;

pub type RequestView = RequestOf<Seq<char>, Seq<Seq<char>>, Seq<u8>>;

impl View for RequestOf<String, Vec<String>, Vec<u8>> {
    type V = RequestOf<Seq<char>, Seq<Seq<char>>, Seq<u8>>;

    open spec fn view(&self) -> RequestOf<Seq<char>, Seq<Seq<char>>, Seq<u8>> {
        match *self {
            RequestOf::NewSession {
                name,
                detached,
                attach_existing,
                group_target,
                format,
                window_name,
                empty,
                command,
                cwd,
                size,
            } => RequestOf::NewSession {
                name: wire::text_view(name),
                detached,
                attach_existing,
                group_target: wire::text_view(group_target),
                format: wire::text_view(format),
                window_name: wire::text_view(window_name),
                empty,
                command: text::texts(command@),
                cwd: wire::text_view(cwd),
                size,
            },
            RequestOf::Attach { target, size } => RequestOf::Attach {
                target: wire::text_view(target),
                size,
            },
            RequestOf::ListSessions { format } => RequestOf::ListSessions {
                format: wire::text_view(format),
            },
            RequestOf::HasSession { target } => RequestOf::HasSession {
                target: target@,
            },
            RequestOf::KillSession { target, all } => RequestOf::KillSession {
                target: wire::text_view(target),
                all,
            },
            RequestOf::NewWindow {
                target,
                name,
                detached,
                empty,
                index,
                force,
                format,
                after,
                before,
                select_existing,
                command,
                cwd,
            } => RequestOf::NewWindow {
                target: wire::text_view(target),
                name: wire::text_view(name),
                detached,
                empty,
                index,
                force,
                format: wire::text_view(format),
                after,
                before,
                select_existing,
                command: text::texts(command@),
                cwd: wire::text_view(cwd),
            },
            RequestOf::SplitWindow {
                target,
                horizontal,
                before,
                full,
                detached,
                empty,
                zoom,
                size,
                command,
                cwd,
            } => RequestOf::SplitWindow {
                target: wire::text_view(target),
                horizontal,
                before,
                full,
                detached,
                empty,
                zoom,
                size: wire::text_view(size),
                command: text::texts(command@),
                cwd: wire::text_view(cwd),
            },
            RequestOf::ListWindows { target, format } => RequestOf::ListWindows {
                target: wire::text_view(target),
                format: wire::text_view(format),
            },
            RequestOf::ListPanes { target, format } => RequestOf::ListPanes {
                target: wire::text_view(target),
                format: wire::text_view(format),
            },
            RequestOf::SelectWindow { target } => RequestOf::SelectWindow {
                target: target@,
            },
            RequestOf::NextWindow { target } => RequestOf::NextWindow {
                target: wire::text_view(target),
            },
            RequestOf::PreviousWindow { target } => RequestOf::PreviousWindow {
                target: wire::text_view(target),
            },
            RequestOf::RenameSession { target, name } => RequestOf::RenameSession {
                target: wire::text_view(target),
                name: name@,
            },
            RequestOf::RenameWindow { target, name } => RequestOf::RenameWindow {
                target: wire::text_view(target),
                name: name@,
            },
            RequestOf::KillWindow { target, all } => RequestOf::KillWindow {
                target: wire::text_view(target),
                all,
            },
            RequestOf::SelectPane {
                target,
                direction,
                mark,
                title,
                enabled,
            } => RequestOf::SelectPane {
                target: wire::text_view(target),
                direction,
                mark,
                title: wire::text_view(title),
                enabled,
            },
            RequestOf::KillPane { target, all, filter } => RequestOf::KillPane {
                target: wire::text_view(target),
                all,
                filter: wire::text_view(filter),
            },
            RequestOf::SendKeys { target, bytes, reset } => RequestOf::SendKeys {
                target: wire::text_view(target),
                bytes: bytes@,
                reset,
            },
            RequestOf::CapturePane {
                target,
                start,
                end,
                escape,
                join,
                preserve_trailing,
            } => RequestOf::CapturePane {
                target: wire::text_view(target),
                start,
                end,
                escape,
                join,
                preserve_trailing,
            },
            RequestOf::KillServer => RequestOf::KillServer,
            RequestOf::CopyMode {
                target,
                source,
                exit_on_scroll,
                hide_position,
                kill_on_exit,
                page,
                page_down,
                reset,
                mouse_start,
                scroll_to_mouse,
            } => RequestOf::CopyMode {
                target: wire::text_view(target),
                source: wire::text_view(source),
                exit_on_scroll,
                hide_position,
                kill_on_exit,
                page,
                page_down,
                reset,
                mouse_start,
                scroll_to_mouse,
            },
            RequestOf::CopyModeCommand { target, action, repeat } => RequestOf::CopyModeCommand {
                target: wire::text_view(target),
                action: action@,
                repeat,
            },
            RequestOf::ChooseTree {
                target,
                filter,
                format,
                sort,
                reverse,
                hide_source,
                kill_on_exit,
            } => RequestOf::ChooseTree {
                target: wire::text_view(target),
                filter: wire::text_view(filter),
                format: wire::text_view(format),
                sort: sort@,
                reverse,
                hide_source,
                kill_on_exit,
            },
            RequestOf::ChooseBuffer {
                target,
                filter,
                format,
                sort,
                reverse,
                kill_on_exit,
            } => RequestOf::ChooseBuffer {
                target: wire::text_view(target),
                filter: wire::text_view(filter),
                format: wire::text_view(format),
                sort: sort@,
                reverse,
                kill_on_exit,
            },
            RequestOf::ChooseClient {
                target,
                filter,
                format,
                kill_on_exit,
            } => RequestOf::ChooseClient {
                target: wire::text_view(target),
                filter: wire::text_view(filter),
                format: wire::text_view(format),
                kill_on_exit,
            },
            RequestOf::DisplayPanes {
                target,
                source,
                no_zoom,
                no_mode,
                command,
                kill_on_exit,
            } => RequestOf::DisplayPanes {
                target: wire::text_view(target),
                source: wire::text_view(source),
                no_zoom,
                no_mode,
                command: text::texts(command@),
                kill_on_exit,
            },
            RequestOf::DisplayMessage { target, format } => RequestOf::DisplayMessage {
                target: wire::text_view(target),
                format: format@,
            },
            RequestOf::SetBuffer { name, append, data, rename } => RequestOf::SetBuffer {
                name: wire::text_view(name),
                append,
                data: data@,
                rename: wire::text_view(rename),
            },
            RequestOf::ShowBuffer { name } => RequestOf::ShowBuffer {
                name: wire::text_view(name),
            },
            RequestOf::ListBuffers { format, filter } => RequestOf::ListBuffers {
                format: wire::text_view(format),
                filter: wire::text_view(filter),
            },
            RequestOf::DeleteBuffer { name } => RequestOf::DeleteBuffer {
                name: wire::text_view(name),
            },
            RequestOf::PasteBuffer {
                target,
                name,
                raw,
                bracketed,
                separator,
                delete,
            } => RequestOf::PasteBuffer {
                target: wire::text_view(target),
                name: wire::text_view(name),
                raw,
                bracketed,
                separator: wire::bytes_view(separator),
                delete,
            },
            RequestOf::LoadBuffer { name, data } => RequestOf::LoadBuffer {
                name: wire::text_view(name),
                data: data@,
            },
            RequestOf::SaveBuffer { name, path, append } => RequestOf::SaveBuffer {
                name: wire::text_view(name),
                path: wire::text_view(path),
                append,
            },
            RequestOf::SetOption { target, scope, key, value, unset } => RequestOf::SetOption {
                target: wire::text_view(target),
                scope,
                key: key@,
                value: value@,
                unset,
            },
            RequestOf::ResizePane {
                target,
                direction,
                amount,
                absolute,
                absolute_percent,
                zoom,
            } => RequestOf::ResizePane {
                target: wire::text_view(target),
                direction,
                amount,
                absolute,
                absolute_percent,
                zoom,
            },
            RequestOf::SwapPane { source, target, direction, detached } => RequestOf::SwapPane {
                source: wire::text_view(source),
                target: wire::text_view(target),
                direction,
                detached,
            },
            RequestOf::BreakPane {
                source,
                target,
                name,
                detached,
                format,
            } => RequestOf::BreakPane {
                source: wire::text_view(source),
                target: wire::text_view(target),
                name: wire::text_view(name),
                detached,
                format: wire::text_view(format),
            },
            RequestOf::JoinPane {
                source,
                target,
                horizontal,
                before,
                detached,
                size,
            } => RequestOf::JoinPane {
                source: wire::text_view(source),
                target: wire::text_view(target),
                horizontal,
                before,
                detached,
                size: wire::text_view(size),
            },
            RequestOf::RespawnPane {
                target,
                command,
                cwd,
                kill,
                empty,
                window,
            } => RequestOf::RespawnPane {
                target: wire::text_view(target),
                command: text::texts(command@),
                cwd: wire::text_view(cwd),
                kill,
                empty,
                window,
            },
            RequestOf::ClearHistory { target } => RequestOf::ClearHistory {
                target: wire::text_view(target),
            },
            RequestOf::SetWindowOption { target, key, value } => RequestOf::SetWindowOption {
                target: wire::text_view(target),
                key: key@,
                value: value@,
            },
            RequestOf::RotateWindow { target, up } => RequestOf::RotateWindow {
                target: wire::text_view(target),
                up,
            },
            RequestOf::SwapWindow { source, target, detached } => RequestOf::SwapWindow {
                source: wire::text_view(source),
                target: wire::text_view(target),
                detached,
            },
            RequestOf::MoveWindow {
                source,
                target,
                after,
                detached,
                force,
                renumber,
            } => RequestOf::MoveWindow {
                source: wire::text_view(source),
                target: wire::text_view(target),
                after,
                detached,
                force,
                renumber,
            },
            RequestOf::LinkWindow { source, target, detached, force } => RequestOf::LinkWindow {
                source: wire::text_view(source),
                target: wire::text_view(target),
                detached,
                force,
            },
            RequestOf::UnlinkWindow { target, force } => RequestOf::UnlinkWindow {
                target: wire::text_view(target),
                force,
            },
            RequestOf::ShowOptions {
                target,
                global,
                window,
                pane,
                value,
                all,
                quiet,
                key,
            } => RequestOf::ShowOptions {
                target: wire::text_view(target),
                global,
                window,
                pane,
                value,
                all,
                quiet,
                key: wire::text_view(key),
            },
            RequestOf::SetEnvironment { name, value, remove } => RequestOf::SetEnvironment {
                name: name@,
                value: wire::text_view(value),
                remove,
            },
            RequestOf::ShowEnvironment { format, name } => RequestOf::ShowEnvironment {
                format: wire::text_view(format),
                name: wire::text_view(name),
            },
            RequestOf::PipePane { target, command, toggle } => RequestOf::PipePane {
                target: wire::text_view(target),
                command: wire::text_view(command),
                toggle,
            },
            RequestOf::ListClients { format } => RequestOf::ListClients {
                format: wire::text_view(format),
            },
            RequestOf::DetachClient { target, all } => RequestOf::DetachClient {
                target: wire::text_view(target),
                all,
            },
            RequestOf::SwitchClient { client, session } => RequestOf::SwitchClient {
                client: wire::text_view(client),
                session: session@,
            },
            RequestOf::RefreshClient { target } => RequestOf::RefreshClient {
                target: wire::text_view(target),
            },
            RequestOf::RunShell { command, background, target } => RequestOf::RunShell {
                command: command@,
                background,
                target: wire::text_view(target),
            },
        }
    }
}

/// The byte that tells a request from the others.
pub open spec fn request_tag<S, L, B>(request: RequestOf<S, L, B>) -> u8 {
    match request {
        RequestOf::NewSession { .. } => 1,
        RequestOf::Attach { .. } => 2,
        RequestOf::ListSessions { .. } => 3,
        RequestOf::HasSession { .. } => 4,
        RequestOf::KillSession { .. } => 5,
        RequestOf::NewWindow { .. } => 6,
        RequestOf::SplitWindow { .. } => 7,
        RequestOf::ListWindows { .. } => 8,
        RequestOf::ListPanes { .. } => 9,
        RequestOf::SelectWindow { .. } => 10,
        RequestOf::NextWindow { .. } => 11,
        RequestOf::PreviousWindow { .. } => 12,
        RequestOf::RenameSession { .. } => 13,
        RequestOf::RenameWindow { .. } => 14,
        RequestOf::KillWindow { .. } => 15,
        RequestOf::SelectPane { .. } => 16,
        RequestOf::KillPane { .. } => 17,
        RequestOf::SendKeys { .. } => 18,
        RequestOf::CapturePane { .. } => 19,
        RequestOf::KillServer => 20,
        RequestOf::CopyMode { .. } => 21,
        RequestOf::CopyModeCommand { .. } => 22,
        RequestOf::DisplayMessage { .. } => 23,
        RequestOf::SetBuffer { .. } => 24,
        RequestOf::ShowBuffer { .. } => 25,
        RequestOf::SetWindowOption { .. } => 26,
        RequestOf::ListBuffers { .. } => 27,
        RequestOf::DeleteBuffer { .. } => 28,
        RequestOf::PasteBuffer { .. } => 29,
        RequestOf::LoadBuffer { .. } => 30,
        RequestOf::SaveBuffer { .. } => 31,
        RequestOf::SetOption { .. } => 32,
        RequestOf::ResizePane { .. } => 33,
        RequestOf::SwapPane { .. } => 34,
        RequestOf::BreakPane { .. } => 35,
        RequestOf::JoinPane { .. } => 36,
        RequestOf::RespawnPane { .. } => 37,
        RequestOf::ClearHistory { .. } => 38,
        RequestOf::RotateWindow { .. } => 39,
        RequestOf::SwapWindow { .. } => 40,
        RequestOf::MoveWindow { .. } => 41,
        RequestOf::LinkWindow { .. } => 42,
        RequestOf::UnlinkWindow { .. } => 43,
        RequestOf::ShowOptions { .. } => 44,
        RequestOf::SetEnvironment { .. } => 45,
        RequestOf::ShowEnvironment { .. } => 46,
        RequestOf::PipePane { .. } => 47,
        RequestOf::ListClients { .. } => 48,
        RequestOf::DetachClient { .. } => 49,
        RequestOf::SwitchClient { .. } => 50,
        RequestOf::RefreshClient { .. } => 51,
        RequestOf::RunShell { .. } => 52,
        RequestOf::ChooseTree { .. } => 53,
        RequestOf::ChooseBuffer { .. } => 54,
        RequestOf::ChooseClient { .. } => 55,
        RequestOf::DisplayPanes { .. } => 56,
    }
}

/// The fields of a request, in the order in which they are sent.
pub open spec fn request_fields(request: RequestView) -> Seq<FieldView> {
    match request {
        RequestOf::NewSession {
            name,
            detached,
            attach_existing,
            group_target,
            format,
            window_name,
            empty,
            command,
            cwd,
            size,
        } => seq![
            FieldOf::OptionalText(name),
            FieldOf::Flag(detached),
            FieldOf::Flag(attach_existing),
            FieldOf::OptionalText(group_target),
            FieldOf::OptionalText(format),
            FieldOf::OptionalText(window_name),
            FieldOf::Flag(empty),
            FieldOf::Texts(command),
            FieldOf::OptionalText(cwd),
            FieldOf::Dimensions(size),
        ],
        RequestOf::Attach { target, size } => seq![
            FieldOf::OptionalText(target),
            FieldOf::Dimensions(size),
        ],
        RequestOf::ListSessions { format } => seq![
            FieldOf::OptionalText(format),
        ],
        RequestOf::HasSession { target } => seq![
            FieldOf::Text(target),
        ],
        RequestOf::KillSession { target, all } => seq![
            FieldOf::OptionalText(target),
            FieldOf::Flag(all),
        ],
        RequestOf::NewWindow {
            target,
            name,
            detached,
            empty,
            index,
            force,
            format,
            after,
            before,
            select_existing,
            command,
            cwd,
        } => seq![
            FieldOf::OptionalText(target),
            FieldOf::OptionalText(name),
            FieldOf::Flag(detached),
            FieldOf::Flag(empty),
            FieldOf::OptionalIndex(index),
            FieldOf::Flag(force),
            FieldOf::OptionalText(format),
            FieldOf::Flag(after),
            FieldOf::Flag(before),
            FieldOf::Flag(select_existing),
            FieldOf::Texts(command),
            FieldOf::OptionalText(cwd),
        ],
        RequestOf::SplitWindow {
            target,
            horizontal,
            before,
            full,
            detached,
            empty,
            zoom,
            size,
            command,
            cwd,
        } => seq![
            FieldOf::OptionalText(target),
            FieldOf::Flag(horizontal),
            FieldOf::Flag(before),
            FieldOf::Flag(full),
            FieldOf::Flag(detached),
            FieldOf::Flag(empty),
            FieldOf::Flag(zoom),
            FieldOf::OptionalText(size),
            FieldOf::Texts(command),
            FieldOf::OptionalText(cwd),
        ],
        RequestOf::ListWindows { target, format } => seq![
            FieldOf::OptionalText(target),
            FieldOf::OptionalText(format),
        ],
        RequestOf::ListPanes { target, format } => seq![
            FieldOf::OptionalText(target),
            FieldOf::OptionalText(format),
        ],
        RequestOf::SelectWindow { target } => seq![
            FieldOf::Text(target),
        ],
        RequestOf::NextWindow { target } => seq![
            FieldOf::OptionalText(target),
        ],
        RequestOf::PreviousWindow { target } => seq![
            FieldOf::OptionalText(target),
        ],
        RequestOf::RenameSession { target, name } => seq![
            FieldOf::OptionalText(target),
            FieldOf::Text(name),
        ],
        RequestOf::RenameWindow { target, name } => seq![
            FieldOf::OptionalText(target),
            FieldOf::Text(name),
        ],
        RequestOf::KillWindow { target, all } => seq![
            FieldOf::OptionalText(target),
            FieldOf::Flag(all),
        ],
        RequestOf::SelectPane { target, direction, mark, title, enabled } => seq![
            FieldOf::OptionalText(target),
            FieldOf::Direction(direction),
            FieldOf::OptionalFlag(mark),
            FieldOf::OptionalText(title),
            FieldOf::OptionalFlag(enabled),
        ],
        RequestOf::KillPane { target, all, filter } => seq![
            FieldOf::OptionalText(target),
            FieldOf::Flag(all),
            FieldOf::OptionalText(filter),
        ],
        RequestOf::SendKeys { target, bytes, reset } => seq![
            FieldOf::OptionalText(target),
            FieldOf::Bytes(bytes),
            FieldOf::Flag(reset),
        ],
        RequestOf::CapturePane { target, start, end, escape, join, preserve_trailing } => seq![
            FieldOf::OptionalText(target),
            FieldOf::OptionalLine(start),
            FieldOf::OptionalLine(end),
            FieldOf::Flag(escape),
            FieldOf::Flag(join),
            FieldOf::Flag(preserve_trailing),
        ],
        RequestOf::KillServer => seq![],
        RequestOf::CopyMode {
            target,
            source,
            exit_on_scroll,
            hide_position,
            kill_on_exit,
            page,
            page_down,
            reset,
            mouse_start,
            scroll_to_mouse,
        } => seq![
            FieldOf::OptionalText(target),
            FieldOf::OptionalText(source),
            FieldOf::Flag(exit_on_scroll),
            FieldOf::Flag(hide_position),
            FieldOf::Flag(kill_on_exit),
            FieldOf::Flag(page),
            FieldOf::Flag(page_down),
            FieldOf::Flag(reset),
            FieldOf::Flag(mouse_start),
            FieldOf::Flag(scroll_to_mouse),
        ],
        RequestOf::CopyModeCommand { target, action, repeat } => seq![
            FieldOf::OptionalText(target),
            FieldOf::Text(action),
            FieldOf::Count(repeat),
        ],
        RequestOf::DisplayMessage { target, format } => seq![
            FieldOf::OptionalText(target),
            FieldOf::Text(format),
        ],
        RequestOf::SetBuffer { name, append, data, rename } => seq![
            FieldOf::OptionalText(name),
            FieldOf::Flag(append),
            FieldOf::Bytes(data),
            FieldOf::OptionalText(rename),
        ],
        RequestOf::ShowBuffer { name } => seq![
            FieldOf::OptionalText(name),
        ],
        RequestOf::SetWindowOption { target, key, value } => seq![
            FieldOf::OptionalText(target),
            FieldOf::Text(key),
            FieldOf::Text(value),
        ],
        RequestOf::ListBuffers { format, filter } => seq![
            FieldOf::OptionalText(format),
            FieldOf::OptionalText(filter),
        ],
        RequestOf::DeleteBuffer { name } => seq![
            FieldOf::OptionalText(name),
        ],
        RequestOf::PasteBuffer { target, name, raw, bracketed, separator, delete } => seq![
            FieldOf::OptionalText(target),
            FieldOf::OptionalText(name),
            FieldOf::Flag(raw),
            FieldOf::Flag(bracketed),
            FieldOf::OptionalBytes(separator),
            FieldOf::Flag(delete),
        ],
        RequestOf::LoadBuffer { name, data } => seq![
            FieldOf::OptionalText(name),
            FieldOf::Bytes(data),
        ],
        RequestOf::SaveBuffer { name, path, append } => seq![
            FieldOf::OptionalText(name),
            FieldOf::OptionalText(path),
            FieldOf::Flag(append),
        ],
        RequestOf::SetOption { target, scope, key, value, unset } => seq![
            FieldOf::OptionalText(target),
            FieldOf::OptionalScope(scope),
            FieldOf::Text(key),
            FieldOf::Text(value),
            FieldOf::Flag(unset),
        ],
        RequestOf::ResizePane {
            target,
            direction,
            amount,
            absolute,
            absolute_percent,
            zoom,
        } => seq![
            FieldOf::OptionalText(target),
            FieldOf::Direction(direction),
            FieldOf::Amount(amount),
            FieldOf::OptionalCells(absolute),
            FieldOf::Flag(absolute_percent),
            FieldOf::Flag(zoom),
        ],
        RequestOf::SwapPane { source, target, direction, detached } => seq![
            FieldOf::OptionalText(source),
            FieldOf::OptionalText(target),
            FieldOf::OptionalDirection(direction),
            FieldOf::Flag(detached),
        ],
        RequestOf::BreakPane { source, target, name, detached, format } => seq![
            FieldOf::OptionalText(source),
            FieldOf::OptionalText(target),
            FieldOf::OptionalText(name),
            FieldOf::Flag(detached),
            FieldOf::OptionalText(format),
        ],
        RequestOf::JoinPane { source, target, horizontal, before, detached, size } => seq![
            FieldOf::OptionalText(source),
            FieldOf::OptionalText(target),
            FieldOf::Flag(horizontal),
            FieldOf::Flag(before),
            FieldOf::Flag(detached),
            FieldOf::OptionalText(size),
        ],
        RequestOf::RespawnPane { target, command, cwd, kill, empty, window } => seq![
            FieldOf::OptionalText(target),
            FieldOf::Texts(command),
            FieldOf::OptionalText(cwd),
            FieldOf::Flag(kill),
            FieldOf::Flag(empty),
            FieldOf::Flag(window),
        ],
        RequestOf::ClearHistory { target } => seq![
            FieldOf::OptionalText(target),
        ],
        RequestOf::RotateWindow { target, up } => seq![
            FieldOf::OptionalText(target),
            FieldOf::Flag(up),
        ],
        RequestOf::SwapWindow { source, target, detached } => seq![
            FieldOf::OptionalText(source),
            FieldOf::OptionalText(target),
            FieldOf::Flag(detached),
        ],
        RequestOf::MoveWindow { source, target, after, detached, force, renumber } => seq![
            FieldOf::OptionalText(source),
            FieldOf::OptionalText(target),
            FieldOf::Flag(after),
            FieldOf::Flag(detached),
            FieldOf::Flag(force),
            FieldOf::Flag(renumber),
        ],
        RequestOf::LinkWindow { source, target, detached, force } => seq![
            FieldOf::OptionalText(source),
            FieldOf::OptionalText(target),
            FieldOf::Flag(detached),
            FieldOf::Flag(force),
        ],
        RequestOf::UnlinkWindow { target, force } => seq![
            FieldOf::OptionalText(target),
            FieldOf::Flag(force),
        ],
        RequestOf::ShowOptions { target, global, window, pane, value, all, quiet, key } => seq![
            FieldOf::OptionalText(target),
            FieldOf::Flag(global),
            FieldOf::Flag(window),
            FieldOf::Flag(pane),
            FieldOf::Flag(value),
            FieldOf::Flag(all),
            FieldOf::Flag(quiet),
            FieldOf::OptionalText(key),
        ],
        RequestOf::SetEnvironment { name, value, remove } => seq![
            FieldOf::Text(name),
            FieldOf::OptionalText(value),
            FieldOf::Flag(remove),
        ],
        RequestOf::ShowEnvironment { format, name } => seq![
            FieldOf::OptionalText(format),
            FieldOf::OptionalText(name),
        ],
        RequestOf::PipePane { target, command, toggle } => seq![
            FieldOf::OptionalText(target),
            FieldOf::OptionalText(command),
            FieldOf::Flag(toggle),
        ],
        RequestOf::ListClients { format } => seq![
            FieldOf::OptionalText(format),
        ],
        RequestOf::DetachClient { target, all } => seq![
            FieldOf::OptionalText(target),
            FieldOf::Flag(all),
        ],
        RequestOf::SwitchClient { client, session } => seq![
            FieldOf::OptionalText(client),
            FieldOf::Text(session),
        ],
        RequestOf::RefreshClient { target } => seq![
            FieldOf::OptionalText(target),
        ],
        RequestOf::RunShell { command, background, target } => seq![
            FieldOf::Text(command),
            FieldOf::Flag(background),
            FieldOf::OptionalText(target),
        ],
        RequestOf::ChooseTree {
            target,
            filter,
            format,
            sort,
            reverse,
            hide_source,
            kill_on_exit,
        } => seq![
            FieldOf::OptionalText(target),
            FieldOf::OptionalText(filter),
            FieldOf::OptionalText(format),
            FieldOf::Text(sort),
            FieldOf::Flag(reverse),
            FieldOf::Flag(hide_source),
            FieldOf::Flag(kill_on_exit),
        ],
        RequestOf::ChooseBuffer { target, filter, format, sort, reverse, kill_on_exit } => seq![
            FieldOf::OptionalText(target),
            FieldOf::OptionalText(filter),
            FieldOf::OptionalText(format),
            FieldOf::Text(sort),
            FieldOf::Flag(reverse),
            FieldOf::Flag(kill_on_exit),
        ],
        RequestOf::ChooseClient { target, filter, format, kill_on_exit } => seq![
            FieldOf::OptionalText(target),
            FieldOf::OptionalText(filter),
            FieldOf::OptionalText(format),
            FieldOf::Flag(kill_on_exit),
        ],
        RequestOf::DisplayPanes { target, source, no_zoom, no_mode, command, kill_on_exit } => seq![
            FieldOf::OptionalText(target),
            FieldOf::OptionalText(source),
            FieldOf::Flag(no_zoom),
            FieldOf::Flag(no_mode),
            FieldOf::Texts(command),
            FieldOf::Flag(kill_on_exit),
        ],
    }
}

/// The kinds of the fields behind each request tag.
pub open spec fn request_schema(tag: u8) -> Option<Seq<Kind>> {
    match tag {
        1 => Some(seq![
            Kind::OptionalText,
            Kind::Flag,
            Kind::Flag,
            Kind::OptionalText,
            Kind::OptionalText,
            Kind::OptionalText,
            Kind::Flag,
            Kind::Texts,
            Kind::OptionalText,
            Kind::Dimensions,
        ]),
        2 => Some(seq![Kind::OptionalText, Kind::Dimensions]),
        3 => Some(seq![Kind::OptionalText]),
        4 => Some(seq![Kind::Text]),
        5 => Some(seq![Kind::OptionalText, Kind::Flag]),
        6 => Some(seq![
            Kind::OptionalText,
            Kind::OptionalText,
            Kind::Flag,
            Kind::Flag,
            Kind::OptionalIndex,
            Kind::Flag,
            Kind::OptionalText,
            Kind::Flag,
            Kind::Flag,
            Kind::Flag,
            Kind::Texts,
            Kind::OptionalText,
        ]),
        7 => Some(seq![
            Kind::OptionalText,
            Kind::Flag,
            Kind::Flag,
            Kind::Flag,
            Kind::Flag,
            Kind::Flag,
            Kind::Flag,
            Kind::OptionalText,
            Kind::Texts,
            Kind::OptionalText,
        ]),
        8 => Some(seq![Kind::OptionalText, Kind::OptionalText]),
        9 => Some(seq![Kind::OptionalText, Kind::OptionalText]),
        10 => Some(seq![Kind::Text]),
        11 => Some(seq![Kind::OptionalText]),
        12 => Some(seq![Kind::OptionalText]),
        13 => Some(seq![Kind::OptionalText, Kind::Text]),
        14 => Some(seq![Kind::OptionalText, Kind::Text]),
        15 => Some(seq![Kind::OptionalText, Kind::Flag]),
        16 => Some(seq![
            Kind::OptionalText,
            Kind::Direction,
            Kind::OptionalFlag,
            Kind::OptionalText,
            Kind::OptionalFlag,
        ]),
        17 => Some(seq![Kind::OptionalText, Kind::Flag, Kind::OptionalText]),
        18 => Some(seq![Kind::OptionalText, Kind::Bytes, Kind::Flag]),
        19 => Some(seq![
            Kind::OptionalText,
            Kind::OptionalLine,
            Kind::OptionalLine,
            Kind::Flag,
            Kind::Flag,
            Kind::Flag,
        ]),
        20 => Some(seq![]),
        21 => Some(seq![
            Kind::OptionalText,
            Kind::OptionalText,
            Kind::Flag,
            Kind::Flag,
            Kind::Flag,
            Kind::Flag,
            Kind::Flag,
            Kind::Flag,
            Kind::Flag,
            Kind::Flag,
        ]),
        22 => Some(seq![Kind::OptionalText, Kind::Text, Kind::Count]),
        23 => Some(seq![Kind::OptionalText, Kind::Text]),
        24 => Some(seq![Kind::OptionalText, Kind::Flag, Kind::Bytes, Kind::OptionalText]),
        25 => Some(seq![Kind::OptionalText]),
        26 => Some(seq![Kind::OptionalText, Kind::Text, Kind::Text]),
        27 => Some(seq![Kind::OptionalText, Kind::OptionalText]),
        28 => Some(seq![Kind::OptionalText]),
        29 => Some(seq![
            Kind::OptionalText,
            Kind::OptionalText,
            Kind::Flag,
            Kind::Flag,
            Kind::OptionalBytes,
            Kind::Flag,
        ]),
        30 => Some(seq![Kind::OptionalText, Kind::Bytes]),
        31 => Some(seq![Kind::OptionalText, Kind::OptionalText, Kind::Flag]),
        32 => Some(seq![
            Kind::OptionalText,
            Kind::OptionalScope,
            Kind::Text,
            Kind::Text,
            Kind::Flag,
        ]),
        33 => Some(seq![
            Kind::OptionalText,
            Kind::Direction,
            Kind::Amount,
            Kind::OptionalCells,
            Kind::Flag,
            Kind::Flag,
        ]),
        34 => Some(seq![
            Kind::OptionalText,
            Kind::OptionalText,
            Kind::OptionalDirection,
            Kind::Flag,
        ]),
        35 => Some(seq![
            Kind::OptionalText,
            Kind::OptionalText,
            Kind::OptionalText,
            Kind::Flag,
            Kind::OptionalText,
        ]),
        36 => Some(seq![
            Kind::OptionalText,
            Kind::OptionalText,
            Kind::Flag,
            Kind::Flag,
            Kind::Flag,
            Kind::OptionalText,
        ]),
        37 => Some(seq![
            Kind::OptionalText,
            Kind::Texts,
            Kind::OptionalText,
            Kind::Flag,
            Kind::Flag,
            Kind::Flag,
        ]),
        38 => Some(seq![Kind::OptionalText]),
        39 => Some(seq![Kind::OptionalText, Kind::Flag]),
        40 => Some(seq![Kind::OptionalText, Kind::OptionalText, Kind::Flag]),
        41 => Some(seq![
            Kind::OptionalText,
            Kind::OptionalText,
            Kind::Flag,
            Kind::Flag,
            Kind::Flag,
            Kind::Flag,
        ]),
        42 => Some(seq![Kind::OptionalText, Kind::OptionalText, Kind::Flag, Kind::Flag]),
        43 => Some(seq![Kind::OptionalText, Kind::Flag]),
        44 => Some(seq![
            Kind::OptionalText,
            Kind::Flag,
            Kind::Flag,
            Kind::Flag,
            Kind::Flag,
            Kind::Flag,
            Kind::Flag,
            Kind::OptionalText,
        ]),
        45 => Some(seq![Kind::Text, Kind::OptionalText, Kind::Flag]),
        46 => Some(seq![Kind::OptionalText, Kind::OptionalText]),
        47 => Some(seq![Kind::OptionalText, Kind::OptionalText, Kind::Flag]),
        48 => Some(seq![Kind::OptionalText]),
        49 => Some(seq![Kind::OptionalText, Kind::Flag]),
        50 => Some(seq![Kind::OptionalText, Kind::Text]),
        51 => Some(seq![Kind::OptionalText]),
        52 => Some(seq![Kind::Text, Kind::Flag, Kind::OptionalText]),
        53 => Some(seq![
            Kind::OptionalText,
            Kind::OptionalText,
            Kind::OptionalText,
            Kind::Text,
            Kind::Flag,
            Kind::Flag,
            Kind::Flag,
        ]),
        54 => Some(seq![
            Kind::OptionalText,
            Kind::OptionalText,
            Kind::OptionalText,
            Kind::Text,
            Kind::Flag,
            Kind::Flag,
        ]),
        55 => Some(seq![Kind::OptionalText, Kind::OptionalText, Kind::OptionalText, Kind::Flag]),
        56 => Some(seq![
            Kind::OptionalText,
            Kind::OptionalText,
            Kind::Flag,
            Kind::Flag,
            Kind::Texts,
            Kind::Flag,
        ]),
        _ => None,
    }
}

/// The kinds of the fields behind each request tag.
pub fn request_kinds(tag: u8) -> (kinds: Option<Vec<Kind>>)
    ensures
        match request_schema(tag) {
            Some(schema) => {
                &&& kinds matches Some(list)
                &&& list@ == schema
            },
            None => kinds is None,
        },
{
    match tag {
        1 => Some(vec![
            Kind::OptionalText,
            Kind::Flag,
            Kind::Flag,
            Kind::OptionalText,
            Kind::OptionalText,
            Kind::OptionalText,
            Kind::Flag,
            Kind::Texts,
            Kind::OptionalText,
            Kind::Dimensions,
        ]),
        2 => Some(vec![Kind::OptionalText, Kind::Dimensions]),
        3 => Some(vec![Kind::OptionalText]),
        4 => Some(vec![Kind::Text]),
        5 => Some(vec![Kind::OptionalText, Kind::Flag]),
        6 => Some(vec![
            Kind::OptionalText,
            Kind::OptionalText,
            Kind::Flag,
            Kind::Flag,
            Kind::OptionalIndex,
            Kind::Flag,
            Kind::OptionalText,
            Kind::Flag,
            Kind::Flag,
            Kind::Flag,
            Kind::Texts,
            Kind::OptionalText,
        ]),
        7 => Some(vec![
            Kind::OptionalText,
            Kind::Flag,
            Kind::Flag,
            Kind::Flag,
            Kind::Flag,
            Kind::Flag,
            Kind::Flag,
            Kind::OptionalText,
            Kind::Texts,
            Kind::OptionalText,
        ]),
        8 => Some(vec![Kind::OptionalText, Kind::OptionalText]),
        9 => Some(vec![Kind::OptionalText, Kind::OptionalText]),
        10 => Some(vec![Kind::Text]),
        11 => Some(vec![Kind::OptionalText]),
        12 => Some(vec![Kind::OptionalText]),
        13 => Some(vec![Kind::OptionalText, Kind::Text]),
        14 => Some(vec![Kind::OptionalText, Kind::Text]),
        15 => Some(vec![Kind::OptionalText, Kind::Flag]),
        16 => Some(vec![
            Kind::OptionalText,
            Kind::Direction,
            Kind::OptionalFlag,
            Kind::OptionalText,
            Kind::OptionalFlag,
        ]),
        17 => Some(vec![Kind::OptionalText, Kind::Flag, Kind::OptionalText]),
        18 => Some(vec![Kind::OptionalText, Kind::Bytes, Kind::Flag]),
        19 => Some(vec![
            Kind::OptionalText,
            Kind::OptionalLine,
            Kind::OptionalLine,
            Kind::Flag,
            Kind::Flag,
            Kind::Flag,
        ]),
        20 => Some(vec![]),
        21 => Some(vec![
            Kind::OptionalText,
            Kind::OptionalText,
            Kind::Flag,
            Kind::Flag,
            Kind::Flag,
            Kind::Flag,
            Kind::Flag,
            Kind::Flag,
            Kind::Flag,
            Kind::Flag,
        ]),
        22 => Some(vec![Kind::OptionalText, Kind::Text, Kind::Count]),
        23 => Some(vec![Kind::OptionalText, Kind::Text]),
        24 => Some(vec![Kind::OptionalText, Kind::Flag, Kind::Bytes, Kind::OptionalText]),
        25 => Some(vec![Kind::OptionalText]),
        26 => Some(vec![Kind::OptionalText, Kind::Text, Kind::Text]),
        27 => Some(vec![Kind::OptionalText, Kind::OptionalText]),
        28 => Some(vec![Kind::OptionalText]),
        29 => Some(vec![
            Kind::OptionalText,
            Kind::OptionalText,
            Kind::Flag,
            Kind::Flag,
            Kind::OptionalBytes,
            Kind::Flag,
        ]),
        30 => Some(vec![Kind::OptionalText, Kind::Bytes]),
        31 => Some(vec![Kind::OptionalText, Kind::OptionalText, Kind::Flag]),
        32 => Some(vec![
            Kind::OptionalText,
            Kind::OptionalScope,
            Kind::Text,
            Kind::Text,
            Kind::Flag,
        ]),
        33 => Some(vec![
            Kind::OptionalText,
            Kind::Direction,
            Kind::Amount,
            Kind::OptionalCells,
            Kind::Flag,
            Kind::Flag,
        ]),
        34 => Some(vec![
            Kind::OptionalText,
            Kind::OptionalText,
            Kind::OptionalDirection,
            Kind::Flag,
        ]),
        35 => Some(vec![
            Kind::OptionalText,
            Kind::OptionalText,
            Kind::OptionalText,
            Kind::Flag,
            Kind::OptionalText,
        ]),
        36 => Some(vec![
            Kind::OptionalText,
            Kind::OptionalText,
            Kind::Flag,
            Kind::Flag,
            Kind::Flag,
            Kind::OptionalText,
        ]),
        37 => Some(vec![
            Kind::OptionalText,
            Kind::Texts,
            Kind::OptionalText,
            Kind::Flag,
            Kind::Flag,
            Kind::Flag,
        ]),
        38 => Some(vec![Kind::OptionalText]),
        39 => Some(vec![Kind::OptionalText, Kind::Flag]),
        40 => Some(vec![Kind::OptionalText, Kind::OptionalText, Kind::Flag]),
        41 => Some(vec![
            Kind::OptionalText,
            Kind::OptionalText,
            Kind::Flag,
            Kind::Flag,
            Kind::Flag,
            Kind::Flag,
        ]),
        42 => Some(vec![Kind::OptionalText, Kind::OptionalText, Kind::Flag, Kind::Flag]),
        43 => Some(vec![Kind::OptionalText, Kind::Flag]),
        44 => Some(vec![
            Kind::OptionalText,
            Kind::Flag,
            Kind::Flag,
            Kind::Flag,
            Kind::Flag,
            Kind::Flag,
            Kind::Flag,
            Kind::OptionalText,
        ]),
        45 => Some(vec![Kind::Text, Kind::OptionalText, Kind::Flag]),
        46 => Some(vec![Kind::OptionalText, Kind::OptionalText]),
        47 => Some(vec![Kind::OptionalText, Kind::OptionalText, Kind::Flag]),
        48 => Some(vec![Kind::OptionalText]),
        49 => Some(vec![Kind::OptionalText, Kind::Flag]),
        50 => Some(vec![Kind::OptionalText, Kind::Text]),
        51 => Some(vec![Kind::OptionalText]),
        52 => Some(vec![Kind::Text, Kind::Flag, Kind::OptionalText]),
        53 => Some(vec![
            Kind::OptionalText,
            Kind::OptionalText,
            Kind::OptionalText,
            Kind::Text,
            Kind::Flag,
            Kind::Flag,
            Kind::Flag,
        ]),
        54 => Some(vec![
            Kind::OptionalText,
            Kind::OptionalText,
            Kind::OptionalText,
            Kind::Text,
            Kind::Flag,
            Kind::Flag,
        ]),
        55 => Some(vec![Kind::OptionalText, Kind::OptionalText, Kind::OptionalText, Kind::Flag]),
        56 => Some(vec![
            Kind::OptionalText,
            Kind::OptionalText,
            Kind::Flag,
            Kind::Flag,
            Kind::Texts,
            Kind::Flag,
        ]),
        _ => None,
    }
}

#[verifier::inline]
spec fn part(fields: Seq<FieldView>, index: int) -> Seq<u8> {
    wire::field_bytes(fields[index])
}

/// The bytes of a message with few fields, written out.
proof fn lemma_message_unfolds(tag: u8, fields: Seq<FieldView>)
    requires
        fields.len() <= 12,
    ensures
        fields.len() == 0 ==> wire::message_bytes(tag, fields) == seq![tag],
        fields.len() == 1 ==> wire::message_bytes(tag, fields) == seq![tag] + part(fields, 0),
        fields.len() == 2 ==> wire::message_bytes(tag, fields) == seq![tag] + part(fields, 0)
            + part(fields, 1),
        fields.len() == 3 ==> wire::message_bytes(tag, fields) == seq![tag] + part(fields, 0)
            + part(fields, 1) + part(fields, 2),
        fields.len() == 4 ==> wire::message_bytes(tag, fields) == seq![tag] + part(fields, 0)
            + part(fields, 1) + part(fields, 2) + part(fields, 3),
        fields.len() == 5 ==> wire::message_bytes(tag, fields) == seq![tag] + part(fields, 0)
            + part(fields, 1) + part(fields, 2) + part(fields, 3) + part(fields, 4),
        fields.len() == 6 ==> wire::message_bytes(tag, fields) == seq![tag] + part(fields, 0)
            + part(fields, 1) + part(fields, 2) + part(fields, 3) + part(fields, 4)
            + part(fields, 5),
        fields.len() == 7 ==> wire::message_bytes(tag, fields) == seq![tag] + part(fields, 0)
            + part(fields, 1) + part(fields, 2) + part(fields, 3) + part(fields, 4)
            + part(fields, 5) + part(fields, 6),
        fields.len() == 8 ==> wire::message_bytes(tag, fields) == seq![tag] + part(fields, 0)
            + part(fields, 1) + part(fields, 2) + part(fields, 3) + part(fields, 4)
            + part(fields, 5) + part(fields, 6) + part(fields, 7),
        fields.len() == 9 ==> wire::message_bytes(tag, fields) == seq![tag] + part(fields, 0)
            + part(fields, 1) + part(fields, 2) + part(fields, 3) + part(fields, 4)
            + part(fields, 5) + part(fields, 6) + part(fields, 7) + part(fields, 8),
        fields.len() == 10 ==> wire::message_bytes(tag, fields) == seq![tag] + part(fields, 0)
            + part(fields, 1) + part(fields, 2) + part(fields, 3) + part(fields, 4)
            + part(fields, 5) + part(fields, 6) + part(fields, 7) + part(fields, 8)
            + part(fields, 9),
        fields.len() == 11 ==> wire::message_bytes(tag, fields) == seq![tag] + part(fields, 0)
            + part(fields, 1) + part(fields, 2) + part(fields, 3) + part(fields, 4)
            + part(fields, 5) + part(fields, 6) + part(fields, 7) + part(fields, 8)
            + part(fields, 9) + part(fields, 10),
        fields.len() == 12 ==> wire::message_bytes(tag, fields) == seq![tag] + part(fields, 0)
            + part(fields, 1) + part(fields, 2) + part(fields, 3) + part(fields, 4)
            + part(fields, 5) + part(fields, 6) + part(fields, 7) + part(fields, 8)
            + part(fields, 9) + part(fields, 10) + part(fields, 11),
    decreases fields.len(),
{
    if fields.len() > 0 {
        lemma_message_unfolds(tag, fields.drop_last());
    }
}

/// The bytes of a request.
#[verifier::rlimit(60)]
#[verifier::spinoff_prover]
pub fn encode_request(request: &Request) -> (payload: Vec<u8>)
    ensures
        payload@ == wire::message_bytes(request_tag(*request), request_fields(request@)),
{
    let mut payload: Vec<u8> = Vec::new();
    match request {
        RequestOf::NewSession {
            name,
            detached,
            attach_existing,
            group_target,
            format,
            window_name,
            empty,
            command,
            cwd,
            size,
        } => {
            payload.push(1);
            put_optional_string(&mut payload, name);
            put_bool(&mut payload, *detached);
            put_bool(&mut payload, *attach_existing);
            put_optional_string(&mut payload, group_target);
            put_optional_string(&mut payload, format);
            put_optional_string(&mut payload, window_name);
            put_bool(&mut payload, *empty);
            put_strings(&mut payload, command.as_slice());
            put_optional_string(&mut payload, cwd);
            put_size(&mut payload, *size);
            proof {
                lemma_message_unfolds(1, request_fields(request@));
            }
            assert(payload@ == wire::message_bytes(1, request_fields(request@)));
        },
        RequestOf::Attach { target, size } => {
            payload.push(2);
            put_optional_string(&mut payload, target);
            put_size(&mut payload, *size);
            proof {
                lemma_message_unfolds(2, request_fields(request@));
            }
            assert(payload@ == wire::message_bytes(2, request_fields(request@)));
        },
        RequestOf::ListSessions { format } => {
            payload.push(3);
            put_optional_string(&mut payload, format);
            proof {
                lemma_message_unfolds(3, request_fields(request@));
            }
            assert(payload@ == wire::message_bytes(3, request_fields(request@)));
        },
        RequestOf::HasSession { target } => {
            payload.push(4);
            put_string(&mut payload, target.as_str());
            proof {
                lemma_message_unfolds(4, request_fields(request@));
            }
            assert(payload@ == wire::message_bytes(4, request_fields(request@)));
        },
        RequestOf::KillSession { target, all } => {
            payload.push(5);
            put_optional_string(&mut payload, target);
            put_bool(&mut payload, *all);
            proof {
                lemma_message_unfolds(5, request_fields(request@));
            }
            assert(payload@ == wire::message_bytes(5, request_fields(request@)));
        },
        RequestOf::NewWindow {
            target,
            name,
            detached,
            empty,
            index,
            force,
            format,
            after,
            before,
            select_existing,
            command,
            cwd,
        } => {
            payload.push(6);
            put_optional_string(&mut payload, target);
            put_optional_string(&mut payload, name);
            put_bool(&mut payload, *detached);
            put_bool(&mut payload, *empty);
            put_optional_u32(&mut payload, *index);
            put_bool(&mut payload, *force);
            put_optional_string(&mut payload, format);
            put_bool(&mut payload, *after);
            put_bool(&mut payload, *before);
            put_bool(&mut payload, *select_existing);
            put_strings(&mut payload, command.as_slice());
            put_optional_string(&mut payload, cwd);
            proof {
                lemma_message_unfolds(6, request_fields(request@));
            }
            assert(payload@ == wire::message_bytes(6, request_fields(request@)));
        },
        RequestOf::SplitWindow {
            target,
            horizontal,
            before,
            full,
            detached,
            empty,
            zoom,
            size,
            command,
            cwd,
        } => {
            payload.push(7);
            put_optional_string(&mut payload, target);
            put_bool(&mut payload, *horizontal);
            put_bool(&mut payload, *before);
            put_bool(&mut payload, *full);
            put_bool(&mut payload, *detached);
            put_bool(&mut payload, *empty);
            put_bool(&mut payload, *zoom);
            put_optional_string(&mut payload, size);
            put_strings(&mut payload, command.as_slice());
            put_optional_string(&mut payload, cwd);
            proof {
                lemma_message_unfolds(7, request_fields(request@));
            }
            assert(payload@ == wire::message_bytes(7, request_fields(request@)));
        },
        RequestOf::ListWindows { target, format } => {
            payload.push(8);
            put_optional_string(&mut payload, target);
            put_optional_string(&mut payload, format);
            proof {
                lemma_message_unfolds(8, request_fields(request@));
            }
            assert(payload@ == wire::message_bytes(8, request_fields(request@)));
        },
        RequestOf::ListPanes { target, format } => {
            payload.push(9);
            put_optional_string(&mut payload, target);
            put_optional_string(&mut payload, format);
            proof {
                lemma_message_unfolds(9, request_fields(request@));
            }
            assert(payload@ == wire::message_bytes(9, request_fields(request@)));
        },
        RequestOf::SelectWindow { target } => {
            payload.push(10);
            put_string(&mut payload, target.as_str());
            proof {
                lemma_message_unfolds(10, request_fields(request@));
            }
            assert(payload@ == wire::message_bytes(10, request_fields(request@)));
        },
        RequestOf::NextWindow { target } => {
            payload.push(11);
            put_optional_string(&mut payload, target);
            proof {
                lemma_message_unfolds(11, request_fields(request@));
            }
            assert(payload@ == wire::message_bytes(11, request_fields(request@)));
        },
        RequestOf::PreviousWindow { target } => {
            payload.push(12);
            put_optional_string(&mut payload, target);
            proof {
                lemma_message_unfolds(12, request_fields(request@));
            }
            assert(payload@ == wire::message_bytes(12, request_fields(request@)));
        },
        RequestOf::RenameSession { target, name } => {
            payload.push(13);
            put_optional_string(&mut payload, target);
            put_string(&mut payload, name.as_str());
            proof {
                lemma_message_unfolds(13, request_fields(request@));
            }
            assert(payload@ == wire::message_bytes(13, request_fields(request@)));
        },
        RequestOf::RenameWindow { target, name } => {
            payload.push(14);
            put_optional_string(&mut payload, target);
            put_string(&mut payload, name.as_str());
            proof {
                lemma_message_unfolds(14, request_fields(request@));
            }
            assert(payload@ == wire::message_bytes(14, request_fields(request@)));
        },
        RequestOf::KillWindow { target, all } => {
            payload.push(15);
            put_optional_string(&mut payload, target);
            put_bool(&mut payload, *all);
            proof {
                lemma_message_unfolds(15, request_fields(request@));
            }
            assert(payload@ == wire::message_bytes(15, request_fields(request@)));
        },
        RequestOf::SelectPane { target, direction, mark, title, enabled } => {
            payload.push(16);
            put_optional_string(&mut payload, target);
            put_direction(&mut payload, *direction);
            put_optional_bool(&mut payload, *mark);
            put_optional_string(&mut payload, title);
            put_optional_bool(&mut payload, *enabled);
            proof {
                lemma_message_unfolds(16, request_fields(request@));
            }
            assert(payload@ == wire::message_bytes(16, request_fields(request@)));
        },
        RequestOf::KillPane { target, all, filter } => {
            payload.push(17);
            put_optional_string(&mut payload, target);
            put_bool(&mut payload, *all);
            put_optional_string(&mut payload, filter);
            proof {
                lemma_message_unfolds(17, request_fields(request@));
            }
            assert(payload@ == wire::message_bytes(17, request_fields(request@)));
        },
        RequestOf::SendKeys { target, bytes, reset } => {
            payload.push(18);
            put_optional_string(&mut payload, target);
            put_bytes(&mut payload, bytes.as_slice());
            put_bool(&mut payload, *reset);
            proof {
                lemma_message_unfolds(18, request_fields(request@));
            }
            assert(payload@ == wire::message_bytes(18, request_fields(request@)));
        },
        RequestOf::CapturePane { target, start, end, escape, join, preserve_trailing } => {
            payload.push(19);
            put_optional_string(&mut payload, target);
            put_optional_i32(&mut payload, *start);
            put_optional_i32(&mut payload, *end);
            put_bool(&mut payload, *escape);
            put_bool(&mut payload, *join);
            put_bool(&mut payload, *preserve_trailing);
            proof {
                lemma_message_unfolds(19, request_fields(request@));
            }
            assert(payload@ == wire::message_bytes(19, request_fields(request@)));
        },
        RequestOf::KillServer => {
            payload.push(20);
            proof {
                lemma_message_unfolds(20, request_fields(request@));
            }
            assert(payload@ == wire::message_bytes(20, request_fields(request@)));
        },
        RequestOf::CopyMode {
            target,
            source,
            exit_on_scroll,
            hide_position,
            kill_on_exit,
            page,
            page_down,
            reset,
            mouse_start,
            scroll_to_mouse,
        } => {
            payload.push(21);
            put_optional_string(&mut payload, target);
            put_optional_string(&mut payload, source);
            put_bool(&mut payload, *exit_on_scroll);
            put_bool(&mut payload, *hide_position);
            put_bool(&mut payload, *kill_on_exit);
            put_bool(&mut payload, *page);
            put_bool(&mut payload, *page_down);
            put_bool(&mut payload, *reset);
            put_bool(&mut payload, *mouse_start);
            put_bool(&mut payload, *scroll_to_mouse);
            proof {
                lemma_message_unfolds(21, request_fields(request@));
            }
            assert(payload@ == wire::message_bytes(21, request_fields(request@)));
        },
        RequestOf::CopyModeCommand { target, action, repeat } => {
            payload.push(22);
            put_optional_string(&mut payload, target);
            put_string(&mut payload, action.as_str());
            put_u32(&mut payload, *repeat);
            proof {
                lemma_message_unfolds(22, request_fields(request@));
            }
            assert(payload@ == wire::message_bytes(22, request_fields(request@)));
        },
        RequestOf::ChooseTree {
            target,
            filter,
            format,
            sort,
            reverse,
            hide_source,
            kill_on_exit,
        } => {
            payload.push(53);
            put_optional_string(&mut payload, target);
            put_optional_string(&mut payload, filter);
            put_optional_string(&mut payload, format);
            put_string(&mut payload, sort.as_str());
            put_bool(&mut payload, *reverse);
            put_bool(&mut payload, *hide_source);
            put_bool(&mut payload, *kill_on_exit);
            proof {
                lemma_message_unfolds(53, request_fields(request@));
            }
            assert(payload@ == wire::message_bytes(53, request_fields(request@)));
        },
        RequestOf::ChooseBuffer { target, filter, format, sort, reverse, kill_on_exit } => {
            payload.push(54);
            put_optional_string(&mut payload, target);
            put_optional_string(&mut payload, filter);
            put_optional_string(&mut payload, format);
            put_string(&mut payload, sort.as_str());
            put_bool(&mut payload, *reverse);
            put_bool(&mut payload, *kill_on_exit);
            proof {
                lemma_message_unfolds(54, request_fields(request@));
            }
            assert(payload@ == wire::message_bytes(54, request_fields(request@)));
        },
        RequestOf::ChooseClient { target, filter, format, kill_on_exit } => {
            payload.push(55);
            put_optional_string(&mut payload, target);
            put_optional_string(&mut payload, filter);
            put_optional_string(&mut payload, format);
            put_bool(&mut payload, *kill_on_exit);
            proof {
                lemma_message_unfolds(55, request_fields(request@));
            }
            assert(payload@ == wire::message_bytes(55, request_fields(request@)));
        },
        RequestOf::DisplayPanes { target, source, no_zoom, no_mode, command, kill_on_exit } => {
            payload.push(56);
            put_optional_string(&mut payload, target);
            put_optional_string(&mut payload, source);
            put_bool(&mut payload, *no_zoom);
            put_bool(&mut payload, *no_mode);
            put_strings(&mut payload, command.as_slice());
            put_bool(&mut payload, *kill_on_exit);
            proof {
                lemma_message_unfolds(56, request_fields(request@));
            }
            assert(payload@ == wire::message_bytes(56, request_fields(request@)));
        },
        RequestOf::DisplayMessage { target, format } => {
            payload.push(23);
            put_optional_string(&mut payload, target);
            put_string(&mut payload, format.as_str());
            proof {
                lemma_message_unfolds(23, request_fields(request@));
            }
            assert(payload@ == wire::message_bytes(23, request_fields(request@)));
        },
        RequestOf::SetBuffer { name, append, data, rename } => {
            payload.push(24);
            put_optional_string(&mut payload, name);
            put_bool(&mut payload, *append);
            put_bytes(&mut payload, data.as_slice());
            put_optional_string(&mut payload, rename);
            proof {
                lemma_message_unfolds(24, request_fields(request@));
            }
            assert(payload@ == wire::message_bytes(24, request_fields(request@)));
        },
        RequestOf::ShowBuffer { name } => {
            payload.push(25);
            put_optional_string(&mut payload, name);
            proof {
                lemma_message_unfolds(25, request_fields(request@));
            }
            assert(payload@ == wire::message_bytes(25, request_fields(request@)));
        },
        RequestOf::ListBuffers { format, filter } => {
            payload.push(27);
            put_optional_string(&mut payload, format);
            put_optional_string(&mut payload, filter);
            proof {
                lemma_message_unfolds(27, request_fields(request@));
            }
            assert(payload@ == wire::message_bytes(27, request_fields(request@)));
        },
        RequestOf::DeleteBuffer { name } => {
            payload.push(28);
            put_optional_string(&mut payload, name);
            proof {
                lemma_message_unfolds(28, request_fields(request@));
            }
            assert(payload@ == wire::message_bytes(28, request_fields(request@)));
        },
        RequestOf::PasteBuffer { target, name, raw, bracketed, separator, delete } => {
            payload.push(29);
            put_optional_string(&mut payload, target);
            put_optional_string(&mut payload, name);
            put_bool(&mut payload, *raw);
            put_bool(&mut payload, *bracketed);
            put_optional_bytes(&mut payload, separator);
            put_bool(&mut payload, *delete);
            proof {
                lemma_message_unfolds(29, request_fields(request@));
            }
            assert(payload@ == wire::message_bytes(29, request_fields(request@)));
        },
        RequestOf::LoadBuffer { name, data } => {
            payload.push(30);
            put_optional_string(&mut payload, name);
            put_bytes(&mut payload, data.as_slice());
            proof {
                lemma_message_unfolds(30, request_fields(request@));
            }
            assert(payload@ == wire::message_bytes(30, request_fields(request@)));
        },
        RequestOf::SaveBuffer { name, path, append } => {
            payload.push(31);
            put_optional_string(&mut payload, name);
            put_optional_string(&mut payload, path);
            put_bool(&mut payload, *append);
            proof {
                lemma_message_unfolds(31, request_fields(request@));
            }
            assert(payload@ == wire::message_bytes(31, request_fields(request@)));
        },
        RequestOf::SetOption { target, scope, key, value, unset } => {
            payload.push(32);
            put_optional_string(&mut payload, target);
            put_optional_scope(&mut payload, *scope);
            put_string(&mut payload, key.as_str());
            put_string(&mut payload, value.as_str());
            put_bool(&mut payload, *unset);
            proof {
                lemma_message_unfolds(32, request_fields(request@));
            }
            assert(payload@ == wire::message_bytes(32, request_fields(request@)));
        },
        RequestOf::ResizePane { target, direction, amount, absolute, absolute_percent, zoom } => {
            payload.push(33);
            put_optional_string(&mut payload, target);
            put_direction(&mut payload, *direction);
            put_i32(&mut payload, *amount);
            put_optional_u16(&mut payload, *absolute);
            put_bool(&mut payload, *absolute_percent);
            put_bool(&mut payload, *zoom);
            proof {
                lemma_message_unfolds(33, request_fields(request@));
            }
            assert(payload@ == wire::message_bytes(33, request_fields(request@)));
        },
        RequestOf::SwapPane { source, target, direction, detached } => {
            payload.push(34);
            put_optional_string(&mut payload, source);
            put_optional_string(&mut payload, target);
            put_optional_direction(&mut payload, *direction);
            put_bool(&mut payload, *detached);
            proof {
                lemma_message_unfolds(34, request_fields(request@));
            }
            assert(payload@ == wire::message_bytes(34, request_fields(request@)));
        },
        RequestOf::BreakPane { source, target, name, detached, format } => {
            payload.push(35);
            put_optional_string(&mut payload, source);
            put_optional_string(&mut payload, target);
            put_optional_string(&mut payload, name);
            put_bool(&mut payload, *detached);
            put_optional_string(&mut payload, format);
            proof {
                lemma_message_unfolds(35, request_fields(request@));
            }
            assert(payload@ == wire::message_bytes(35, request_fields(request@)));
        },
        RequestOf::JoinPane { source, target, horizontal, before, detached, size } => {
            payload.push(36);
            put_optional_string(&mut payload, source);
            put_optional_string(&mut payload, target);
            put_bool(&mut payload, *horizontal);
            put_bool(&mut payload, *before);
            put_bool(&mut payload, *detached);
            put_optional_string(&mut payload, size);
            proof {
                lemma_message_unfolds(36, request_fields(request@));
            }
            assert(payload@ == wire::message_bytes(36, request_fields(request@)));
        },
        RequestOf::RespawnPane { target, command, cwd, kill, empty, window } => {
            payload.push(37);
            put_optional_string(&mut payload, target);
            put_strings(&mut payload, command.as_slice());
            put_optional_string(&mut payload, cwd);
            put_bool(&mut payload, *kill);
            put_bool(&mut payload, *empty);
            put_bool(&mut payload, *window);
            proof {
                lemma_message_unfolds(37, request_fields(request@));
            }
            assert(payload@ == wire::message_bytes(37, request_fields(request@)));
        },
        RequestOf::ClearHistory { target } => {
            payload.push(38);
            put_optional_string(&mut payload, target);
            proof {
                lemma_message_unfolds(38, request_fields(request@));
            }
            assert(payload@ == wire::message_bytes(38, request_fields(request@)));
        },
        RequestOf::SetWindowOption { target, key, value } => {
            payload.push(26);
            put_optional_string(&mut payload, target);
            put_string(&mut payload, key.as_str());
            put_string(&mut payload, value.as_str());
            proof {
                lemma_message_unfolds(26, request_fields(request@));
            }
            assert(payload@ == wire::message_bytes(26, request_fields(request@)));
        },
        RequestOf::RotateWindow { target, up } => {
            payload.push(39);
            put_optional_string(&mut payload, target);
            put_bool(&mut payload, *up);
            proof {
                lemma_message_unfolds(39, request_fields(request@));
            }
            assert(payload@ == wire::message_bytes(39, request_fields(request@)));
        },
        RequestOf::SwapWindow { source, target, detached } => {
            payload.push(40);
            put_optional_string(&mut payload, source);
            put_optional_string(&mut payload, target);
            put_bool(&mut payload, *detached);
            proof {
                lemma_message_unfolds(40, request_fields(request@));
            }
            assert(payload@ == wire::message_bytes(40, request_fields(request@)));
        },
        RequestOf::MoveWindow { source, target, after, detached, force, renumber } => {
            payload.push(41);
            put_optional_string(&mut payload, source);
            put_optional_string(&mut payload, target);
            put_bool(&mut payload, *after);
            put_bool(&mut payload, *detached);
            put_bool(&mut payload, *force);
            put_bool(&mut payload, *renumber);
            proof {
                lemma_message_unfolds(41, request_fields(request@));
            }
            assert(payload@ == wire::message_bytes(41, request_fields(request@)));
        },
        RequestOf::LinkWindow { source, target, detached, force } => {
            payload.push(42);
            put_optional_string(&mut payload, source);
            put_optional_string(&mut payload, target);
            put_bool(&mut payload, *detached);
            put_bool(&mut payload, *force);
            proof {
                lemma_message_unfolds(42, request_fields(request@));
            }
            assert(payload@ == wire::message_bytes(42, request_fields(request@)));
        },
        RequestOf::UnlinkWindow { target, force } => {
            payload.push(43);
            put_optional_string(&mut payload, target);
            put_bool(&mut payload, *force);
            proof {
                lemma_message_unfolds(43, request_fields(request@));
            }
            assert(payload@ == wire::message_bytes(43, request_fields(request@)));
        },
        RequestOf::ShowOptions { target, global, window, pane, value, all, quiet, key } => {
            payload.push(44);
            put_optional_string(&mut payload, target);
            put_bool(&mut payload, *global);
            put_bool(&mut payload, *window);
            put_bool(&mut payload, *pane);
            put_bool(&mut payload, *value);
            put_bool(&mut payload, *all);
            put_bool(&mut payload, *quiet);
            put_optional_string(&mut payload, key);
            proof {
                lemma_message_unfolds(44, request_fields(request@));
            }
            assert(payload@ == wire::message_bytes(44, request_fields(request@)));
        },
        RequestOf::SetEnvironment { name, value, remove } => {
            payload.push(45);
            put_string(&mut payload, name.as_str());
            put_optional_string(&mut payload, value);
            put_bool(&mut payload, *remove);
            proof {
                lemma_message_unfolds(45, request_fields(request@));
            }
            assert(payload@ == wire::message_bytes(45, request_fields(request@)));
        },
        RequestOf::ShowEnvironment { format, name } => {
            payload.push(46);
            put_optional_string(&mut payload, format);
            put_optional_string(&mut payload, name);
            proof {
                lemma_message_unfolds(46, request_fields(request@));
            }
            assert(payload@ == wire::message_bytes(46, request_fields(request@)));
        },
        RequestOf::PipePane { target, command, toggle } => {
            payload.push(47);
            put_optional_string(&mut payload, target);
            put_optional_string(&mut payload, command);
            put_bool(&mut payload, *toggle);
            proof {
                lemma_message_unfolds(47, request_fields(request@));
            }
            assert(payload@ == wire::message_bytes(47, request_fields(request@)));
        },
        RequestOf::ListClients { format } => {
            payload.push(48);
            put_optional_string(&mut payload, format);
            proof {
                lemma_message_unfolds(48, request_fields(request@));
            }
            assert(payload@ == wire::message_bytes(48, request_fields(request@)));
        },
        RequestOf::DetachClient { target, all } => {
            payload.push(49);
            put_optional_string(&mut payload, target);
            put_bool(&mut payload, *all);
            proof {
                lemma_message_unfolds(49, request_fields(request@));
            }
            assert(payload@ == wire::message_bytes(49, request_fields(request@)));
        },
        RequestOf::SwitchClient { client, session } => {
            payload.push(50);
            put_optional_string(&mut payload, client);
            put_string(&mut payload, session.as_str());
            proof {
                lemma_message_unfolds(50, request_fields(request@));
            }
            assert(payload@ == wire::message_bytes(50, request_fields(request@)));
        },
        RequestOf::RefreshClient { target } => {
            payload.push(51);
            put_optional_string(&mut payload, target);
            proof {
                lemma_message_unfolds(51, request_fields(request@));
            }
            assert(payload@ == wire::message_bytes(51, request_fields(request@)));
        },
        RequestOf::RunShell { command, background, target } => {
            payload.push(52);
            put_string(&mut payload, command.as_str());
            put_bool(&mut payload, *background);
            put_optional_string(&mut payload, target);
            proof {
                lemma_message_unfolds(52, request_fields(request@));
            }
            assert(payload@ == wire::message_bytes(52, request_fields(request@)));
        },
    }
    payload
}
} // verus!
