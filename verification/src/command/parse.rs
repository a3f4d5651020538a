//! The command line as a whole.

use vstd::prelude::*;

use crate::command::invocation::{self, Expected, InvocationSpec, InvocationView, Source};
use crate::command::items;
use crate::command::options::{self, options, scan, Dashes, Grammar, Operands, ScanView};
use crate::command::{buffer, chooser, client, keys, pane, session, setting, window};
use crate::protocol::request::{Request, RequestOf, RequestView};
use crate::protocol::wire;
use crate::text::{self, concat, same_text, strings_from};

verus! {

pub open spec fn usage_text() -> Seq<char> {
    "usage: tm [-S socket] [command]\n\ncommands: sessions/clients, new/split/new-pane/resize/swap/break/join/respawn, select/kill/rename, send-keys, capture-pane, copy-mode, choose-tree/choose-buffer/choose-client, buffers, options, run-shell, attach/detach/switch, kill-server"@
}

pub fn usage() -> (text: &'static str)
    ensures
        text@ == usage_text(),
{
    "usage: tm [-S socket] [command]\n\ncommands: sessions/clients, new/split/new-pane/resize/swap/break/join/respawn, select/kill/rename, send-keys, capture-pane, copy-mode, choose-tree/choose-buffer/choose-client, buffers, options, run-shell, attach/detach/switch, kill-server"
}

/// What a command with its arguments stands for.
pub open spec fn command_invocation(
    name: Seq<char>,
    rest: Seq<Seq<char>>,
    cwd: Option<Seq<char>>,
) -> Expected {
    if name == "new-session"@ || name == "new"@ {
        session::new_session_invocation(rest, cwd)
    } else if name == "attach-session"@ || name == "attach"@ || name == "a"@ {
        session::attach_invocation(rest)
    } else if name == "detach-client"@ || name == "detach"@ {
        client::detach_client_invocation(rest)
    } else if name == "switch-client"@ || name == "switchc"@ {
        client::switch_client_invocation(rest)
    } else if name == "refresh-client"@ || name == "refreshc"@ {
        client::refresh_client_invocation(rest)
    } else if name == "run-shell"@ || name == "run"@ {
        client::run_shell_invocation(rest)
    } else if name == "list-sessions"@ || name == "ls"@ {
        session::list_sessions_invocation(rest)
    } else if name == "list-clients"@ || name == "lsc"@ {
        client::list_clients_invocation(rest)
    } else if name == "has-session"@ || name == "has"@ {
        match session::target_required_in(rest) {
            Ok(target) => invocation::plainly(RequestOf::HasSession { target }),
            Err(error) => Err(error),
        }
    } else if name == "kill-session"@ || name == "kill"@ {
        session::kill_session_invocation(rest)
    } else if name == "new-window"@ || name == "neww"@ {
        window::new_window_invocation(rest)
    } else if name == "split-window"@ || name == "splitw"@ || name == "split"@ || name
        == "new-pane"@ || name == "newp"@ {
        window::split_window_invocation(rest)
    } else if name == "resize-pane"@ || name == "resizep"@ {
        pane::resize_pane_invocation(rest)
    } else if name == "swap-pane"@ || name == "swapp"@ {
        pane::swap_pane_invocation(rest)
    } else if name == "break-pane"@ || name == "breakp"@ {
        pane::break_pane_invocation(rest)
    } else if name == "join-pane"@ || name == "joinp"@ || name == "move-pane"@ || name == "movep"@ {
        pane::join_pane_invocation(rest)
    } else if name == "respawn-pane"@ || name == "respawnp"@ {
        window::respawn_invocation(rest, false)
    } else if name == "respawn-window"@ || name == "respawnw"@ {
        window::respawn_invocation(rest, true)
    } else if name == "clear-history"@ || name == "clearhist"@ {
        match session::target_in(rest) {
            Ok(target) => invocation::plainly(RequestOf::ClearHistory { target }),
            Err(error) => Err(error),
        }
    } else if name == "rotate-window"@ || name == "rotatew"@ {
        window::rotate_window_invocation(rest)
    } else if name == "swap-window"@ || name == "swapw"@ {
        window::swap_window_invocation(rest)
    } else if name == "move-window"@ || name == "movew"@ {
        window::move_window_invocation(rest)
    } else if name == "link-window"@ || name == "linkw"@ {
        window::link_window_invocation(rest)
    } else if name == "unlink-window"@ || name == "unlinkw"@ {
        window::unlink_window_invocation(rest)
    } else if name == "list-windows"@ || name == "lsw"@ {
        window::list_windows_invocation(rest)
    } else if name == "list-panes"@ || name == "lsp"@ {
        pane::list_panes_invocation(rest)
    } else if name == "select-window"@ || name == "selectw"@ {
        window::select_window_invocation(rest)
    } else if name == "last-window"@ || name == "last"@ {
        invocation::plainly(RequestOf::SelectWindow { target: "!"@ })
    } else if name == "next-window"@ || name == "next"@ {
        match session::target_in(rest) {
            Ok(target) => invocation::plainly(RequestOf::NextWindow { target }),
            Err(error) => Err(error),
        }
    } else if name == "previous-window"@ || name == "prev"@ {
        match session::target_in(rest) {
            Ok(target) => invocation::plainly(RequestOf::PreviousWindow { target }),
            Err(error) => Err(error),
        }
    } else if name == "rename-session"@ || name == "rename"@ {
        match session::target_and_name_in(rest) {
            Ok((target, name)) => invocation::plainly(RequestOf::RenameSession { target, name }),
            Err(error) => Err(error),
        }
    } else if name == "rename-window"@ || name == "renamew"@ {
        match session::target_and_name_in(rest) {
            Ok((target, name)) => invocation::plainly(RequestOf::RenameWindow { target, name }),
            Err(error) => Err(error),
        }
    } else if name == "kill-window"@ || name == "killw"@ {
        window::kill_window_invocation(rest)
    } else if name == "select-pane"@ || name == "selectp"@ {
        pane::select_pane_invocation(rest)
    } else if name == "kill-pane"@ || name == "killp"@ {
        pane::kill_pane_invocation(rest)
    } else if name == "send-keys"@ || name == "send"@ {
        keys::send_keys_invocation(rest)
    } else if name == "send-prefix"@ {
        match session::target_in(rest) {
            Ok(target) => invocation::plainly(
                RequestOf::SendKeys { target, bytes: seq![2u8], reset: false },
            ),
            Err(error) => Err(error),
        }
    } else if name == "capture-pane"@ || name == "capturep"@ {
        pane::capture_pane_invocation(rest)
    } else if name == "copy-mode"@ {
        pane::copy_mode_invocation(rest, false)
    } else if name == "copy-mode-and-page"@ {
        pane::copy_mode_invocation(rest, true)
    } else if name == "display-panes"@ {
        pane::display_panes_invocation(rest)
    } else if name == "choose-tree"@ || name == "choose"@ {
        chooser::choose_tree_invocation(rest)
    } else if name == "choose-buffer"@ || name == "chooseb"@ {
        chooser::choose_buffer_invocation(rest)
    } else if name == "choose-client"@ || name == "choosec"@ {
        chooser::choose_client_invocation(rest)
    } else if name == "display-message"@ || name == "display"@ {
        setting::display_message_invocation(rest)
    } else if name == "set-buffer"@ || name == "setb"@ {
        buffer::set_buffer_invocation(rest)
    } else if name == "show-buffer"@ || name == "showb"@ {
        match buffer::buffer_name_in(rest) {
            Ok(name) => invocation::plainly(RequestOf::ShowBuffer { name }),
            Err(error) => Err(error),
        }
    } else if name == "list-buffers"@ || name == "lsb"@ {
        buffer::list_buffers_invocation(rest)
    } else if name == "delete-buffer"@ || name == "deleteb"@ {
        buffer::delete_buffer_invocation(rest)
    } else if name == "paste-buffer"@ || name == "pasteb"@ || name == "paste"@ {
        buffer::paste_buffer_invocation(rest)
    } else if name == "load-buffer"@ || name == "loadb"@ {
        buffer::load_buffer_invocation(rest)
    } else if name == "save-buffer"@ || name == "saveb"@ {
        buffer::save_buffer_invocation(rest)
    } else if name == "set-window-option"@ || name == "setw"@ {
        setting::set_window_option_invocation(rest)
    } else if name == "set-option"@ || name == "set"@ {
        setting::set_option_invocation(rest)
    } else if name == "show-options"@ || name == "show"@ {
        setting::show_options_invocation(rest, false)
    } else if name == "show-window-options"@ || name == "showw"@ {
        setting::show_options_invocation(rest, true)
    } else if name == "set-environment"@ || name == "setenv"@ {
        setting::set_environment_invocation(rest)
    } else if name == "show-environment"@ || name == "showenv"@ {
        setting::show_environment_invocation(rest)
    } else if name == "pipe-pane"@ || name == "pipep"@ {
        pane::pipe_pane_invocation(rest)
    } else if name == "kill-server"@ {
        invocation::plainly(RequestOf::KillServer)
    } else if name == "help"@ || name == "-h"@ || name == "--help"@ {
        Err(usage_text())
    } else {
        Err("unknown command: "@ + name + "\n\n"@ + usage_text())
    }
}

/// Whether a command is the one that sends keys.
pub open spec fn is_send_keys(name: Seq<char>) -> bool {
    name == "send-keys"@ || name == "send"@
}

pub fn parse_command(name: &str, rest: &[String], cwd: Option<String>) -> (result: Result<
    InvocationSpec,
    String,
>)
    requires
        is_send_keys(name@) ==> keys::sends_keys_only(text::texts(rest@)),
    ensures
        invocation::answers(
            result,
            command_invocation(name@, text::texts(rest@), wire::text_view(cwd)),
        ),
{
    if same_text(name, "new-session") || same_text(name, "new") {
        session::parse_new_session(rest, cwd)
    } else if same_text(name, "attach-session") || same_text(name, "attach") || same_text(
        name,
        "a",
    ) {
        session::parse_attach(rest)
    } else if same_text(name, "detach-client") || same_text(name, "detach") {
        client::parse_detach_client(rest)
    } else if same_text(name, "switch-client") || same_text(name, "switchc") {
        client::parse_switch_client(rest)
    } else if same_text(name, "refresh-client") || same_text(name, "refreshc") {
        client::parse_refresh_client(rest)
    } else if same_text(name, "run-shell") || same_text(name, "run") {
        client::parse_run_shell(rest)
    } else if same_text(name, "list-sessions") || same_text(name, "ls") {
        session::parse_list_sessions(rest)
    } else if same_text(name, "list-clients") || same_text(name, "lsc") {
        client::parse_list_clients(rest)
    } else if same_text(name, "has-session") || same_text(name, "has") {
        match session::required_target(rest) {
            Ok(target) => Ok(InvocationSpec::plain(RequestOf::HasSession { target })),
            Err(error) => Err(error),
        }
    } else if same_text(name, "kill-session") || same_text(name, "kill") {
        session::parse_kill_session(rest)
    } else if same_text(name, "new-window") || same_text(name, "neww") {
        window::parse_new_window(rest)
    } else if same_text(name, "split-window") || same_text(name, "splitw") || same_text(
        name,
        "split",
    ) || same_text(name, "new-pane") || same_text(name, "newp") {
        window::parse_split_window(rest)
    } else if same_text(name, "resize-pane") || same_text(name, "resizep") {
        pane::parse_resize_pane(rest)
    } else if same_text(name, "swap-pane") || same_text(name, "swapp") {
        pane::parse_swap_pane(rest)
    } else if same_text(name, "break-pane") || same_text(name, "breakp") {
        pane::parse_break_pane(rest)
    } else if same_text(name, "join-pane") || same_text(name, "joinp") || same_text(
        name,
        "move-pane",
    ) || same_text(name, "movep") {
        pane::parse_join_pane(rest)
    } else if same_text(name, "respawn-pane") || same_text(name, "respawnp") {
        window::parse_respawn(rest, false)
    } else if same_text(name, "respawn-window") || same_text(name, "respawnw") {
        window::parse_respawn(rest, true)
    } else if same_text(name, "clear-history") || same_text(name, "clearhist") {
        match session::optional_target(rest) {
            Ok(target) => Ok(InvocationSpec::plain(RequestOf::ClearHistory { target })),
            Err(error) => Err(error),
        }
    } else if same_text(name, "rotate-window") || same_text(name, "rotatew") {
        window::parse_rotate_window(rest)
    } else if same_text(name, "swap-window") || same_text(name, "swapw") {
        window::parse_swap_window(rest)
    } else if same_text(name, "move-window") || same_text(name, "movew") {
        window::parse_move_window(rest)
    } else if same_text(name, "link-window") || same_text(name, "linkw") {
        window::parse_link_window(rest)
    } else if same_text(name, "unlink-window") || same_text(name, "unlinkw") {
        window::parse_unlink_window(rest)
    } else if same_text(name, "list-windows") || same_text(name, "lsw") {
        window::parse_list_windows(rest)
    } else if same_text(name, "list-panes") || same_text(name, "lsp") {
        pane::parse_list_panes(rest)
    } else if same_text(name, "select-window") || same_text(name, "selectw") {
        window::parse_select_window(rest)
    } else if same_text(name, "last-window") || same_text(name, "last") {
        Ok(InvocationSpec::plain(RequestOf::SelectWindow { target: "!".to_owned() }))
    } else if same_text(name, "next-window") || same_text(name, "next") {
        match session::optional_target(rest) {
            Ok(target) => Ok(InvocationSpec::plain(RequestOf::NextWindow { target })),
            Err(error) => Err(error),
        }
    } else if same_text(name, "previous-window") || same_text(name, "prev") {
        match session::optional_target(rest) {
            Ok(target) => Ok(InvocationSpec::plain(RequestOf::PreviousWindow { target })),
            Err(error) => Err(error),
        }
    } else if same_text(name, "rename-session") || same_text(name, "rename") {
        match session::target_and_name(rest) {
            Ok((target, name)) => Ok(InvocationSpec::plain(RequestOf::RenameSession { target, name })),
            Err(error) => Err(error),
        }
    } else if same_text(name, "rename-window") || same_text(name, "renamew") {
        match session::target_and_name(rest) {
            Ok((target, name)) => Ok(InvocationSpec::plain(RequestOf::RenameWindow { target, name })),
            Err(error) => Err(error),
        }
    } else if same_text(name, "kill-window") || same_text(name, "killw") {
        window::parse_kill_window(rest)
    } else if same_text(name, "select-pane") || same_text(name, "selectp") {
        pane::parse_select_pane(rest)
    } else if same_text(name, "kill-pane") || same_text(name, "killp") {
        pane::parse_kill_pane(rest)
    } else if same_text(name, "send-keys") || same_text(name, "send") {
        keys::parse_send_keys(rest)
    } else if same_text(name, "send-prefix") {
        match session::optional_target(rest) {
            Ok(target) => {
                let mut bytes: Vec<u8> = Vec::new();
                bytes.push(2);
                assert(bytes@ =~= seq![2u8]);
                Ok(InvocationSpec::plain(RequestOf::SendKeys { target, bytes, reset: false }))
            },
            Err(error) => Err(error),
        }
    } else if same_text(name, "capture-pane") || same_text(name, "capturep") {
        pane::parse_capture_pane(rest)
    } else if same_text(name, "copy-mode") {
        pane::parse_copy_mode(rest, false)
    } else if same_text(name, "copy-mode-and-page") {
        pane::parse_copy_mode(rest, true)
    } else if same_text(name, "display-panes") {
        pane::parse_display_panes(rest)
    } else if same_text(name, "choose-tree") || same_text(name, "choose") {
        chooser::parse_choose_tree(rest)
    } else if same_text(name, "choose-buffer") || same_text(name, "chooseb") {
        chooser::parse_choose_buffer(rest)
    } else if same_text(name, "choose-client") || same_text(name, "choosec") {
        chooser::parse_choose_client(rest)
    } else if same_text(name, "display-message") || same_text(name, "display") {
        setting::parse_display_message(rest)
    } else if same_text(name, "set-buffer") || same_text(name, "setb") {
        buffer::parse_set_buffer(rest)
    } else if same_text(name, "show-buffer") || same_text(name, "showb") {
        match buffer::parse_buffer_name(rest) {
            Ok(name) => Ok(InvocationSpec::plain(RequestOf::ShowBuffer { name })),
            Err(error) => Err(error),
        }
    } else if same_text(name, "list-buffers") || same_text(name, "lsb") {
        buffer::parse_list_buffers(rest)
    } else if same_text(name, "delete-buffer") || same_text(name, "deleteb") {
        buffer::parse_delete_buffer(rest)
    } else if same_text(name, "paste-buffer") || same_text(name, "pasteb") || same_text(
        name,
        "paste",
    ) {
        buffer::parse_paste_buffer(rest)
    } else if same_text(name, "load-buffer") || same_text(name, "loadb") {
        buffer::parse_load_buffer(rest)
    } else if same_text(name, "save-buffer") || same_text(name, "saveb") {
        buffer::parse_save_buffer(rest)
    } else if same_text(name, "set-window-option") || same_text(name, "setw") {
        setting::parse_set_window_option(rest)
    } else if same_text(name, "set-option") || same_text(name, "set") {
        setting::parse_set_option(rest)
    } else if same_text(name, "show-options") || same_text(name, "show") {
        setting::parse_show_options(rest, false)
    } else if same_text(name, "show-window-options") || same_text(name, "showw") {
        setting::parse_show_options(rest, true)
    } else if same_text(name, "set-environment") || same_text(name, "setenv") {
        setting::parse_set_environment(rest)
    } else if same_text(name, "show-environment") || same_text(name, "showenv") {
        setting::parse_show_environment(rest)
    } else if same_text(name, "pipe-pane") || same_text(name, "pipep") {
        pane::parse_pipe_pane(rest)
    } else if same_text(name, "kill-server") {
        Ok(InvocationSpec::plain(RequestOf::KillServer))
    } else if same_text(name, "help") || same_text(name, "-h") || same_text(name, "--help") {
        Err(usage().to_owned())
    } else {
        let mut error = concat("unknown command: ", name);
        error.append("\n\n");
        error.append(usage());
        Err(error)
    }
}

// ---------------------------------------------------------------------------
// Options before the command.

/// Which socket a command line names, over the type that stands for a text: one
/// in the directory for temporary files goes by its file name.
pub enum SocketOf<S> {
    Default,
    Path(S),
    Temporary(S),
}

pub type Socket = SocketOf<String>;

pub type SocketView = SocketOf<Seq<char>>;

/// What a whole command line comes to.
pub struct Invocation {
    pub socket: Socket,
    pub request: Request,
    pub attach: bool,
    pub source: Option<Source>,
}

pub open spec fn socket_view(socket: Socket) -> SocketView {
    match socket {
        SocketOf::Default => SocketOf::Default,
        SocketOf::Path(path) => SocketOf::Path(path@),
        SocketOf::Temporary(name) => SocketOf::Temporary(name@),
    }
}

/// The options before the command. Whatever is none of them ends them.
pub open spec fn leading_scan(arguments: Seq<Seq<char>>) -> ScanView {
    options::scanned(
        arguments,
        Grammar { attached: "S", dashes: Dashes::Any, ..options("", "SL", Operands::Rest, "") },
    )
}

/// The socket that the last of the options for it names.
pub open spec fn socket_in(items: Seq<options::ItemView>) -> SocketView {
    match items::last_of(items, "SL"@) {
        Some(item) => if item.flag == 'S' {
            SocketOf::Path(item.value)
        } else {
            SocketOf::Temporary("tm-"@ + item.value + ".sock"@)
        },
        None => SocketOf::Default,
    }
}

/// What a command line comes to: the socket, and what its command stands for.
pub open spec fn invocation_in(arguments: Seq<Seq<char>>, cwd: Option<Seq<char>>) -> Result<
    (SocketView, InvocationView),
    Seq<char>,
> {
    let scan = leading_scan(arguments);
    match scan.error {
        Some(error) => Err(error),
        None => {
            let expected = if scan.tail.len() == 0 {
                Ok(session::default_invocation(cwd))
            } else {
                command_invocation(scan.tail[0], scan.tail.skip(1), cwd)
            };
            match expected {
                Ok(view) => Ok((socket_in(scan.items), view)),
                Err(error) => Err(error),
            }
        },
    }
}

/// Whether the keys that a command line sends can be told from their bytes.
pub open spec fn is_parsable(arguments: Seq<Seq<char>>) -> bool {
    let scan = leading_scan(arguments);
    ||| scan.error is Some
    ||| scan.tail.len() == 0
    ||| !is_send_keys(scan.tail[0])
    ||| keys::sends_keys_only(scan.tail.skip(1))
}

fn scan_leading(arguments: &[String]) -> (result: options::Scan)
    ensures
        result@ == leading_scan(text::texts(arguments@)),
{
    scan(
        arguments,
        &Grammar { attached: "S", dashes: Dashes::Any, ..options("", "SL", Operands::Rest, "") },
    )
}

/// Whether [`parse`] can be asked about a command line.
pub fn check_arguments(arguments: &[String]) -> (result: bool)
    ensures
        result == is_parsable(text::texts(arguments@)),
{
    let scan = scan_leading(arguments);
    if scan.error.is_some() || scan.tail.len() == 0 {
        return true;
    }
    let name = scan.tail[0].as_str();
    assert(scan@.tail[0] == name@);
    if !same_text(name, "send-keys") && !same_text(name, "send") {
        return true;
    }
    let rest = strings_from(scan.tail.as_slice(), 1);
    keys::check_send_keys(rest.as_slice())
}

/// Parses a command line. A new session starts in `cwd` unless it is told
/// otherwise.
pub fn parse(arguments: &[String], cwd: Option<String>) -> (result: Result<Invocation, String>)
    requires
        is_parsable(text::texts(arguments@)),
    ensures
        match invocation_in(text::texts(arguments@), wire::text_view(cwd)) {
            Ok((socket, view)) => {
                &&& result matches Ok(invocation)
                &&& socket_view(invocation.socket) == socket
                &&& invocation.request@ == view.request
                &&& invocation.attach == view.attach
                &&& invocation::source_view(invocation.source) == view.source
            },
            Err(error) => result matches Err(message) && message@ == error,
        },
{
    let scan = scan_leading(arguments);
    if let Some(error) = scan.error {
        return Err(error);
    }
    let socket: Socket = match items::last(&scan.items, "SL") {
        Some(item) => if item.flag == 'S' {
            SocketOf::Path(item.value.clone())
        } else {
            let mut name = concat("tm-", item.value.as_str());
            name.append(".sock");
            SocketOf::Temporary(name)
        },
        None => SocketOf::Default,
    };
    let spec = if scan.tail.len() == 0 {
        session::default_new_session(cwd)
    } else {
        let rest = strings_from(scan.tail.as_slice(), 1);
        let name = scan.tail[0].as_str();
        assert(scan@.tail[0] == name@);
        match parse_command(name, rest.as_slice(), cwd) {
            Ok(spec) => spec,
            Err(error) => return Err(error),
        }
    };
    Ok(Invocation { socket, request: spec.request, attach: spec.attach, source: spec.source })
}

impl Invocation {
    /// The invocation with the data that its request lacked.
    pub fn with_data(self, data: Vec<u8>) -> (loaded: Self)
        ensures
            socket_view(loaded.socket) == socket_view(self.socket),
            loaded.attach == self.attach,
            loaded.source is None,
            loaded.request@ == with_data(self.request@, data@),
    {
        let request = match self.request {
            RequestOf::LoadBuffer { name, data: _ } => RequestOf::LoadBuffer { name, data },
            other => other,
        };
        Invocation { socket: self.socket, request, attach: self.attach, source: None }
    }
}

/// A request to load a buffer with its data; other requests have none.
pub open spec fn with_data(request: RequestView, data: Seq<u8>) -> RequestView {
    match request {
        RequestOf::LoadBuffer { name, .. } => RequestOf::LoadBuffer { name, data },
        other => other,
    }
}

} // verus!
