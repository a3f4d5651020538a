//! Which command each name stands for.

use vstd::prelude::*;

use crate::command::invocation::{self, Expected};
use crate::command::parse::command_invocation;
use crate::command::{buffer, chooser, client, keys, pane, session, setting, window};
use crate::protocol::request::RequestOf;

verus! {

/// Each command goes by its name and by its short names.
#[verifier::rlimit(100)]
#[verifier::spinoff_prover]
pub proof fn law_commands_go_by_their_names(rest: Seq<Seq<char>>, cwd: Option<Seq<char>>)
    ensures
        command_invocation("new-session"@, rest, cwd) == session::new_session_invocation(rest, cwd),
        command_invocation("new"@, rest, cwd) == command_invocation("new-session"@, rest, cwd),
        command_invocation("attach-session"@, rest, cwd) == session::attach_invocation(rest),
        command_invocation("attach"@, rest, cwd)
            == command_invocation("attach-session"@, rest, cwd),
        command_invocation("a"@, rest, cwd) == command_invocation("attach-session"@, rest, cwd),
        command_invocation("detach-client"@, rest, cwd) == client::detach_client_invocation(rest),
        command_invocation("detach"@, rest, cwd) == command_invocation("detach-client"@, rest, cwd),
        command_invocation("switch-client"@, rest, cwd) == client::switch_client_invocation(rest),
        command_invocation("switchc"@, rest, cwd)
            == command_invocation("switch-client"@, rest, cwd),
        command_invocation("refresh-client"@, rest, cwd) == client::refresh_client_invocation(rest),
        command_invocation("refreshc"@, rest, cwd)
            == command_invocation("refresh-client"@, rest, cwd),
        command_invocation("run-shell"@, rest, cwd) == client::run_shell_invocation(rest),
        command_invocation("run"@, rest, cwd) == command_invocation("run-shell"@, rest, cwd),
        command_invocation("list-sessions"@, rest, cwd) == session::list_sessions_invocation(rest),
        command_invocation("ls"@, rest, cwd) == command_invocation("list-sessions"@, rest, cwd),
        command_invocation("list-clients"@, rest, cwd) == client::list_clients_invocation(rest),
        command_invocation("lsc"@, rest, cwd) == command_invocation("list-clients"@, rest, cwd),
        command_invocation("has-session"@, rest, cwd) == (match session::target_required_in(rest) {
            Ok(target) => invocation::plainly(RequestOf::HasSession { target }),
            Err(error) => Err(error),
        }),
        command_invocation("has"@, rest, cwd) == command_invocation("has-session"@, rest, cwd),
        command_invocation("kill-session"@, rest, cwd) == session::kill_session_invocation(rest),
        command_invocation("kill"@, rest, cwd) == command_invocation("kill-session"@, rest, cwd),
        command_invocation("new-window"@, rest, cwd) == window::new_window_invocation(rest),
        command_invocation("neww"@, rest, cwd) == command_invocation("new-window"@, rest, cwd),
        command_invocation("split-window"@, rest, cwd) == window::split_window_invocation(rest),
        command_invocation("splitw"@, rest, cwd) == command_invocation("split-window"@, rest, cwd),
        command_invocation("split"@, rest, cwd) == command_invocation("split-window"@, rest, cwd),
        command_invocation("new-pane"@, rest, cwd)
            == command_invocation("split-window"@, rest, cwd),
        command_invocation("newp"@, rest, cwd) == command_invocation("split-window"@, rest, cwd),
        command_invocation("resize-pane"@, rest, cwd) == pane::resize_pane_invocation(rest),
        command_invocation("resizep"@, rest, cwd) == command_invocation("resize-pane"@, rest, cwd),
        command_invocation("swap-pane"@, rest, cwd) == pane::swap_pane_invocation(rest),
        command_invocation("swapp"@, rest, cwd) == command_invocation("swap-pane"@, rest, cwd),
        command_invocation("break-pane"@, rest, cwd) == pane::break_pane_invocation(rest),
        command_invocation("breakp"@, rest, cwd) == command_invocation("break-pane"@, rest, cwd),
        command_invocation("join-pane"@, rest, cwd) == pane::join_pane_invocation(rest),
        command_invocation("joinp"@, rest, cwd) == command_invocation("join-pane"@, rest, cwd),
        command_invocation("move-pane"@, rest, cwd) == command_invocation("join-pane"@, rest, cwd),
        command_invocation("movep"@, rest, cwd) == command_invocation("join-pane"@, rest, cwd),
        command_invocation("respawn-pane"@, rest, cwd) == window::respawn_invocation(rest, false),
        command_invocation("respawnp"@, rest, cwd)
            == command_invocation("respawn-pane"@, rest, cwd),
        command_invocation("respawn-window"@, rest, cwd) == window::respawn_invocation(rest, true),
        command_invocation("respawnw"@, rest, cwd)
            == command_invocation("respawn-window"@, rest, cwd),
        command_invocation("clear-history"@, rest, cwd) == (match session::target_in(rest) {
            Ok(target) => invocation::plainly(RequestOf::ClearHistory { target }),
            Err(error) => Err(error),
        }),
        command_invocation("clearhist"@, rest, cwd)
            == command_invocation("clear-history"@, rest, cwd),
        command_invocation("rotate-window"@, rest, cwd) == window::rotate_window_invocation(rest),
        command_invocation("rotatew"@, rest, cwd)
            == command_invocation("rotate-window"@, rest, cwd),
        command_invocation("swap-window"@, rest, cwd) == window::swap_window_invocation(rest),
        command_invocation("swapw"@, rest, cwd) == command_invocation("swap-window"@, rest, cwd),
        command_invocation("move-window"@, rest, cwd) == window::move_window_invocation(rest),
        command_invocation("movew"@, rest, cwd) == command_invocation("move-window"@, rest, cwd),
        command_invocation("link-window"@, rest, cwd) == window::link_window_invocation(rest),
        command_invocation("linkw"@, rest, cwd) == command_invocation("link-window"@, rest, cwd),
        command_invocation("unlink-window"@, rest, cwd) == window::unlink_window_invocation(rest),
        command_invocation("unlinkw"@, rest, cwd)
            == command_invocation("unlink-window"@, rest, cwd),
        command_invocation("list-windows"@, rest, cwd) == window::list_windows_invocation(rest),
        command_invocation("lsw"@, rest, cwd) == command_invocation("list-windows"@, rest, cwd),
        command_invocation("list-panes"@, rest, cwd) == pane::list_panes_invocation(rest),
        command_invocation("lsp"@, rest, cwd) == command_invocation("list-panes"@, rest, cwd),
        command_invocation("select-window"@, rest, cwd) == window::select_window_invocation(rest),
        command_invocation("selectw"@, rest, cwd)
            == command_invocation("select-window"@, rest, cwd),
        command_invocation("last-window"@, rest, cwd)
            == invocation::plainly(RequestOf::SelectWindow { target: "!"@ }),
        command_invocation("last"@, rest, cwd) == command_invocation("last-window"@, rest, cwd),
        command_invocation("next-window"@, rest, cwd) == (match session::target_in(rest) {
            Ok(target) => invocation::plainly(RequestOf::NextWindow { target }),
            Err(error) => Err(error),
        }),
        command_invocation("next"@, rest, cwd) == command_invocation("next-window"@, rest, cwd),
        command_invocation("previous-window"@, rest, cwd) == (match session::target_in(rest) {
            Ok(target) => invocation::plainly(RequestOf::PreviousWindow { target }),
            Err(error) => Err(error),
        }),
        command_invocation("prev"@, rest, cwd) == command_invocation("previous-window"@, rest, cwd),
        command_invocation("rename-session"@, rest, cwd) == (match session::target_and_name_in(rest) {
            Ok((target, name)) => invocation::plainly(RequestOf::RenameSession { target, name }),
            Err(error) => Err(error),
        }),
        command_invocation("rename"@, rest, cwd)
            == command_invocation("rename-session"@, rest, cwd),
        command_invocation("rename-window"@, rest, cwd) == (match session::target_and_name_in(rest) {
            Ok((target, name)) => invocation::plainly(RequestOf::RenameWindow { target, name }),
            Err(error) => Err(error),
        }),
        command_invocation("renamew"@, rest, cwd)
            == command_invocation("rename-window"@, rest, cwd),
        command_invocation("kill-window"@, rest, cwd) == window::kill_window_invocation(rest),
        command_invocation("killw"@, rest, cwd) == command_invocation("kill-window"@, rest, cwd),
        command_invocation("select-pane"@, rest, cwd) == pane::select_pane_invocation(rest),
        command_invocation("selectp"@, rest, cwd) == command_invocation("select-pane"@, rest, cwd),
        command_invocation("kill-pane"@, rest, cwd) == pane::kill_pane_invocation(rest),
        command_invocation("killp"@, rest, cwd) == command_invocation("kill-pane"@, rest, cwd),
        command_invocation("send-keys"@, rest, cwd) == keys::send_keys_invocation(rest),
        command_invocation("send"@, rest, cwd) == command_invocation("send-keys"@, rest, cwd),
        command_invocation("send-prefix"@, rest, cwd) == (match session::target_in(rest) {
            Ok(target) => invocation::plainly(
                RequestOf::SendKeys { target, bytes: seq![2u8], reset: false },
            ),
            Err(error) => Err(error),
        }),
        command_invocation("capture-pane"@, rest, cwd) == pane::capture_pane_invocation(rest),
        command_invocation("capturep"@, rest, cwd)
            == command_invocation("capture-pane"@, rest, cwd),
        command_invocation("copy-mode"@, rest, cwd) == pane::copy_mode_invocation(rest, false),
        command_invocation("copy-mode-and-page"@, rest, cwd)
            == pane::copy_mode_invocation(rest, true),
        command_invocation("display-panes"@, rest, cwd) == pane::display_panes_invocation(rest),
        command_invocation("choose-tree"@, rest, cwd) == chooser::choose_tree_invocation(rest),
        command_invocation("choose"@, rest, cwd) == command_invocation("choose-tree"@, rest, cwd),
        command_invocation("choose-buffer"@, rest, cwd) == chooser::choose_buffer_invocation(rest),
        command_invocation("chooseb"@, rest, cwd)
            == command_invocation("choose-buffer"@, rest, cwd),
        command_invocation("choose-client"@, rest, cwd) == chooser::choose_client_invocation(rest),
        command_invocation("choosec"@, rest, cwd)
            == command_invocation("choose-client"@, rest, cwd),
        command_invocation("display-message"@, rest, cwd)
            == setting::display_message_invocation(rest),
        command_invocation("display"@, rest, cwd)
            == command_invocation("display-message"@, rest, cwd),
        command_invocation("set-buffer"@, rest, cwd) == buffer::set_buffer_invocation(rest),
        command_invocation("setb"@, rest, cwd) == command_invocation("set-buffer"@, rest, cwd),
        command_invocation("show-buffer"@, rest, cwd) == (match buffer::buffer_name_in(rest) {
            Ok(name) => invocation::plainly(RequestOf::ShowBuffer { name }),
            Err(error) => Err(error),
        }),
        command_invocation("showb"@, rest, cwd) == command_invocation("show-buffer"@, rest, cwd),
        command_invocation("list-buffers"@, rest, cwd) == buffer::list_buffers_invocation(rest),
        command_invocation("lsb"@, rest, cwd) == command_invocation("list-buffers"@, rest, cwd),
        command_invocation("delete-buffer"@, rest, cwd) == buffer::delete_buffer_invocation(rest),
        command_invocation("deleteb"@, rest, cwd)
            == command_invocation("delete-buffer"@, rest, cwd),
        command_invocation("paste-buffer"@, rest, cwd) == buffer::paste_buffer_invocation(rest),
        command_invocation("pasteb"@, rest, cwd) == command_invocation("paste-buffer"@, rest, cwd),
        command_invocation("paste"@, rest, cwd) == command_invocation("paste-buffer"@, rest, cwd),
        command_invocation("load-buffer"@, rest, cwd) == buffer::load_buffer_invocation(rest),
        command_invocation("loadb"@, rest, cwd) == command_invocation("load-buffer"@, rest, cwd),
        command_invocation("save-buffer"@, rest, cwd) == buffer::save_buffer_invocation(rest),
        command_invocation("saveb"@, rest, cwd) == command_invocation("save-buffer"@, rest, cwd),
        command_invocation("set-window-option"@, rest, cwd)
            == setting::set_window_option_invocation(rest),
        command_invocation("setw"@, rest, cwd)
            == command_invocation("set-window-option"@, rest, cwd),
        command_invocation("set-option"@, rest, cwd) == setting::set_option_invocation(rest),
        command_invocation("set"@, rest, cwd) == command_invocation("set-option"@, rest, cwd),
        command_invocation("show-options"@, rest, cwd)
            == setting::show_options_invocation(rest, false),
        command_invocation("show"@, rest, cwd) == command_invocation("show-options"@, rest, cwd),
        command_invocation("show-window-options"@, rest, cwd)
            == setting::show_options_invocation(rest, true),
        command_invocation("showw"@, rest, cwd)
            == command_invocation("show-window-options"@, rest, cwd),
        command_invocation("set-environment"@, rest, cwd)
            == setting::set_environment_invocation(rest),
        command_invocation("setenv"@, rest, cwd)
            == command_invocation("set-environment"@, rest, cwd),
        command_invocation("show-environment"@, rest, cwd)
            == setting::show_environment_invocation(rest),
        command_invocation("showenv"@, rest, cwd)
            == command_invocation("show-environment"@, rest, cwd),
        command_invocation("pipe-pane"@, rest, cwd) == pane::pipe_pane_invocation(rest),
        command_invocation("pipep"@, rest, cwd) == command_invocation("pipe-pane"@, rest, cwd),
        command_invocation("kill-server"@, rest, cwd) == invocation::plainly(RequestOf::KillServer),
{
    reveal_strlit("new-session");
    reveal_strlit("new");
    reveal_strlit("attach-session");
    reveal_strlit("attach");
    reveal_strlit("a");
    reveal_strlit("detach-client");
    reveal_strlit("detach");
    reveal_strlit("switch-client");
    reveal_strlit("switchc");
    reveal_strlit("refresh-client");
    reveal_strlit("refreshc");
    reveal_strlit("run-shell");
    reveal_strlit("run");
    reveal_strlit("list-sessions");
    reveal_strlit("ls");
    reveal_strlit("list-clients");
    reveal_strlit("lsc");
    reveal_strlit("has-session");
    reveal_strlit("has");
    reveal_strlit("kill-session");
    reveal_strlit("kill");
    reveal_strlit("new-window");
    reveal_strlit("neww");
    reveal_strlit("split-window");
    reveal_strlit("splitw");
    reveal_strlit("split");
    reveal_strlit("new-pane");
    reveal_strlit("newp");
    reveal_strlit("resize-pane");
    reveal_strlit("resizep");
    reveal_strlit("swap-pane");
    reveal_strlit("swapp");
    reveal_strlit("break-pane");
    reveal_strlit("breakp");
    reveal_strlit("join-pane");
    reveal_strlit("joinp");
    reveal_strlit("move-pane");
    reveal_strlit("movep");
    reveal_strlit("respawn-pane");
    reveal_strlit("respawnp");
    reveal_strlit("respawn-window");
    reveal_strlit("respawnw");
    reveal_strlit("clear-history");
    reveal_strlit("clearhist");
    reveal_strlit("rotate-window");
    reveal_strlit("rotatew");
    reveal_strlit("swap-window");
    reveal_strlit("swapw");
    reveal_strlit("move-window");
    reveal_strlit("movew");
    reveal_strlit("link-window");
    reveal_strlit("linkw");
    reveal_strlit("unlink-window");
    reveal_strlit("unlinkw");
    reveal_strlit("list-windows");
    reveal_strlit("lsw");
    reveal_strlit("list-panes");
    reveal_strlit("lsp");
    reveal_strlit("select-window");
    reveal_strlit("selectw");
    reveal_strlit("last-window");
    reveal_strlit("last");
    reveal_strlit("next-window");
    reveal_strlit("next");
    reveal_strlit("previous-window");
    reveal_strlit("prev");
    reveal_strlit("rename-session");
    reveal_strlit("rename");
    reveal_strlit("rename-window");
    reveal_strlit("renamew");
    reveal_strlit("kill-window");
    reveal_strlit("killw");
    reveal_strlit("select-pane");
    reveal_strlit("selectp");
    reveal_strlit("kill-pane");
    reveal_strlit("killp");
    reveal_strlit("send-keys");
    reveal_strlit("send");
    reveal_strlit("send-prefix");
    reveal_strlit("capture-pane");
    reveal_strlit("capturep");
    reveal_strlit("copy-mode");
    reveal_strlit("copy-mode-and-page");
    reveal_strlit("display-panes");
    reveal_strlit("choose-tree");
    reveal_strlit("choose");
    reveal_strlit("choose-buffer");
    reveal_strlit("chooseb");
    reveal_strlit("choose-client");
    reveal_strlit("choosec");
    reveal_strlit("display-message");
    reveal_strlit("display");
    reveal_strlit("set-buffer");
    reveal_strlit("setb");
    reveal_strlit("show-buffer");
    reveal_strlit("showb");
    reveal_strlit("list-buffers");
    reveal_strlit("lsb");
    reveal_strlit("delete-buffer");
    reveal_strlit("deleteb");
    reveal_strlit("paste-buffer");
    reveal_strlit("pasteb");
    reveal_strlit("paste");
    reveal_strlit("load-buffer");
    reveal_strlit("loadb");
    reveal_strlit("save-buffer");
    reveal_strlit("saveb");
    reveal_strlit("set-window-option");
    reveal_strlit("setw");
    reveal_strlit("set-option");
    reveal_strlit("set");
    reveal_strlit("show-options");
    reveal_strlit("show");
    reveal_strlit("show-window-options");
    reveal_strlit("showw");
    reveal_strlit("set-environment");
    reveal_strlit("setenv");
    reveal_strlit("show-environment");
    reveal_strlit("showenv");
    reveal_strlit("pipe-pane");
    reveal_strlit("pipep");
    reveal_strlit("kill-server");
    reveal_strlit("help");
    reveal_strlit("-h");
    reveal_strlit("--help");
    assert("new-session"@.len() == 11);
    assert("new"@.len() == 3);
    assert("attach-session"@.len() == 14);
    assert("attach"@.len() == 6);
    assert("a"@.len() == 1);
    assert("detach-client"@.len() == 13);
    assert("detach"@.len() == 6);
    assert("switch-client"@.len() == 13);
    assert("switchc"@.len() == 7);
    assert("refresh-client"@.len() == 14);
    assert("refreshc"@.len() == 8);
    assert("run-shell"@.len() == 9);
    assert("run"@.len() == 3);
    assert("list-sessions"@.len() == 13);
    assert("ls"@.len() == 2);
    assert("list-clients"@.len() == 12);
    assert("lsc"@.len() == 3);
    assert("has-session"@.len() == 11);
    assert("has"@.len() == 3);
    assert("kill-session"@.len() == 12);
    assert("kill"@.len() == 4);
    assert("new-window"@.len() == 10);
    assert("neww"@.len() == 4);
    assert("split-window"@.len() == 12);
    assert("splitw"@.len() == 6);
    assert("split"@.len() == 5);
    assert("new-pane"@.len() == 8);
    assert("newp"@.len() == 4);
    assert("resize-pane"@.len() == 11);
    assert("resizep"@.len() == 7);
    assert("swap-pane"@.len() == 9);
    assert("swapp"@.len() == 5);
    assert("break-pane"@.len() == 10);
    assert("breakp"@.len() == 6);
    assert("join-pane"@.len() == 9);
    assert("joinp"@.len() == 5);
    assert("move-pane"@.len() == 9);
    assert("movep"@.len() == 5);
    assert("respawn-pane"@.len() == 12);
    assert("respawnp"@.len() == 8);
    assert("respawn-window"@.len() == 14);
    assert("respawnw"@.len() == 8);
    assert("clear-history"@.len() == 13);
    assert("clearhist"@.len() == 9);
    assert("rotate-window"@.len() == 13);
    assert("rotatew"@.len() == 7);
    assert("swap-window"@.len() == 11);
    assert("swapw"@.len() == 5);
    assert("move-window"@.len() == 11);
    assert("movew"@.len() == 5);
    assert("link-window"@.len() == 11);
    assert("linkw"@.len() == 5);
    assert("unlink-window"@.len() == 13);
    assert("unlinkw"@.len() == 7);
    assert("list-windows"@.len() == 12);
    assert("lsw"@.len() == 3);
    assert("list-panes"@.len() == 10);
    assert("lsp"@.len() == 3);
    assert("select-window"@.len() == 13);
    assert("selectw"@.len() == 7);
    assert("last-window"@.len() == 11);
    assert("last"@.len() == 4);
    assert("next-window"@.len() == 11);
    assert("next"@.len() == 4);
    assert("previous-window"@.len() == 15);
    assert("prev"@.len() == 4);
    assert("rename-session"@.len() == 14);
    assert("rename"@.len() == 6);
    assert("rename-window"@.len() == 13);
    assert("renamew"@.len() == 7);
    assert("kill-window"@.len() == 11);
    assert("killw"@.len() == 5);
    assert("select-pane"@.len() == 11);
    assert("selectp"@.len() == 7);
    assert("kill-pane"@.len() == 9);
    assert("killp"@.len() == 5);
    assert("send-keys"@.len() == 9);
    assert("send"@.len() == 4);
    assert("send-prefix"@.len() == 11);
    assert("capture-pane"@.len() == 12);
    assert("capturep"@.len() == 8);
    assert("copy-mode"@.len() == 9);
    assert("copy-mode-and-page"@.len() == 18);
    assert("display-panes"@.len() == 13);
    assert("choose-tree"@.len() == 11);
    assert("choose"@.len() == 6);
    assert("choose-buffer"@.len() == 13);
    assert("chooseb"@.len() == 7);
    assert("choose-client"@.len() == 13);
    assert("choosec"@.len() == 7);
    assert("display-message"@.len() == 15);
    assert("display"@.len() == 7);
    assert("set-buffer"@.len() == 10);
    assert("setb"@.len() == 4);
    assert("show-buffer"@.len() == 11);
    assert("showb"@.len() == 5);
    assert("list-buffers"@.len() == 12);
    assert("lsb"@.len() == 3);
    assert("delete-buffer"@.len() == 13);
    assert("deleteb"@.len() == 7);
    assert("paste-buffer"@.len() == 12);
    assert("pasteb"@.len() == 6);
    assert("paste"@.len() == 5);
    assert("load-buffer"@.len() == 11);
    assert("loadb"@.len() == 5);
    assert("save-buffer"@.len() == 11);
    assert("saveb"@.len() == 5);
    assert("set-window-option"@.len() == 17);
    assert("setw"@.len() == 4);
    assert("set-option"@.len() == 10);
    assert("set"@.len() == 3);
    assert("show-options"@.len() == 12);
    assert("show"@.len() == 4);
    assert("show-window-options"@.len() == 19);
    assert("showw"@.len() == 5);
    assert("set-environment"@.len() == 15);
    assert("setenv"@.len() == 6);
    assert("show-environment"@.len() == 16);
    assert("showenv"@.len() == 7);
    assert("pipe-pane"@.len() == 9);
    assert("pipep"@.len() == 5);
    assert("kill-server"@.len() == 11);
    assert("help"@.len() == 4);
    assert("-h"@.len() == 2);
    assert("--help"@.len() == 6);
    assert("new-session"@[0] == 'n');
    assert("new-session"@[2] == 'w');
    assert("new"@[0] == 'n');
    assert("attach-session"@[0] == 'a');
    assert("attach"@[0] == 'a');
    assert("detach-client"@[0] == 'd');
    assert("detach-client"@[1] == 'e');
    assert("detach-client"@[2] == 't');
    assert("detach"@[0] == 'd');
    assert("switch-client"@[0] == 's');
    assert("switch-client"@[1] == 'w');
    assert("switchc"@[0] == 's');
    assert("switchc"@[1] == 'w');
    assert("refresh-client"@[0] == 'r');
    assert("refresh-client"@[2] == 'f');
    assert("refreshc"@[0] == 'r');
    assert("refreshc"@[2] == 'f');
    assert("run-shell"@[0] == 'r');
    assert("run"@[0] == 'r');
    assert("list-sessions"@[0] == 'l');
    assert("ls"@[0] == 'l');
    assert("list-clients"@[0] == 'l');
    assert("list-clients"@[5] == 'c');
    assert("lsc"@[0] == 'l');
    assert("lsc"@[2] == 'c');
    assert("has-session"@[0] == 'h');
    assert("has"@[0] == 'h');
    assert("kill-session"@[0] == 'k');
    assert("kill"@[0] == 'k');
    assert("new-window"@[0] == 'n');
    assert("neww"@[0] == 'n');
    assert("neww"@[2] == 'w');
    assert("neww"@[3] == 'w');
    assert("split-window"@[0] == 's');
    assert("split-window"@[1] == 'p');
    assert("splitw"@[0] == 's');
    assert("splitw"@[1] == 'p');
    assert("split"@[0] == 's');
    assert("split"@[1] == 'p');
    assert("new-pane"@[0] == 'n');
    assert("newp"@[0] == 'n');
    assert("newp"@[2] == 'w');
    assert("newp"@[3] == 'p');
    assert("resize-pane"@[0] == 'r');
    assert("resizep"@[0] == 'r');
    assert("resizep"@[1] == 'e');
    assert("resizep"@[2] == 's');
    assert("swap-pane"@[0] == 's');
    assert("swap-pane"@[1] == 'w');
    assert("swapp"@[0] == 's');
    assert("swapp"@[1] == 'w');
    assert("swapp"@[4] == 'p');
    assert("break-pane"@[0] == 'b');
    assert("breakp"@[0] == 'b');
    assert("join-pane"@[0] == 'j');
    assert("joinp"@[0] == 'j');
    assert("move-pane"@[0] == 'm');
    assert("movep"@[0] == 'm');
    assert("movep"@[4] == 'p');
    assert("respawn-pane"@[0] == 'r');
    assert("respawnp"@[0] == 'r');
    assert("respawnp"@[2] == 's');
    assert("respawnp"@[7] == 'p');
    assert("respawn-window"@[0] == 'r');
    assert("respawn-window"@[2] == 's');
    assert("respawnw"@[0] == 'r');
    assert("respawnw"@[2] == 's');
    assert("respawnw"@[7] == 'w');
    assert("clear-history"@[0] == 'c');
    assert("clear-history"@[1] == 'l');
    assert("clearhist"@[0] == 'c');
    assert("clearhist"@[1] == 'l');
    assert("rotate-window"@[0] == 'r');
    assert("rotate-window"@[1] == 'o');
    assert("rotatew"@[0] == 'r');
    assert("rotatew"@[1] == 'o');
    assert("swap-window"@[0] == 's');
    assert("swap-window"@[1] == 'w');
    assert("swapw"@[0] == 's');
    assert("swapw"@[1] == 'w');
    assert("swapw"@[4] == 'w');
    assert("move-window"@[0] == 'm');
    assert("movew"@[0] == 'm');
    assert("movew"@[4] == 'w');
    assert("link-window"@[0] == 'l');
    assert("link-window"@[1] == 'i');
    assert("linkw"@[0] == 'l');
    assert("linkw"@[1] == 'i');
    assert("unlink-window"@[0] == 'u');
    assert("unlinkw"@[0] == 'u');
    assert("list-windows"@[0] == 'l');
    assert("list-windows"@[5] == 'w');
    assert("lsw"@[0] == 'l');
    assert("lsw"@[2] == 'w');
    assert("list-panes"@[0] == 'l');
    assert("lsp"@[0] == 'l');
    assert("lsp"@[2] == 'p');
    assert("select-window"@[0] == 's');
    assert("select-window"@[1] == 'e');
    assert("selectw"@[0] == 's');
    assert("selectw"@[1] == 'e');
    assert("selectw"@[6] == 'w');
    assert("last-window"@[0] == 'l');
    assert("last-window"@[1] == 'a');
    assert("last"@[0] == 'l');
    assert("next-window"@[0] == 'n');
    assert("next-window"@[2] == 'x');
    assert("next"@[0] == 'n');
    assert("next"@[2] == 'x');
    assert("previous-window"@[0] == 'p');
    assert("prev"@[0] == 'p');
    assert("rename-session"@[0] == 'r');
    assert("rename-session"@[2] == 'n');
    assert("rename"@[0] == 'r');
    assert("rename-window"@[0] == 'r');
    assert("rename-window"@[1] == 'e');
    assert("renamew"@[0] == 'r');
    assert("renamew"@[1] == 'e');
    assert("renamew"@[2] == 'n');
    assert("kill-window"@[0] == 'k');
    assert("kill-window"@[5] == 'w');
    assert("killw"@[0] == 'k');
    assert("killw"@[4] == 'w');
    assert("select-pane"@[0] == 's');
    assert("select-pane"@[1] == 'e');
    assert("select-pane"@[2] == 'l');
    assert("selectp"@[0] == 's');
    assert("selectp"@[1] == 'e');
    assert("selectp"@[6] == 'p');
    assert("kill-pane"@[0] == 'k');
    assert("killp"@[0] == 'k');
    assert("killp"@[4] == 'p');
    assert("send-keys"@[0] == 's');
    assert("send-keys"@[1] == 'e');
    assert("send"@[0] == 's');
    assert("send"@[1] == 'e');
    assert("send"@[2] == 'n');
    assert("send-prefix"@[0] == 's');
    assert("send-prefix"@[1] == 'e');
    assert("send-prefix"@[2] == 'n');
    assert("capture-pane"@[0] == 'c');
    assert("capturep"@[0] == 'c');
    assert("copy-mode"@[0] == 'c');
    assert("copy-mode"@[1] == 'o');
    assert("display-panes"@[0] == 'd');
    assert("display-panes"@[1] == 'i');
    assert("choose-tree"@[0] == 'c');
    assert("choose"@[0] == 'c');
    assert("choose-buffer"@[0] == 'c');
    assert("choose-buffer"@[1] == 'h');
    assert("choose-buffer"@[7] == 'b');
    assert("chooseb"@[0] == 'c');
    assert("chooseb"@[6] == 'b');
    assert("choose-client"@[0] == 'c');
    assert("choose-client"@[1] == 'h');
    assert("choose-client"@[7] == 'c');
    assert("choosec"@[0] == 'c');
    assert("choosec"@[6] == 'c');
    assert("display-message"@[0] == 'd');
    assert("display"@[0] == 'd');
    assert("display"@[1] == 'i');
    assert("set-buffer"@[0] == 's');
    assert("set-buffer"@[4] == 'b');
    assert("setb"@[0] == 's');
    assert("setb"@[1] == 'e');
    assert("setb"@[2] == 't');
    assert("setb"@[3] == 'b');
    assert("show-buffer"@[0] == 's');
    assert("show-buffer"@[1] == 'h');
    assert("showb"@[0] == 's');
    assert("showb"@[1] == 'h');
    assert("showb"@[4] == 'b');
    assert("list-buffers"@[0] == 'l');
    assert("list-buffers"@[5] == 'b');
    assert("lsb"@[0] == 'l');
    assert("lsb"@[2] == 'b');
    assert("delete-buffer"@[0] == 'd');
    assert("delete-buffer"@[1] == 'e');
    assert("delete-buffer"@[2] == 'l');
    assert("deleteb"@[0] == 'd');
    assert("deleteb"@[1] == 'e');
    assert("paste-buffer"@[0] == 'p');
    assert("pasteb"@[0] == 'p');
    assert("paste"@[0] == 'p');
    assert("paste"@[1] == 'a');
    assert("load-buffer"@[0] == 'l');
    assert("load-buffer"@[1] == 'o');
    assert("loadb"@[0] == 'l');
    assert("loadb"@[1] == 'o');
    assert("save-buffer"@[0] == 's');
    assert("save-buffer"@[1] == 'a');
    assert("saveb"@[0] == 's');
    assert("saveb"@[1] == 'a');
    assert("setw"@[0] == 's');
    assert("setw"@[1] == 'e');
    assert("setw"@[2] == 't');
    assert("setw"@[3] == 'w');
    assert("set-option"@[0] == 's');
    assert("set-option"@[4] == 'o');
    assert("set"@[0] == 's');
    assert("show-options"@[0] == 's');
    assert("show-options"@[1] == 'h');
    assert("show"@[0] == 's');
    assert("show"@[1] == 'h');
    assert("showw"@[0] == 's');
    assert("showw"@[1] == 'h');
    assert("showw"@[4] == 'w');
    assert("set-environment"@[0] == 's');
    assert("setenv"@[0] == 's');
    assert("setenv"@[1] == 'e');
    assert("showenv"@[0] == 's');
    assert("showenv"@[1] == 'h');
    assert("pipe-pane"@[0] == 'p');
    assert("pipep"@[0] == 'p');
    assert("pipep"@[1] == 'i');
    assert("kill-server"@[0] == 'k');
    assert("kill-server"@[5] == 's');
    assert("help"@[0] == 'h');
    assert("-h"@[0] == '-');
    assert("--help"@[0] == '-');
}

} // verus!
