use tm::command::invocation::SourceOf;
use tm::command::keys::{check_key, key_bytes};
use tm::command::pane::{parse_capture_offset, parse_resize_value};
use tm::command::parse::{check_arguments, parse, usage, Invocation, SocketOf};
use tm::command::session::parse_dimension;
use tm::protocol::request::Request;
use tm::protocol::wire::OptionScope;

fn parse_words(arguments: &[String]) -> Result<Invocation, String> {
    assert!(check_arguments(arguments));
    parse(arguments, Some("/home".to_owned()))
}

#[test]
fn new_session_keeps_the_command_vector_exactly_once() {
    let invocation = parse_words(&[
        "new-session".to_owned(),
        "-d".to_owned(),
        "-s".to_owned(),
        "build".to_owned(),
        "--".to_owned(),
        "sh".to_owned(),
        "-c".to_owned(),
        "printf ok".to_owned(),
    ])
    .expect("parse");
    let Request::NewSession { command, .. } = invocation.request else {
        panic!("expected new-session request");
    };
    assert_eq!(command, ["sh", "-c", "printf ok"]);
}

#[test]
fn send_keys_maps_tmux_core_key_names() {
    assert_eq!(key_bytes("Enter"), b"\r");
    assert_eq!(key_bytes("C-c"), [3]);
    assert_eq!(key_bytes("Up"), b"\x1b[A");
    assert_eq!(key_bytes("Space"), b" ");
}

#[test]
fn send_keys_repeats_ordinary_keys_for_the_configured_send_binding() {
    let invocation = parse_words(&[
        "send".to_owned(),
        "-N".to_owned(),
        "2".to_owned(),
        "C-a".to_owned(),
    ])
    .expect("parse repeated send");
    let Request::SendKeys { bytes, .. } = invocation.request else {
        panic!("expected send-keys request");
    };
    assert_eq!(bytes, [1, 1]);
}

#[test]
fn send_keys_copy_actions_preserve_tmux_copy_flags_and_arguments() {
    let invocation = parse_words(&[
        "send-keys".to_owned(),
        "-X".to_owned(),
        "copy-pipe-and-cancel".to_owned(),
        "-P".to_owned(),
        "-C".to_owned(),
        "-t".to_owned(),
        "session:0".to_owned(),
        "--".to_owned(),
        "cat".to_owned(),
        "named-".to_owned(),
    ])
    .expect("parse copy action flags");
    let Request::CopyModeCommand { target, action, .. } = invocation.request else {
        panic!("expected copy-mode request");
    };
    assert_eq!(target.as_deref(), Some("session:0"));
    assert_eq!(action, "copy-pipe-and-cancel\x1dPC\0cat\x1enamed-");
}

#[test]
fn paste_buffer_parses_bracketed_paste_mode() {
    let invocation = parse_words(&[
        "paste-buffer".to_owned(),
        "-p".to_owned(),
        "-b".to_owned(),
        "paste".to_owned(),
    ])
    .expect("parse bracketed paste");
    assert!(matches!(
        invocation.request,
        Request::PasteBuffer {
            name: Some(name),
            bracketed: true,
            ..
        } if name == "paste"
    ));
}

#[test]
fn select_window_navigation_forms_map_to_window_requests() {
    let next = parse_words(&["select-window".to_owned(), "-n".to_owned()]).expect("next");
    assert!(matches!(next.request, Request::NextWindow { target: None }));
    let previous = parse_words(&[
        "selectw".to_owned(),
        "-p".to_owned(),
        "-t".to_owned(),
        "S:".to_owned(),
    ])
    .expect("previous");
    assert!(matches!(
        previous.request,
        Request::PreviousWindow { target: Some(target) } if target == "S:"
    ));
    let last = parse_words(&["last-window".to_owned()]).expect("last");
    assert!(matches!(
        last.request,
        Request::SelectWindow { target } if target == "!"
    ));
    assert!(parse_words(&["kill-window".to_owned(), "-f".to_owned()]).is_err());
}

#[test]
fn choose_tree_parses_filter_format_sort_and_source_options() {
    let invocation = parse_words(&[
        "choose-tree".to_owned(),
        "-t".to_owned(),
        "work:1".to_owned(),
        "-f".to_owned(),
        "#{==:#{session_name},work}".to_owned(),
        "-F".to_owned(),
        "#{session_name}:#{window_index}".to_owned(),
        "-O".to_owned(),
        "name".to_owned(),
        "-r".to_owned(),
        "-h".to_owned(),
    ])
    .expect("choose-tree");
    assert!(matches!(
        invocation.request,
        Request::ChooseTree {
            target: Some(target),
            filter: Some(filter),
            format: Some(format),
            sort,
            reverse: true,
            hide_source: true,
            ..
        } if target == "work:1"
            && filter == "#{==:#{session_name},work}"
            && format == "#{session_name}:#{window_index}"
            && sort == "name"
    ));
}

#[test]
fn choose_buffer_and_client_parse_their_mode_options() {
    let buffer = parse_words(&[
        "choose-buffer".to_owned(),
        "-t".to_owned(),
        "work:0".to_owned(),
        "-f".to_owned(),
        "#{m:*log*,#{buffer_sample}}".to_owned(),
        "-F".to_owned(),
        "#{buffer_name}".to_owned(),
        "-O".to_owned(),
        "name".to_owned(),
        "-r".to_owned(),
    ])
    .expect("choose-buffer");
    assert!(matches!(
        buffer.request,
        Request::ChooseBuffer {
            target: Some(target),
            filter: Some(filter),
            format: Some(format),
            sort,
            reverse: true,
            ..
        } if target == "work:0"
            && filter == "#{m:*log*,#{buffer_sample}}"
            && format == "#{buffer_name}"
            && sort == "name"
    ));

    let client = parse_words(&[
        "choose-client".to_owned(),
        "-F".to_owned(),
        "#{client_session}".to_owned(),
        "-f".to_owned(),
        "#{==:#{client_session},work}".to_owned(),
    ])
    .expect("choose-client");
    assert!(matches!(
        client.request,
        Request::ChooseClient {
            target: None,
            filter: Some(filter),
            format: Some(format),
            ..
        } if filter == "#{==:#{client_session},work}"
            && format == "#{client_session}"
    ));
}

#[test]
fn display_panes_parses_target_source_zoom_and_selection_command() {
    let invocation = parse_words(&[
        "display-panes".to_owned(),
        "-k".to_owned(),
        "-Z".to_owned(),
        "-t".to_owned(),
        "%3".to_owned(),
        "-s".to_owned(),
        "work:1".to_owned(),
        "set-option".to_owned(),
        "-g".to_owned(),
        "@picked".to_owned(),
        "%%".to_owned(),
    ])
    .expect("display-panes");
    assert!(matches!(
        invocation.request,
        Request::DisplayPanes {
            target: Some(target),
            source: Some(source),
            no_zoom: true,
            no_mode: false,
            command,
            kill_on_exit: true,
        } if target == "%3"
            && source == "work:1"
            && command == ["set-option", "-g", "@picked", "%%"]
    ));
}

#[test]
fn copy_mode_parses_page_direction_and_reset_options() {
    let page_down = parse_words(&["copy-mode".to_owned(), "-d".to_owned()]).expect("page down");
    assert!(matches!(
        page_down.request,
        Request::CopyMode {
            page: false,
            page_down: true,
            reset: false,
            ..
        }
    ));
    let reset = parse_words(&["copy-mode".to_owned(), "-q".to_owned()]).expect("reset");
    assert!(matches!(
        reset.request,
        Request::CopyMode {
            page_down: false,
            reset: true,
            ..
        }
    ));
    let source = parse_words(&[
        "copy-mode".to_owned(),
        "-s".to_owned(),
        "work:1.2".to_owned(),
    ])
    .expect("copy source");
    assert!(matches!(
        source.request,
        Request::CopyMode {
            source: Some(source),
            ..
        } if source == "work:1.2"
    ));
    let mouse = parse_words(&["copy-mode".to_owned(), "-M".to_owned(), "-S".to_owned()])
        .expect("mouse copy mode flags");
    assert!(matches!(
        mouse.request,
        Request::CopyMode {
            mouse_start: true,
            scroll_to_mouse: true,
            ..
        }
    ));
}

#[test]
fn display_panes_accepts_tmux_combined_delay_flags() {
    let invocation = parse_words(&[
        "display-panes".to_owned(),
        "-Nd".to_owned(),
        "500".to_owned(),
        "set-option".to_owned(),
        "-g".to_owned(),
        "@after".to_owned(),
        "fast".to_owned(),
    ])
    .expect("combined display-panes flags");
    assert!(matches!(
        invocation.request,
        Request::DisplayPanes {
            no_zoom: false,
            no_mode: true,
            command,
            ..
        } if command == ["set-option", "-g", "@after", "fast"]
    ));
}

fn words(text: &str) -> Vec<String> {
    text.split(' ').map(|word| word.to_owned()).collect()
}

fn error_of(text: &str) -> String {
    match parse_words(&words(text)) {
        Ok(_) => panic!("{text} was accepted"),
        Err(error) => error,
    }
}

#[test]
fn no_command_makes_a_session_and_attaches() {
    let invocation = parse_words(&[]).expect("default");
    assert!(invocation.attach);
    assert!(matches!(
        invocation.request,
        Request::NewSession { name: None, detached: false, cwd: Some(cwd), size, command, .. }
            if cwd == "/home" && size.cols == 80 && size.rows == 24 && command.is_empty()
    ));
}

#[test]
fn sockets_are_named_by_path_or_label() {
    let path = parse_words(&words("-S /run/x ls")).expect("path");
    assert!(matches!(path.socket, SocketOf::Path(path) if path == "/run/x"));
    let joint = parse_words(&words("-S/run/x ls")).expect("joint");
    assert!(matches!(joint.socket, SocketOf::Path(path) if path == "/run/x"));
    let label = parse_words(&words("-L work ls")).expect("label");
    assert!(matches!(label.socket, SocketOf::Temporary(name) if name == "tm-work.sock"));
    let last = parse_words(&words("-L work -S /run/y ls")).expect("last");
    assert!(matches!(last.socket, SocketOf::Path(path) if path == "/run/y"));
    let none = parse_words(&words("ls")).expect("none");
    assert!(matches!(none.socket, SocketOf::Default));
    assert_eq!(error_of("-S"), "-S requires an argument");
}

#[test]
fn text_behind_the_separator_is_kept() {
    for command in ["ls -l --", "-d -s x", "--", "-- --"] {
        let mut arguments = words("new-session -d -s build --");
        arguments.extend(words(command));
        let invocation = parse_words(&arguments).expect("parse");
        assert!(matches!(
            invocation.request,
            Request::NewSession { command: kept, name: Some(name), detached: true, .. }
                if kept == words(command) && name == "build"
        ));
    }
}

#[test]
fn attached_values_are_separate_ones() {
    for line in ["new -dswork -x100 -y50", "new -d -s work -x 100 -y 50", "new -d -swork -x100 -y 50"] {
        let invocation = parse_words(&words(line)).expect("parse");
        assert!(!invocation.attach);
        assert!(matches!(
            invocation.request,
            Request::NewSession { name: Some(name), size, .. }
                if name == "work" && size.cols == 100 && size.rows == 50
        ));
    }
}

#[test]
fn the_last_of_an_option_counts() {
    let invocation = parse_words(&words("kill-window -t a -t b -t c")).expect("parse");
    assert!(matches!(
        invocation.request,
        Request::KillWindow { target: Some(target), .. } if target == "c"
    ));
}

#[test]
fn options_are_refused_with_a_reason() {
    assert_eq!(error_of("new-session -q"), "unknown new-session option: -q");
    assert_eq!(error_of("new-session -x 0"), "-x requires a positive integer");
    assert_eq!(error_of("new-session -y wide"), "-y requires a positive integer");
    assert_eq!(error_of("new-session -s"), "-s requires an argument");
    assert_eq!(error_of("new-session -E -- sh"), "command cannot be given for empty pane");
    assert_eq!(error_of("send-keys -N 0 a"), "-N requires a positive integer");
    assert_eq!(error_of("split-window -Z"), "unknown option: -Z");
    assert_eq!(error_of("load-buffer"), "load-buffer requires a file");
    assert_eq!(error_of("attach -q"), "unknown attach option: -q");
}

#[test]
fn unknown_commands_show_the_usage() {
    assert_eq!(error_of("frobnicate"), format!("unknown command: frobnicate\n\n{}", usage()));
    assert_eq!(error_of("help"), usage());
    assert_eq!(error_of("--help"), usage());
}

#[test]
fn an_empty_command_asks_for_an_empty_pane() {
    let mut arguments = words("new-window -n x");
    arguments.push(String::new());
    let invocation = parse_words(&arguments).expect("parse");
    assert!(matches!(
        invocation.request,
        Request::NewWindow { empty: true, command, .. } if command.is_empty()
    ));
}

#[test]
fn data_to_load_is_read_later() {
    let invocation = parse_words(&words("load-buffer -b name -")).expect("parse");
    assert!(matches!(invocation.source, Some(SourceOf::StandardInput)));
    let loaded = invocation.with_data(vec![1, 2, 3]);
    assert!(loaded.source.is_none());
    assert!(matches!(
        loaded.request,
        Request::LoadBuffer { name: Some(name), data } if name == "name" && data == [1, 2, 3]
    ));
    let file = parse_words(&words("load-buffer /tmp/data")).expect("parse");
    assert!(matches!(file.source, Some(SourceOf::File(path)) if path == "/tmp/data"));
}

#[test]
fn keys_are_sent_in_order_and_as_often_as_asked() {
    let sent = |line: &str| match parse_words(&words(line)).expect("parse").request {
        Request::SendKeys { bytes, .. } => bytes,
        _ => panic!("no keys"),
    };
    assert_eq!(sent("send-keys a C-b Up"), b"a\x02\x1b[A");
    assert_eq!(sent("send-keys -N 3 x y"), b"xyxyxy");
    assert_eq!(sent("send-keys -N2 x"), b"xx");
    assert_eq!(sent("send-keys -l Enter Up"), b"Enter Up");
    assert_eq!(sent("send-keys M-x C-@"), b"\x1bx\0");
    assert_eq!(sent("send-prefix"), [2]);
}

#[test]
fn keys_that_are_all_modifier_are_none() {
    assert!(!check_key("C-"));
    assert!(!check_key("M-"));
    assert!(check_key("C-m"));
    assert!(check_key("é"));
    assert!(!check_key("a€"));
    assert!(!check_arguments(&words("send-keys C-")));
    assert!(check_arguments(&words("send-keys -l C-")));
}

#[test]
fn panes_are_resized_by_cells_and_percentages() {
    assert_eq!(parse_resize_value("10"), Ok((10, false)));
    assert_eq!(parse_resize_value("30%"), Ok((30, true)));
    assert!(parse_resize_value("wide").is_err());
    assert_eq!(parse_capture_offset("-5"), Ok(-5));
}

#[test]
fn dimensions_are_positive() {
    assert_eq!(parse_dimension("80", "-x"), Ok(80));
    assert_eq!(parse_dimension("+80", "-x"), Ok(80));
    assert_eq!(parse_dimension("0", "-x"), Err("-x requires a positive integer".to_owned()));
    assert_eq!(parse_dimension("65536", "-y"), Err("-y requires a positive integer".to_owned()));
}

#[test]
fn attach_takes_glued_sizes_at_any_place() {
    for line in [
        "attach -t a -x100 b -y50",
        "attach -t a -x 100 b -y50",
        "attach -t a -x100 b -y 50",
        "attach -x7 -t a -x 100 b -y 50",
    ] {
        let invocation = parse_words(&words(line)).expect("parse");
        assert!(invocation.attach);
        assert!(matches!(
            invocation.request,
            Request::Attach { target: Some(target), size }
                if target == "b" && size.cols == 100 && size.rows == 50
        ));
    }
    assert!(matches!(
        parse_words(&words("attach -t -x100")).expect("value").request,
        Request::Attach { target: Some(target), .. } if target == "-x100"
    ));
    assert_eq!(error_of("attach -x0"), "-x requires a positive integer");
    assert_eq!(error_of("attach -q -x0"), "unknown attach option: -q");
}

#[test]
fn kill_session_ignores_idle_options() {
    for line in ["kill-session -a -t x", "kill-session -f -C -a -t x", "kill-session -a -C -t x -f"] {
        assert!(matches!(
            parse_words(&words(line)).expect("parse").request,
            Request::KillSession { target: Some(target), all: true } if target == "x"
        ));
    }
    assert!(matches!(
        parse_words(&words("kill-session -t -f")).expect("value").request,
        Request::KillSession { target: Some(target), all: false } if target == "-f"
    ));
    assert_eq!(error_of("kill-session -f -t x"), "-f only valid with -a");
}

#[test]
fn clusters_of_switches_are_switches_one_by_one() {
    for line in ["set -gwu status on", "set -g -w -u status on", "set -gw -u status on"] {
        assert!(matches!(
            parse_words(&words(line)).expect("parse").request,
            Request::SetOption { target: None, scope: Some(OptionScope::Window), key, value, unset: true }
                if key == "status" && value == "on"
        ));
    }
    assert!(matches!(
        parse_words(&words("set -qu status")).expect("unset").request,
        Request::SetOption { scope: None, value, unset: true, .. } if value.is_empty()
    ));
    assert_eq!(error_of("set -gq status"), "set-option requires a value");
    assert_eq!(error_of("set -gx status on"), "unknown set-option option: -x");
}
