use tm::client::{attached, connect_step, next, resize_message, role, starts_server, step};
use tm::client::{ConnectStep, NextOf, RoleOf, StepOf};
use tm::geometry::Size;
use tm::protocol::message::{ClientMessage, ServerMessage};
use tm::protocol::request::Request;
use tm::protocol::wire::WireError;
use tm::pty::{command_line, file_name, terminal_name};
use tm::terminal;

fn texts(list: &[&str]) -> Vec<String> {
    list.iter().map(|text| text.to_string()).collect()
}

fn response(ok: bool, body: &str) -> ServerMessage {
    ServerMessage::Response { ok, body: body.to_owned() }
}

fn display() -> Request {
    Request::DisplayMessage {
        target: None,
        format: "hello".to_owned(),
    }
}

#[test]
fn the_first_argument_says_what_a_process_is() {
    assert!(matches!(role(&texts(&["--daemon", "/s"])), RoleOf::Daemon(path) if path == "/s"));
    assert!(matches!(role(&texts(&["--daemon"])), RoleOf::DaemonWithoutSocket));
    assert!(matches!(role(&texts(&["-V"])), RoleOf::Version));
    assert!(matches!(role(&texts(&["--version", "x"])), RoleOf::Version));
    assert!(matches!(role(&texts(&["ls", "-V"])), RoleOf::Client));
    assert!(matches!(role(&[]), RoleOf::Client));
}

#[test]
fn only_a_new_session_starts_the_daemon() {
    assert!(!starts_server(&Request::KillServer));
    assert!(!starts_server(&Request::Attach { target: None, size: Size::new(80, 24) }));
    let request = tm::command::session::default_new_session(None).request;
    assert!(starts_server(&request));
}

#[test]
fn answers_are_printed_refused_or_attached_to() {
    assert!(matches!(
        next(Request::KillServer, false, response(true, "")),
        Ok(NextOf::Finish(None))
    ));
    assert!(matches!(
        next(Request::KillServer, false, response(true, "line")),
        Ok(NextOf::Finish(Some(line))) if line == "line"
    ));
    assert!(matches!(
        next(display(), false, response(true, "")),
        Ok(NextOf::Finish(Some(line))) if line.is_empty()
    ));
    assert!(matches!(
        next(display(), true, response(false, "no such session")),
        Err(error) if error == "no such session"
    ));
    assert!(matches!(
        next(display(), false, ServerMessage::Closed),
        Err(error) if error == "server returned an invalid command response"
    ));
    let new_session = tm::command::session::default_new_session(None).request;
    assert!(matches!(
        next(new_session, true, response(true, "0")),
        Ok(NextOf::Attach(Some(target))) if target == "0"
    ));
    let attach = Request::Attach { target: Some("work".to_owned()), size: Size::new(80, 24) };
    assert!(matches!(
        next(attach, true, response(true, "")),
        Ok(NextOf::Attach(Some(target))) if target == "work"
    ));
    assert!(matches!(
        next(Request::KillServer, true, response(true, "x")),
        Ok(NextOf::Attach(None))
    ));
}

#[test]
fn attaching_can_be_refused() {
    assert_eq!(attached(response(true, "")), Ok(()));
    assert_eq!(attached(response(false, "gone")), Err("gone".to_owned()));
    assert_eq!(
        attached(ServerMessage::Closed),
        Err("server returned an invalid attach response".to_owned())
    );
}

#[test]
fn attached_clients_show_what_is_rendered() {
    assert!(matches!(
        step(Ok(ServerMessage::Render(vec![1, 2]))),
        StepOf::Show(bytes) if bytes == [1, 2]
    ));
    assert!(matches!(step(Ok(ServerMessage::Closed)), StepOf::Stop));
    assert!(matches!(step(Ok(response(true, "x"))), StepOf::Skip));
    assert!(matches!(step(Err(WireError::UnexpectedEnd)), StepOf::Stop));
    assert!(matches!(
        step(Err(WireError::TrailingData)),
        StepOf::Fail(message) if message == "trailing frame data"
    ));
}

#[test]
fn only_a_new_size_is_told() {
    let known = Size::new(80, 24);
    assert!(resize_message(known, known).is_none());
    assert!(matches!(
        resize_message(known, Size::new(81, 24)),
        Some(ClientMessage::Resize(size)) if size == Size::new(81, 24)
    ));
}

#[test]
fn sizes_that_are_not_known_are_the_usual_ones() {
    assert_eq!(terminal::size(Some((100, 40))), Size::new(100, 40));
    assert_eq!(terminal::size(Some((0, 40))), Size::new(80, 24));
    assert_eq!(terminal::size(Some((100, 0))), Size::new(80, 24));
    assert_eq!(terminal::size(None), Size::new(80, 24));
}

#[test]
fn panes_run_a_command_or_the_shell() {
    let command = texts(&["vi", "-R", "file"]);
    assert_eq!(command_line(&command, None), ("vi".to_owned(), texts(&["-R", "file"])));
    assert_eq!(command_line(&[], None), ("/bin/sh".to_owned(), texts(&["-l", "-i"])));
    assert_eq!(
        command_line(&[], Some("/usr/bin/zsh".to_owned())),
        ("/usr/bin/zsh".to_owned(), texts(&["-l", "-i"]))
    );
    assert_eq!(
        command_line(&[], Some("/usr/bin/fish".to_owned())),
        ("/usr/bin/fish".to_owned(), Vec::new())
    );
}

#[test]
fn file_names_are_those_of_paths() {
    for path in
        ["/usr/bin/bash", "bash", "bash/", "/bin/bash//", "x/bash/.", "./bash", "", "/", ".", "..", "a/..", "../.", "/.", "a/../", "...", "a/.b"]
    {
        let expected = std::path::Path::new(path).file_name().and_then(|name| name.to_str());
        assert_eq!(file_name(path).as_deref(), expected, "{path}");
    }
}

#[test]
fn terminals_have_a_name() {
    assert_eq!(terminal_name(Some("xterm".to_owned())), "xterm");
    assert_eq!(terminal_name(Some(String::new())), "screen-256color");
    assert_eq!(terminal_name(Some("x\0y".to_owned())), "screen-256color");
    assert_eq!(terminal_name(None), "screen-256color");
}

#[test]
fn clients_start_the_daemon_once_and_wait_for_it() {
    assert_eq!(connect_step(true, false, false, 0), ConnectStep::Use);
    assert_eq!(connect_step(true, true, true, 100), ConnectStep::Use);
    assert_eq!(connect_step(false, false, false, 0), ConnectStep::NoServer);
    assert_eq!(connect_step(false, true, false, 0), ConnectStep::Spawn);
    assert_eq!(connect_step(false, true, true, 0), ConnectStep::Wait(10));
    assert_eq!(connect_step(false, true, true, 99), ConnectStep::Wait(10));
    assert_eq!(connect_step(false, true, true, 100), ConnectStep::NotStarted);
}
