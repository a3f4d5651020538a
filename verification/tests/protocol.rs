use tm::geometry::Size;
use tm::protocol::decode::{decode_direction, decode_option_scope, Decoder};
use tm::protocol::frame::{frame_length, read_frame, write_frame, Input, MAX_FRAME};
use tm::protocol::message::{decode_client_message, decode_request, decode_server_message};
use tm::protocol::message::{read_client_message, read_request, read_server_message};
use tm::protocol::message::{write_client_message, write_request, write_server_message};
use tm::protocol::message::{ClientMessage, ServerMessage};
use tm::protocol::request::Request;
use tm::protocol::wire::{direction_code, option_scope_code, put_i32, put_string, put_strings};
use tm::protocol::wire::{OptionScope, PaneDirection, WireError};

#[test]
fn request_round_trip_preserves_command_arguments_and_target() {
    let request = Request::SplitWindow {
        target: Some("work:1.2".to_owned()),
        horizontal: true,
        before: false,
        full: false,
        detached: false,
        empty: false,
        zoom: false,
        size: None,
        command: vec!["printf".to_owned(), "a\tb".to_owned()],
        cwd: Some("/tmp".to_owned()),
    };
    let mut bytes = Vec::new();
    write_request(&mut bytes, &request).expect("encode");
    let payload = bytes[4..].to_vec();
    let decoded = read_request_from_payload(&payload).expect("decode");
    assert!(matches!(
        decoded,
        Request::SplitWindow {
            horizontal: true,
            ..
        }
    ));
}

#[test]
fn choose_tree_request_round_trip_preserves_mode_contract() {
    let request = Request::ChooseTree {
        target: Some("work:1".to_owned()),
        filter: Some("#{==:#{session_name},work}".to_owned()),
        format: Some("#{session_name}:#{window_index}".to_owned()),
        sort: "name".to_owned(),
        reverse: true,
        hide_source: true,
        kill_on_exit: true,
    };
    let mut bytes = Vec::new();
    write_request(&mut bytes, &request).expect("encode");
    let payload = bytes[4..].to_vec();
    let decoded = read_request_from_payload(&payload).expect("decode");
    assert!(matches!(
        decoded,
        Request::ChooseTree {
            target: Some(target),
            filter: Some(filter),
            format: Some(format),
            sort,
            reverse: true,
            hide_source: true,
            kill_on_exit: true,
        } if target == "work:1"
            && filter == "#{==:#{session_name},work}"
            && format == "#{session_name}:#{window_index}"
            && sort == "name"
    ));
}

#[test]
fn buffer_and_client_chooser_requests_round_trip() {
    for request in [
        Request::ChooseBuffer {
            target: Some("work:0".to_owned()),
            filter: Some("#{==:#{buffer_name},log}".to_owned()),
            format: Some("#{buffer_name}".to_owned()),
            sort: "name".to_owned(),
            reverse: true,
            kill_on_exit: true,
        },
        Request::ChooseClient {
            target: None,
            filter: Some("#{==:#{client_session},work}".to_owned()),
            format: Some("#{client_session}".to_owned()),
            kill_on_exit: false,
        },
    ] {
        let mut bytes = Vec::new();
        write_request(&mut bytes, &request).expect("encode");
        let payload = bytes[4..].to_vec();
        let decoded = read_request_from_payload(&payload).expect("decode");
        assert!(matches!(
            (request, decoded),
            (Request::ChooseBuffer { .. }, Request::ChooseBuffer { .. })
                | (Request::ChooseClient { .. }, Request::ChooseClient { .. })
        ));
    }
}

#[test]
fn paste_buffer_request_round_trip_preserves_bracketed_mode() {
    let request = Request::PasteBuffer {
        target: Some("work:0.1".to_owned()),
        name: Some("paste".to_owned()),
        raw: false,
        bracketed: true,
        separator: Some(b"|".to_vec()),
        delete: true,
    };
    let mut bytes = Vec::new();
    write_request(&mut bytes, &request).expect("encode");
    let payload = bytes[4..].to_vec();
    let decoded = read_request_from_payload(&payload).expect("decode");
    assert!(matches!(
        decoded,
        Request::PasteBuffer {
            target: Some(target),
            name: Some(name),
            bracketed: true,
            separator: Some(separator),
            delete: true,
            ..
        } if target == "work:0.1" && name == "paste" && separator == b"|"
    ));
}

#[test]
fn display_panes_request_round_trip_preserves_selection_contract() {
    let request = Request::DisplayPanes {
        target: Some("%3".to_owned()),
        source: Some("work:1".to_owned()),
        no_zoom: true,
        no_mode: false,
        command: vec![
            "set-option".to_owned(),
            "-g".to_owned(),
            "@picked".to_owned(),
            "%%".to_owned(),
        ],
        kill_on_exit: true,
    };
    let mut bytes = Vec::new();
    write_request(&mut bytes, &request).expect("encode");
    let payload = bytes[4..].to_vec();
    let decoded = read_request_from_payload(&payload).expect("decode");
    assert!(matches!(
        decoded,
        Request::DisplayPanes {
            target: Some(target),
            source: Some(source),
            no_zoom: true,
            no_mode: false,
            command,
            kill_on_exit: true,
        } if target == "%3"
            && source == "work:1"
            && command == ["set-option", "-g", "@picked", "%%"]
    ));
}

#[test]
fn copy_mode_request_round_trip_preserves_page_and_reset_options() {
    for request in [
        Request::CopyMode {
            target: Some("work:0".to_owned()),
            source: Some("work:1.2".to_owned()),
            exit_on_scroll: true,
            hide_position: true,
            kill_on_exit: false,
            page: false,
            page_down: true,
            reset: false,
            mouse_start: true,
            scroll_to_mouse: true,
        },
        Request::CopyMode {
            target: Some("work:0".to_owned()),
            source: None,
            exit_on_scroll: false,
            hide_position: false,
            kill_on_exit: false,
            page: false,
            page_down: false,
            reset: true,
            mouse_start: false,
            scroll_to_mouse: false,
        },
    ] {
        let mut bytes = Vec::new();
        write_request(&mut bytes, &request).expect("encode");
        let payload = bytes[4..].to_vec();
        let decoded = read_request_from_payload(&payload).expect("decode");
        match (request, decoded) {
            (
                Request::CopyMode {
                    source: Some(source),
                    mouse_start,
                    scroll_to_mouse,
                    ..
                },
                Request::CopyMode {
                    source: Some(decoded_source),
                    mouse_start: decoded_mouse_start,
                    scroll_to_mouse: decoded_scroll_to_mouse,
                    ..
                },
            ) => {
                assert_eq!(source, decoded_source);
                assert!(mouse_start);
                assert!(scroll_to_mouse);
                assert_eq!(mouse_start, decoded_mouse_start);
                assert_eq!(scroll_to_mouse, decoded_scroll_to_mouse);
            }
            (
                Request::CopyMode { source: None, .. },
                Request::CopyMode { source: None, .. },
            ) => {}
            _ => panic!("copy-mode source did not round-trip"),
        }
    }
}

fn read_request_from_payload(payload: &[u8]) -> Result<Request, WireError> {
    let mut framed = Vec::new();
    framed.extend_from_slice(&(payload.len() as u32).to_le_bytes());
    framed.extend_from_slice(payload);
    read_request(&mut Input::new(framed))
}

fn payload_of(request: &Request) -> Vec<u8> {
    let mut bytes = Vec::new();
    write_request(&mut bytes, request).expect("encode");
    bytes[4..].to_vec()
}

fn has_session(target: &str) -> Request {
    Request::HasSession { target: target.to_owned() }
}

#[test]
fn requests_have_a_fixed_form() {
    let mut bytes = Vec::new();
    write_request(&mut bytes, &has_session("wörk")).expect("encode");
    let tag = bytes[4];
    assert_eq!(bytes, [&[10, 0, 0, 0, tag, 5, 0, 0, 0][..], "wörk".as_bytes()].concat());
}

#[test]
fn requests_are_read_back_one_by_one() {
    let mut stream = Vec::new();
    write_request(&mut stream, &has_session("one")).expect("encode");
    write_request(&mut stream, &Request::KillServer).expect("encode");
    write_request(&mut stream, &has_session("")).expect("encode");
    let mut input = Input::new(stream);
    assert!(matches!(
        read_request(&mut input),
        Ok(Request::HasSession { target }) if target == "one"
    ));
    assert!(matches!(read_request(&mut input), Ok(Request::KillServer)));
    assert!(matches!(
        read_request(&mut input),
        Ok(Request::HasSession { target }) if target.is_empty()
    ));
    assert!(matches!(read_request(&mut input), Err(WireError::UnexpectedEnd)));
}

#[test]
fn every_kind_of_field_is_read_back() {
    let request = Request::NewWindow {
        target: Some("work".to_owned()),
        name: None,
        detached: true,
        empty: false,
        index: Some(4_000_000_000),
        force: true,
        format: None,
        after: false,
        before: true,
        select_existing: false,
        command: vec!["a".to_owned(), String::new(), "é".to_owned()],
        cwd: Some(String::new()),
    };
    let decoded = decode_request(&payload_of(&request)).expect("decode");
    assert_eq!(format!("{request:?}"), format!("{decoded:?}"));
    let request = Request::CapturePane {
        target: None,
        start: Some(-32),
        end: Some(i32::MIN),
        escape: false,
        join: true,
        preserve_trailing: false,
    };
    let decoded = decode_request(&payload_of(&request)).expect("decode");
    assert_eq!(format!("{request:?}"), format!("{decoded:?}"));
}

#[test]
fn messages_of_the_daemon_are_read_back() {
    let messages = [
        ServerMessage::Response { ok: true, body: "done".to_owned() },
        ServerMessage::Response { ok: false, body: "käse".to_owned() },
        ServerMessage::Render(vec![0, 27, 255]),
        ServerMessage::Closed,
    ];
    let mut stream = Vec::new();
    for message in &messages {
        write_server_message(&mut stream, message).expect("encode");
    }
    let mut input = Input::new(stream);
    for message in &messages {
        let decoded = read_server_message(&mut input).expect("decode");
        assert_eq!(format!("{message:?}"), format!("{decoded:?}"));
    }
}

#[test]
fn messages_of_a_client_are_read_back() {
    let messages = [
        ClientMessage::Input(b"keys".to_vec()),
        ClientMessage::Resize(Size::new(300, 2)),
        ClientMessage::Detach,
    ];
    let mut stream = Vec::new();
    for message in &messages {
        write_client_message(&mut stream, message).expect("encode");
    }
    let mut input = Input::new(stream);
    for message in &messages {
        let decoded = read_client_message(&mut input).expect("decode");
        assert_eq!(format!("{message:?}"), format!("{decoded:?}"));
    }
}

#[test]
fn frames_are_neither_empty_nor_too_large() {
    assert_eq!(frame_length([0, 0, 0, 0]), Err(WireError::InvalidFrameLength));
    assert_eq!(frame_length([1, 0, 0, 0]), Ok(1));
    assert_eq!(frame_length([0, 0, 0, 1]), Ok(MAX_FRAME));
    assert_eq!(frame_length([1, 0, 0, 1]), Err(WireError::InvalidFrameLength));
    let mut stream = vec![7];
    let large = vec![0; MAX_FRAME + 1];
    assert_eq!(write_frame(&mut stream, &large), Err(WireError::FrameTooLarge));
    assert_eq!(stream, [7]);
    assert_eq!(write_frame(&mut stream, &large[1..]), Ok(()));
    assert_eq!(stream.len(), 1 + 4 + MAX_FRAME);
}

#[test]
fn frames_that_cannot_be_read_say_why() {
    let mut short = Input::new(vec![1, 0, 0]);
    assert_eq!(read_frame(&mut short), Err(WireError::UnexpectedEnd));
    assert_eq!(short.position, 3);
    let mut cut = Input::new(vec![2, 0, 0, 0, 9]);
    assert_eq!(read_frame(&mut cut), Err(WireError::UnexpectedEnd));
    assert_eq!(cut.position, 5);
    let mut empty = Input::new(vec![0, 0, 0, 0, 1, 0, 0, 0, 9]);
    assert_eq!(read_frame(&mut empty), Err(WireError::InvalidFrameLength));
    assert_eq!(read_frame(&mut empty), Ok(vec![9]));
}

#[test]
fn payloads_that_cannot_be_read_say_why() {
    assert_eq!(decode_request(&[]).err(), Some(WireError::TruncatedFrame));
    assert_eq!(decode_request(&[255]).err(), Some(WireError::UnknownRequestTag));
    assert_eq!(decode_server_message(&[9]).err(), Some(WireError::UnknownServerMessageTag));
    assert_eq!(decode_client_message(&[9]).err(), Some(WireError::UnknownClientMessageTag));
    let tag = payload_of(&has_session("x"))[0];
    assert_eq!(decode_request(&[tag, 1, 0]).err(), Some(WireError::TruncatedInteger));
    assert_eq!(decode_request(&[tag, 2, 0, 0, 0, 65]).err(), Some(WireError::TruncatedBytes));
    assert_eq!(decode_request(&[tag, 1, 0, 0, 0, 255]).err(), Some(WireError::InvalidUtf8));
    assert_eq!(
        decode_request(&[tag, 1, 0, 0, 0, 65, 66]).err(),
        Some(WireError::TrailingData)
    );
    assert_eq!(decode_server_message(&[1, 2]).err(), Some(WireError::InvalidBoolean));
    let next = payload_of(&Request::NextWindow { target: None })[0];
    assert_eq!(decode_request(&[next, 2]).err(), Some(WireError::InvalidOptionalString));
    assert_eq!(decode_direction(0), Err(WireError::UnknownDirection));
    assert_eq!(decode_direction(8), Err(WireError::UnknownDirection));
    assert_eq!(decode_option_scope(5), Err(WireError::UnknownScope));
    let many = [0, 0, 1, 0];
    assert_eq!(Decoder::new(&many).strings().err(), Some(WireError::TooManyArguments));
}

#[test]
fn codes_are_read_back() {
    for direction in [
        PaneDirection::Left,
        PaneDirection::Right,
        PaneDirection::Up,
        PaneDirection::Down,
        PaneDirection::Next,
        PaneDirection::Previous,
        PaneDirection::Last,
    ] {
        assert_eq!(decode_direction(direction_code(direction)), Ok(direction));
    }
    for scope in [OptionScope::Global, OptionScope::Session, OptionScope::Window, OptionScope::Pane] {
        assert_eq!(decode_option_scope(option_scope_code(scope)), Ok(scope));
    }
    assert_eq!(direction_code(PaneDirection::Last), 7);
    assert_eq!(option_scope_code(OptionScope::Pane), 4);
}

#[test]
fn numbers_and_texts_have_fixed_encodings() {
    let mut output = Vec::new();
    put_i32(&mut output, -2);
    assert_eq!(output, [254, 255, 255, 255]);
    assert_eq!(Decoder::new(&output).i32(), Ok(-2));
    let mut output = Vec::new();
    put_string(&mut output, "é");
    assert_eq!(output, [2, 0, 0, 0, 0xc3, 0xa9]);
    assert_eq!(Decoder::new(&output).string(), Ok("é".to_owned()));
    let mut output = Vec::new();
    put_strings(&mut output, &["a".to_owned(), String::new()]);
    assert_eq!(output, [2, 0, 0, 0, 1, 0, 0, 0, b'a', 0, 0, 0, 0]);
    assert_eq!(Decoder::new(&output).strings(), Ok(vec!["a".to_owned(), String::new()]));
}

#[test]
fn errors_have_a_text() {
    assert_eq!(WireError::UnexpectedEnd.message(), "failed to fill whole buffer");
    assert_eq!(WireError::LengthOverflow.message(), "length overflow");
    assert_eq!(WireError::InvalidUtf8.message(), "invalid UTF-8 string");
}

#[test]
fn different_requests_have_different_bytes() {
    let requests = [
        has_session("a"),
        has_session("b"),
        has_session(""),
        Request::SelectWindow { target: "a".to_owned() },
        Request::NextWindow { target: None },
        Request::NextWindow { target: Some(String::new()) },
        Request::PreviousWindow { target: None },
        Request::KillServer,
    ];
    let encoded: Vec<Vec<u8>> = requests.iter().map(payload_of).collect();
    for (index, bytes) in encoded.iter().enumerate() {
        for other in &encoded[index + 1..] {
            assert_ne!(bytes, other);
        }
    }
}

#[test]
fn integers_that_cannot_be_read_consume_nothing() {
    let bytes = [7, 1, 0, 9];
    let mut decoder = Decoder::new(&bytes);
    assert_eq!(decoder.byte(), Ok(7));
    assert_eq!(decoder.u32(), Err(WireError::TruncatedInteger));
    assert_eq!(decoder.offset, 1);
    assert_eq!(decoder.u16(), Ok(1));
    assert_eq!(decoder.u16(), Err(WireError::TruncatedInteger));
    assert_eq!(decoder.offset, 3);
    assert_eq!(decoder.bool(), Err(WireError::InvalidBoolean));
    assert_eq!(decoder.offset, 4);
    assert_eq!(decoder.byte(), Err(WireError::TruncatedFrame));
    assert_eq!(decoder.bool(), Err(WireError::TruncatedFrame));
    assert_eq!(decoder.offset, 4);
}

#[test]
fn lists_of_strings_are_read_back() {
    for count in [0, 1, 1024, 1025] {
        let list: Vec<String> = (0..count).map(|number| format!("é{number}")).collect();
        let mut bytes = vec![1, 2, 3];
        put_strings(&mut bytes, &list);
        let end = bytes.len();
        bytes.push(9);
        let mut decoder = Decoder::new(&bytes);
        decoder.offset = 3;
        if count <= 1024 {
            assert_eq!(decoder.strings(), Ok(list));
            assert_eq!(decoder.offset, end);
        } else {
            assert_eq!(decoder.strings(), Err(WireError::TooManyArguments));
        }
    }
}

/// The position behind a read that fails.
fn stop(bytes: &[u8], read: fn(&mut Decoder) -> Option<WireError>) -> (Option<WireError>, usize) {
    let mut decoder = Decoder::new(bytes);
    let error = read(&mut decoder);
    (error, decoder.offset)
}

#[test]
fn reads_that_fail_leave_the_position_behind_what_was_read() {
    let truncated = Some(WireError::TruncatedInteger);
    assert_eq!(stop(&[1], |d| d.size().err()), (truncated, 0));
    assert_eq!(stop(&[1, 0, 2], |d| d.size().err()), (truncated, 2));
    assert_eq!(stop(&[1, 0, 0], |d| d.bytes().err()), (truncated, 0));
    assert_eq!(
        stop(&[2, 0, 0, 0, 65], |d| d.bytes().err()),
        (Some(WireError::TruncatedBytes), 4)
    );
    assert_eq!(
        stop(&[1, 0, 0, 0, 255], |d| d.string().err()),
        (Some(WireError::InvalidUtf8), 5)
    );
    assert_eq!(
        stop(&[2, 9], |d| d.optional_string().err()),
        (Some(WireError::InvalidOptionalString), 1)
    );
    assert_eq!(stop(&[1, 9], |d| d.optional_string().err()), (truncated, 1));
    assert_eq!(
        stop(&[2, 0, 0, 0, 1, 0, 0, 0, 65, 9], |d| d.strings().err()),
        (truncated, 9)
    );
    assert_eq!(
        stop(&[1, 4, 0, 0, 7], |d| d.strings().err()),
        (Some(WireError::TooManyArguments), 4)
    );
    assert_eq!(
        stop(&[1, 7, 7], |d| d.optional_i32().err()),
        (Some(WireError::TruncatedFrame), 3)
    );
    assert_eq!(stop(&[1, 7], |d| d.optional_u16().err()), (truncated, 1));
    assert_eq!(stop(&[1, 7, 7], |d| d.optional_u32().err()), (truncated, 1));
    assert_eq!(
        stop(&[3, 7], |d| d.optional_u32().err()),
        (Some(WireError::InvalidBoolean), 1)
    );
}
