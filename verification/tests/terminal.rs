use tm::emulator::Parser;
use tm::terminal::{escape_end, incomplete_escape_start, incomplete_utf8_start};
use tm::terminal::{repeat_count, replay, screen_alignment, wrap_mode, OutputState};

#[derive(Debug, Eq, PartialEq)]
struct ScreenSnapshot {
    contents: Vec<u8>,
    cursor: (u16, u16),
    alternate: bool,
    scrollback: usize,
    fgcolor: vt100::Color,
    bgcolor: vt100::Color,
    bold: bool,
    dim: bool,
    italic: bool,
    underline: bool,
    inverse: bool,
    wrapped_rows: Vec<bool>,
}

fn snapshot(parser: &Parser) -> ScreenSnapshot {
    let screen = parser.screen();
    let (rows, _) = screen.size();
    ScreenSnapshot {
        contents: screen.contents_formatted(),
        cursor: screen.cursor_position(),
        alternate: screen.alternate_screen(),
        scrollback: screen.scrollback(),
        fgcolor: screen.fgcolor(),
        bgcolor: screen.bgcolor(),
        bold: screen.bold(),
        dim: screen.dim(),
        italic: screen.italic(),
        underline: screen.underline(),
        inverse: screen.inverse(),
        wrapped_rows: (0..rows).map(|row| screen.row_wrapped(row)).collect(),
    }
}

/// Exercise all byte boundaries in addition to the live one-shot path.
/// PTY reads can split an escape, UTF-8 scalar, OSC, or REP sequence at
/// any position, so this is the deterministic oracle for OutputState.
fn assert_chunk_invariant(bytes: &[u8], rows: u16, cols: u16) {
    let mut expected_parser = Parser::new(rows, cols, 100);
    let mut expected_state = OutputState::default();
    expected_state.process(&mut expected_parser, bytes);
    expected_state.finish(&mut expected_parser);
    let expected = snapshot(&expected_parser);

    for chunk_size in 1..=bytes.len().max(1) {
        let mut parser = Parser::new(rows, cols, 100);
        let mut state = OutputState::default();
        for chunk in bytes.chunks(chunk_size) {
            state.process(&mut parser, chunk);
        }
        state.finish(&mut parser);
        assert_eq!(snapshot(&parser), expected, "chunk size {chunk_size}");
    }

    let mut replay_parser = Parser::new(rows, cols, 100);
    replay(&mut replay_parser, bytes);
    assert_eq!(snapshot(&replay_parser), expected, "replay diverged");
}

#[test]
fn output_state_expands_split_dec_repeat_sequences() {
    let mut parser = Parser::new(3, 10, 100);
    let mut state = OutputState::default();
    state.process(&mut parser, b"A\x1b[4");
    state.process(&mut parser, b"bB");
    assert!(parser.screen().contents().starts_with("AAAAAB"));
}

#[test]
fn output_state_expands_split_screen_alignment_sequences() {
    let mut parser = Parser::new(3, 4, 100);
    let mut state = OutputState::default();
    state.process(&mut parser, b"\x1b#");
    state.process(&mut parser, b"8");
    assert!(parser.screen().rows(0, 4).all(|row| row == "EEEE"));
}

#[test]
fn output_state_honors_split_no_wrap_mode_sequences() {
    let mut parser = Parser::new(3, 5, 100);
    let mut state = OutputState::default();
    state.process(&mut parser, b"\x1b[?7");
    state.process(&mut parser, b"labcdeF");
    assert_eq!(parser.screen().rows(0, 5).next(), Some("abcdF".to_owned()));
}

#[test]
fn output_state_tracks_wrap_in_combined_private_mode_sequences() {
    let mut parser = Parser::new(3, 5, 100);
    let mut state = OutputState::default();
    state.process(&mut parser, b"\x1b[?7;25labcdeF");
    assert_eq!(parser.screen().rows(0, 5).next(), Some("abcdF".to_owned()));
    assert!(parser.screen().hide_cursor());
}

#[test]
fn output_state_honors_split_utf8_characters() {
    let mut parser = Parser::new(3, 10, 100);
    let mut state = OutputState::default();
    state.process(&mut parser, b"\xe3");
    state.process(&mut parser, b"\x81\x82");
    assert!(parser.screen().contents().contains('あ'));
}

#[test]
fn output_state_does_not_treat_esc_b_as_dec_repeat() {
    let mut parser = Parser::new(2, 8, 100);
    let mut state = OutputState::default();
    state.process(&mut parser, b"A\x1bbB");
    state.finish(&mut parser);
    assert_eq!(parser.screen().rows(0, 8).next(), Some("AB".to_owned()));
}

#[test]
fn repeat_count_only_accepts_csi_repeat_sequences() {
    assert_eq!(repeat_count(b"\x1bb"), None);
    assert_eq!(repeat_count(b"\x1b[b"), Some(1));
    assert_eq!(repeat_count(b"\x1b[4b"), Some(4));
    assert_eq!(repeat_count(b"\x1b[4;2b"), Some(4));
}

#[test]
fn output_state_ris_resets_local_wrap_and_repeat_state() {
    let mut parser = Parser::new(2, 5, 100);
    let mut state = OutputState::default();
    state.process(&mut parser, b"A\x1b[?7lbcde\x1bc\x1b[2bF");
    state.finish(&mut parser);

    // RIS clears the old screen, restores DECAWM, and clears the
    // preceding graphic character used by REP.
    assert_eq!(parser.screen().rows(0, 5).next(), Some("F".to_owned()));
    assert_eq!(parser.screen().cursor_position(), (0, 1));
}

#[test]
fn output_state_preserves_wrap_mode_across_alternate_screen_switches() {
    let bytes = b"\x1b[?7labcde\x1b[?1049h12345F\x1b[?1049lZ";
    assert_chunk_invariant(bytes, 2, 5);

    let mut parser = Parser::new(2, 5, 100);
    replay(&mut parser, bytes);
    assert!(!parser.screen().alternate_screen());
    assert_eq!(parser.screen().rows(0, 5).next(), Some("abcdZ".to_owned()));
}

#[test]
fn output_state_is_chunk_invariant_for_vt100_fixture() {
    let bytes = b"\x1b[2J\x1b[1;1Hplain \x1b[31mred\x1b[0m \xc3\xa9\xe3\x81\x82\xcc\x81\r\n\x1b[2;3HAB\x1b[4bC\x1b[?25l\x1b]2;window title\x07\x1b]7;file:///tmp/demo\x1b\\\x1b[?25h";
    assert_chunk_invariant(bytes, 4, 20);
}

#[test]
fn output_state_is_chunk_invariant_for_reset_alt_and_malformed_sequences() {
    let bytes = b"prefix\x1b[?7l012345\x1b[?1049hALT\x1b[?1049l\x1bcpost\x1b[31\x1b[?25h\x1b]2;unterminated";
    assert_chunk_invariant(bytes, 3, 6);
}

#[test]
fn output_state_reports_only_standalone_audible_bells() {
    let mut parser = Parser::new(2, 20, 100);
    let mut state = OutputState::default();
    state.process(&mut parser, b"\x1b]2;title\x07");
    assert!(!state.take_audible_bell());

    state.process(&mut parser, b"\x1b]7;file:///tmp\x1b");
    assert!(!state.take_audible_bell());
    state.process(&mut parser, b"\\\x07");
    assert!(state.take_audible_bell());
}

fn first_row(parser: &Parser, cols: u16) -> String {
    parser.screen().rows(0, cols).next().expect("a row")
}

#[test]
fn sequences_end_where_they_are_complete() {
    assert_eq!(escape_end(b"\x1b[31mx", 0), Some(5));
    assert_eq!(escape_end(b"\x1b[31", 0), None);
    assert_eq!(escape_end(b"a\x1b]2;t\x07b", 1), Some(7));
    assert_eq!(escape_end(b"\x1b]2;t\x1b\\b", 0), Some(7));
    assert_eq!(escape_end(b"\x1b]2;t\x1b", 0), None);
    assert_eq!(escape_end(b"\x1b]2;t\x1b[m", 0), None);
    assert_eq!(escape_end(b"\x1b#8", 0), Some(3));
    assert_eq!(escape_end(b"\x1b#", 0), None);
    assert_eq!(escape_end(b"\x1bc", 0), Some(2));
    assert_eq!(escape_end(b"\x1b", 0), None);
}

#[test]
fn what_is_not_complete_waits() {
    assert_eq!(incomplete_escape_start(b"ab\x1b[3"), Some(2));
    assert_eq!(incomplete_escape_start(b"ab\x1b[3m"), None);
    assert_eq!(incomplete_escape_start(b"ab"), None);
    assert_eq!(incomplete_utf8_start(b"a\xe3\x81"), Some(1));
    assert_eq!(incomplete_utf8_start(b"a\xe3\x81\x82"), None);
    assert_eq!(incomplete_utf8_start(b"a\xff"), None);
    let mut parser = Parser::new(2, 10, 0);
    let mut state = OutputState::default();
    state.process(&mut parser, b"ab\x1b[3");
    assert_eq!(state.pending, b"\x1b[3");
    assert_eq!(state.last_printed, Some(b"b".to_vec()));
    state.finish(&mut parser);
    assert!(state.pending.is_empty());
}

#[test]
fn wrap_modes_are_private_modes() {
    assert_eq!(wrap_mode(b"\x1b[?7h"), Some(true));
    assert_eq!(wrap_mode(b"\x1b[?25;7l"), Some(false));
    assert_eq!(wrap_mode(b"\x1b[?25l"), None);
    assert_eq!(wrap_mode(b"\x1b[?7;x;l"), None);
    assert_eq!(wrap_mode(b"\x1b[7l"), None);
    assert_eq!(wrap_mode(b"\x1b[?7m"), None);
}

#[test]
fn repetition_counts_are_numbers() {
    assert_eq!(repeat_count(b"\x1b[0b"), Some(0));
    assert_eq!(repeat_count(b"\x1b[x4b"), Some(1));
    assert_eq!(repeat_count(b"\x1b[99999999999999999999999b"), Some(1));
    assert_eq!(repeat_count(b"\x1b[4c"), None);
}

#[test]
fn alignment_fills_the_screen_and_keeps_the_cursor() {
    let mut parser = Parser::new(2, 3, 0);
    parser.process(b"ab");
    assert_eq!(
        screen_alignment(&parser),
        b"\x1b[2J\x1b[1;1HEEE\x1b[2;1HEEE\x1b[1;3H"
    );
    replay(&mut parser, b"\x1b#8");
    assert_eq!(parser.screen().contents(), "EEE\nEEE");
    assert_eq!(parser.screen().cursor_position(), (0, 2));
}

#[test]
fn plain_output_reaches_the_emulator_as_it_is() {
    let bytes = "plain \u{1b}[1mbold\u{1b}[0m \u{1b}]2;title\u{7} é\r\nnext".as_bytes();
    let mut direct = Parser::new(4, 20, 10);
    direct.process(bytes);
    let expected = snapshot(&direct);
    for size in 1..bytes.len() {
        let mut parser = Parser::new(4, 20, 10);
        let mut state = OutputState::default();
        for chunk in bytes.chunks(size) {
            state.process(&mut parser, chunk);
        }
        state.finish(&mut parser);
        assert_eq!(snapshot(&parser), expected);
    }
}

#[test]
fn replay_shows_what_was_live() {
    let bytes = b"one\x1b[3b\r\n\x1b[?7lverylongline\x1b[?7h\x1b[2;1Hx\x1b[2b";
    let mut live = Parser::new(3, 8, 10);
    let mut state = OutputState::default();
    for chunk in bytes.chunks(3) {
        state.process(&mut live, chunk);
    }
    state.finish(&mut live);
    let mut again = Parser::new(3, 8, 10);
    replay(&mut again, bytes);
    assert_eq!(snapshot(&live), snapshot(&again));
    assert_eq!(first_row(&live, 8), "oneeee");
}

#[test]
fn emulators_can_change_their_size() {
    let mut parser = Parser::new(2, 4, 10);
    parser.process(b"abcd");
    assert_eq!(parser.screen().cursor_position(), (0, 4));
    parser.set_size(3, 6);
    assert_eq!(parser.screen().size(), (3, 6));
    assert_eq!(first_row(&parser, 6), "abcd");
}

#[test]
fn nothing_is_repeated_before_a_character() {
    let mut parser = Parser::new(2, 8, 0);
    let mut state = OutputState::default();
    state.process(&mut parser, b"\x1b[5bA");
    assert_eq!(first_row(&parser, 8), "A");
    assert_eq!(state.last_printed, Some(b"A".to_vec()));
    state.process(&mut parser, b"\x07");
    assert!(state.take_audible_bell());
    assert!(!state.take_audible_bell());
}

/// The screen, and what the output has come to, behind chunks.
fn behind(chunks: &[&[u8]], rows: u16, cols: u16) -> (ScreenSnapshot, OutputState) {
    let mut parser = Parser::new(rows, cols, 100);
    let mut state = OutputState::default();
    for chunk in chunks {
        assert!(state.can_process(&parser, chunk));
        state.process(&mut parser, chunk);
    }
    (snapshot(&parser), state)
}

fn assert_cut_anywhere(bytes: &[u8], rows: u16, cols: u16) {
    let (expected, whole) = behind(&[bytes], rows, cols);
    for first in 0..=bytes.len() {
        for second in first..=bytes.len() {
            let chunks = [&bytes[..first], &bytes[first..second], &bytes[second..]];
            let (shown, state) = behind(&chunks, rows, cols);
            assert_eq!(shown, expected, "cut at {first} and {second}");
            assert_eq!(state.pending, whole.pending);
            assert_eq!(state.last_printed, whole.last_printed);
            assert_eq!(state.wrap, whole.wrap);
            assert_eq!(state.audible_bell, whole.audible_bell);
        }
    }
}

#[test]
fn titles_may_be_cut_in_their_terminator() {
    assert_cut_anywhere(b"A\x1b]2;t\x1b\\\x1b[2bB", 3, 10);
    let mut parser = Parser::new(3, 10, 100);
    let mut state = OutputState::default();
    state.process(&mut parser, b"A\x1b]2;t\x1b");
    assert_eq!(state.pending, b"\x1b]2;t\x1b");
    state.process(&mut parser, b"\\\x1b[2b");
    assert_eq!(first_row(&parser, 10), "AAA");
    assert_eq!(state.last_printed, Some(b"A".to_vec()));
}

#[test]
fn output_that_is_no_text_may_be_cut_anywhere() {
    assert_cut_anywhere(b"A\xc3\xa9\xff\x1b[2b", 3, 10);
    assert_cut_anywhere(b"\xff\xe3\x81\xc3\xa9\xe3\x1b\xc3\xa9B", 3, 10);
    let (_, state) = behind(&[b"A\xc3\xa9\xff"], 3, 10);
    assert_eq!(state.last_printed, Some("é".as_bytes().to_vec()));
}

#[test]
fn sequences_may_be_interrupted_and_cut() {
    assert_cut_anywhere(b"x\x1b[31\x1b[?25h\x1b[2b", 3, 10);
    assert_cut_anywhere(b"x\x1b]2;t\x1b[31my\x07\x1b[2b", 3, 20);
    assert_cut_anywhere(b"x\x1bP1\x1b\\\x1b#8\x1b[?7l\x1b\x1b[3b", 3, 10);
}

#[test]
fn the_last_escape_may_be_open() {
    assert_eq!(incomplete_escape_start(b"\x1b]2;t\x1b"), Some(5));
    assert_eq!(incomplete_escape_start(b"\x1b]2;t\x1b[31m"), None);
    assert_eq!(incomplete_escape_start(b"\x1b]2;t\x1b[31"), Some(5));
    assert_eq!(incomplete_escape_start(b"\x1b[31\x1bc"), None);
}

#[test]
fn the_last_character_may_be_cut_short() {
    assert_eq!(incomplete_utf8_start(b"\x1b[4\xe3"), Some(3));
    assert_eq!(incomplete_utf8_start(b"\x1b]2;\xc3"), Some(4));
    assert_eq!(incomplete_utf8_start(b"\x1b\xe3"), Some(1));
    assert_eq!(incomplete_utf8_start(b"\xff\xc3"), None);
    assert_eq!(incomplete_utf8_start(b"\xff\xe3"), None);
    assert_eq!(incomplete_utf8_start(b"\xf0\x9f\x98"), Some(0));
    assert_eq!(incomplete_utf8_start(b"\xe0\x80"), None);
    assert_eq!(incomplete_utf8_start(b""), None);
}

#[test]
fn strings_that_cannot_end_do_not_wait() {
    let (_, open) = behind(&[b"\x1b]2;t\x1b"], 3, 20);
    assert_eq!(open.pending, b"\x1b]2;t\x1b");
    let (_, broken) = behind(&[b"\x1b]2;t\x1b[31"], 3, 20);
    assert_eq!(broken.pending, b"\x1b[31");
    let (_, invalid) = behind(&[b"\xff\xc3"], 3, 20);
    assert_eq!(invalid.pending, b"\xc3");
}

#[test]
fn one_row_shows_lines_that_fit() {
    let mut parser = Parser::new(1, 5, 10);
    let mut state = OutputState::default();
    assert!(state.can_process(&parser, b"hello\r\nab"));
    state.process(&mut parser, b"hello\r\nab");
    assert_eq!(first_row(&parser, 5), "ab");
    assert!(parser.accepts(b"cde"));
    assert!(!parser.accepts(b"cdef"));
    assert!(!parser.accepts(b"\x1b[9C"));
    assert!(!state.can_process(&parser, b"cdef"));
    replay(&mut parser, b"\x08xyz");
    assert_eq!(first_row(&parser, 5), "axyz");
    assert_cut_anywhere(b"\x1b[1;31mred\x1b[0m\r\x1b[Kon\x07e", 1, 3);
    assert_cut_anywhere(b"\x1b]2;a long title\x07abc\x1b[H\x1b[Jxy\x1b]0;t\x1b\\z", 1, 3);
    let mut home = Parser::new(1, 3, 0);
    replay(&mut home, b"abc\x1b[Gx\x1b[2Dyz");
    assert_eq!(first_row(&home, 3), "yzc");
    assert!(!home.accepts(b"\x1b[3Gab"));
    let (_, state) = behind(&[b"ab\x1b[3", b"1mc\x1b["], 1, 3);
    assert_eq!(state.pending, b"\x1b[");
    assert_eq!(state.last_printed, Some(b"c".to_vec()));
}

#[test]
fn wide_characters_need_their_columns() {
    let mut parser = Parser::new(2, 1, 0);
    assert!(parser.accepts("é".as_bytes()));
    assert!(!parser.accepts("あ".as_bytes()));
    let mut state = OutputState::default();
    state.process(&mut parser, "éa".as_bytes());
    assert_eq!(first_row(&parser, 1), "é");
    assert_eq!(parser.screen().cursor_position(), (1, 1));
    assert!(!Parser::new(2, 2, 0).accepts("\u{17d8}".as_bytes()));
    let mut wider = Parser::new(2, 3, 0);
    assert!(wider.accepts("\u{17d8}あ".as_bytes()));
    wider.process("\u{17d8}あ".as_bytes());
    wider.set_size(2, 2);
    assert!(!wider.accepts("あ".as_bytes()));
    assert!(!wider.accepts(b"a"));
    wider.set_size(2, 4);
    assert!(!wider.accepts(b"a"));
}

#[test]
fn narrow_characters_may_lose_columns() {
    let mut parser = Parser::new(2, 6, 0);
    let mut state = OutputState::default();
    state.process(&mut parser, "─│█→\u{e0b0}é".as_bytes());
    parser.set_size(2, 2);
    assert!(parser.accepts("─".as_bytes()));
    assert!(!parser.accepts("あ".as_bytes()));
    parser.set_size(2, 1);
    for chunk in [&b"\r\xe2"[..], b"\x94", b"\x82"] {
        assert!(state.can_process(&parser, chunk));
        state.process(&mut parser, chunk);
    }
    assert_eq!(first_row(&parser, 1), "│");
    assert_eq!(state.last_printed, Some("│".as_bytes().to_vec()));
    assert!(state.can_process(&parser, b"\x1b[2b"));
    assert!(!state.can_process(&parser, b"\xe3\x81"));
    assert!(state.can_process(&parser, b"\xe3"));
}

#[test]
fn resets_and_repetitions_follow_the_last_character() {
    let (_, state) = behind(&[b"A\x1b[?7l\x1b", b"c"], 2, 5);
    assert!(state.wrap);
    assert_eq!(state.last_printed, None);
}
