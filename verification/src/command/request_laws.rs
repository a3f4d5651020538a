//! What the values and the operands of commands come to.

use vstd::prelude::*;
use vstd::utf8::encode_utf8;

use crate::command::invocation::{InvocationView, SourceOf};
use crate::command::items;
use crate::command::laws::{self, ran_through};
use crate::command::option_laws::{
    self, lemma_operand, lemma_pushed, lemma_switch, lemma_value, switch, valued,
};
use crate::command::options::{self, Dashes, Grammar, ItemView, Operands};
use crate::command::{buffer, client, keys, pane, parse, session, setting, window};
use crate::geometry::Size;
use crate::protocol::request::{RequestOf, RequestView};
use crate::protocol::wire::{OptionScope, PaneDirection};
use crate::text;
use crate::text_laws::{self, numeral};

verus! {

/// A request as it is, after which the client leaves again.
pub open spec fn plain(request: RequestView) -> Result<InvocationView, Seq<char>> {
    Ok(InvocationView { request, attach: false, source: None })
}

// ---------------------------------------------------------------------------
// Numbers.

/// A dimension is a number of cells from one up to what 16 bits hold.
pub proof fn law_dimensions_are_numbers(number: nat, flag: Seq<char>)
    ensures
        1 <= number <= 65535 ==> session::dimension(numeral(number), flag) == Ok::<u16, Seq<char>>(
            number as u16,
        ),
        number == 0 || number > 65535 ==> session::dimension(numeral(number), flag) == Err::<
            u16,
            Seq<char>,
        >(flag + " requires a positive integer"@),
{
    text_laws::law_numbers_are_read_back(number, 65535);
}

/// A size with `%` behind it is per cent, any other is in cells.
pub proof fn law_resize_values_are_numbers(number: nat)
    requires
        number <= 65535,
    ensures
        pane::resize_value(numeral(number)) == Ok::<(u16, bool), Seq<char>>(
            (number as u16, false),
        ),
        pane::resize_value(numeral(number).push('%')) == Ok::<(u16, bool), Seq<char>>(
            (number as u16, true),
        ),
{
    text_laws::law_numbers_are_read_back(number, 65535);
    text_laws::lemma_numeral(number);
    let digits = numeral(number);
    assert(text::is_digit(digits[digits.len() - 1]));
    assert(digits.push('%').drop_last() =~= digits);
}

/// A line of the history is a signed number, and a dash the very first line.
pub proof fn law_capture_offsets_are_numbers(number: nat)
    requires
        number <= 2147483647,
    ensures
        pane::capture_offset(numeral(number)) == Ok::<i32, Seq<char>>(number as i32),
        pane::capture_offset(seq!['-'] + numeral(number)) == Ok::<i32, Seq<char>>(
            (-(number as int)) as i32,
        ),
        pane::capture_offset("-"@) == Ok::<i32, Seq<char>>(i32::MIN),
{
    text_laws::law_signed_numbers_are_read_back(number);
    text_laws::lemma_numeral(number);
    reveal_strlit("-");
    assert("-"@.len() == 1 && "-"@[0] == '-');
    assert(text::is_digit(numeral(number)[0]));
    assert((seq!['-'] + numeral(number)).len() > 1);
}

/// Keys are repeated a positive number of times.
pub proof fn law_repeat_counts_are_numbers(number: nat)
    ensures
        keys::repeat_count(numeral(number)) == if 1 <= number <= 4294967295 {
            Some(number as u32)
        } else {
            None
        },
{
    text_laws::law_numbers_are_read_back(number, 4294967295);
}

/// `-I` gives a new window its index, and changes nothing else.
#[verifier::rlimit(40)]
pub proof fn law_new_window_takes_an_index(earlier: Seq<Seq<char>>, number: nat)
    requires
        ran_through(
            options::scanned(earlier, option_laws::new_window_grammar()),
            option_laws::new_window_grammar(),
        ),
        number <= 4294967295,
    ensures
        window::new_window_invocation(earlier) matches Ok(bare) ==> {
            &&& bare.request matches RequestOf::NewWindow {
                target,
                name,
                detached,
                empty,
                index,
                force,
                format,
                after,
                before,
                select_existing,
                command,
                cwd,
            }
            &&& window::new_window_invocation(earlier + valued('I', numeral(number))) == Ok::<
                InvocationView,
                Seq<char>,
            >(
                InvocationView {
                    request: RequestOf::NewWindow {
                        target,
                        name,
                        detached,
                        empty,
                        index: Some(number as u32),
                        force,
                        format,
                        after,
                        before,
                        select_existing,
                        command,
                        cwd,
                    },
                    ..bare
                },
            )
        },
{
    reveal_strlit("");
    reveal_strlit("dhvbfkEPaS");
    reveal_strlit("tnclFI");
    reveal_strlit("tncdkPFIabSE");
    reveal_strlit("t");
    reveal_strlit("n");
    reveal_strlit("I");
    reveal_strlit("c");
    reveal_strlit("PF");
    assert("tnclFI"@[5] == 'I');
    assert("tncdkPFIabSE"@[7] == 'I');
    assert("I"@[0] == 'I');
    text_laws::law_numbers_are_read_back(number, 4294967295);
    lemma_value(earlier, 'I', numeral(number), option_laws::new_window_grammar());
}

/// `-x` and `-y` of `attach-session` set the columns and the rows.
pub proof fn law_attach_takes_a_size(before: Seq<Seq<char>>, number: nat)
    requires
        ran_through(
            options::scanned(before, option_laws::attach_grammar()),
            option_laws::attach_grammar(),
        ),
        1 <= number <= 65535,
    ensures
        session::attach_invocation(before) matches Ok(bare) ==> {
            &&& bare.request matches RequestOf::Attach { target, size }
            &&& session::attach_invocation(before + valued('x', numeral(number))) == Ok::<
                InvocationView,
                Seq<char>,
            >(
                InvocationView {
                    request: RequestOf::Attach {
                        target,
                        size: Size { cols: number as u16, rows: size.rows },
                    },
                    ..bare
                },
            )
            &&& session::attach_invocation(before + valued('y', numeral(number))) == Ok::<
                InvocationView,
                Seq<char>,
            >(
                InvocationView {
                    request: RequestOf::Attach {
                        target,
                        size: Size { cols: size.cols, rows: number as u16 },
                    },
                    ..bare
                },
            )
        },
{
    reveal_strlit("");
    reveal_strlit("txy");
    reveal_strlit("xy");
    reveal_strlit("t ");
    reveal_strlit("x");
    reveal_strlit("y");
    assert("txy"@[1] == 'x' && "txy"@[2] == 'y');
    assert("x"@[0] == 'x' && "y"@[0] == 'y');
    law_dimensions_are_numbers(number, "-x"@);
    law_dimensions_are_numbers(number, "-y"@);
    law_dimensions_are_numbers(number, "x"@);
    law_dimensions_are_numbers(number, "y"@);
    let grammar = option_laws::attach_grammar();
    assert(session::attach_scan(before) == options::scanned(before, grammar));
    lemma_value(before, 'x', numeral(number), grammar);
    lemma_value(before, 'y', numeral(number), grammar);
}

/// `-x` and `-y` of `new-session` set the columns and the rows.
#[verifier::rlimit(60)]
pub proof fn law_new_session_takes_a_size(
    before: Seq<Seq<char>>,
    number: nat,
    cwd: Option<Seq<char>>,
)
    requires
        ran_through(
            options::scanned(before, option_laws::new_session_grammar()),
            option_laws::new_session_grammar(),
        ),
        1 <= number <= 65535,
    ensures
        session::new_session_invocation(before, cwd) matches Ok(bare) ==> {
            &&& bare.request matches RequestOf::NewSession {
                name,
                detached,
                attach_existing,
                group_target,
                format,
                window_name,
                empty,
                command,
                cwd: path,
                size,
            }
            &&& session::new_session_invocation(before + valued('x', numeral(number)), cwd) == Ok::<
                InvocationView,
                Seq<char>,
            >(
                InvocationView {
                    request: RequestOf::NewSession {
                        name,
                        detached,
                        attach_existing,
                        group_target,
                        format,
                        window_name,
                        empty,
                        command,
                        cwd: path,
                        size: Size { cols: number as u16, rows: size.rows },
                    },
                    ..bare
                },
            )
            &&& session::new_session_invocation(before + valued('y', numeral(number)), cwd) == Ok::<
                InvocationView,
                Seq<char>,
            >(
                InvocationView {
                    request: RequestOf::NewSession {
                        name,
                        detached,
                        attach_existing,
                        group_target,
                        format,
                        window_name,
                        empty,
                        command,
                        cwd: path,
                        size: Size { cols: size.cols, rows: number as u16 },
                    },
                    ..bare
                },
            )
        },
{
    reveal_strlit("");
    reveal_strlit("dAPE");
    reveal_strlit("tFsncxy");
    reveal_strlit("s");
    reveal_strlit("t");
    reveal_strlit("PF");
    reveal_strlit("n");
    reveal_strlit("c");
    reveal_strlit("x");
    reveal_strlit("y");
    reveal_strlit("--");
    assert("tFsncxy"@[5] == 'x' && "tFsncxy"@[6] == 'y');
    assert("x"@[0] == 'x' && "y"@[0] == 'y' && "--"@[0] == '-');
    text_laws::lemma_numeral(number);
    assert(text::is_digit(numeral(number)[0]));
    law_dimensions_are_numbers(number, "-x"@);
    law_dimensions_are_numbers(number, "-y"@);
    law_dimensions_are_numbers(number, "x"@);
    law_dimensions_are_numbers(number, "y"@);
    let grammar = option_laws::new_session_grammar();
    assert(session::new_session_scan(before) == options::scanned(before, grammar));
    assert(numeral(number) != "--"@);
    lemma_value(before, 'x', numeral(number), grammar);
    lemma_value(before, 'y', numeral(number), grammar);
}

/// `-x` gives a pane its columns, `-y` its rows, in cells or per cent; an operand
/// is how far its edge moves.
#[verifier::rlimit(60)]
pub proof fn law_resize_pane_takes_numbers(before: Seq<Seq<char>>, number: nat, percent: bool)
    requires
        ran_through(
            options::scanned(before, option_laws::resize_pane_grammar()),
            option_laws::resize_pane_grammar(),
        ),
        number <= 65535,
    ensures
        pane::resize_pane_invocation(before) matches Ok(bare) ==> {
            let value = if percent {
                numeral(number).push('%')
            } else {
                numeral(number)
            };
            &&& bare.request matches RequestOf::ResizePane {
                target,
                direction,
                amount,
                absolute,
                absolute_percent,
                zoom,
            }
            &&& pane::resize_pane_invocation(before + valued('x', value)) == plain(
                RequestOf::ResizePane {
                    target,
                    direction: PaneDirection::Right,
                    amount,
                    absolute: Some(number as u16),
                    absolute_percent: percent,
                    zoom,
                },
            )
            &&& pane::resize_pane_invocation(before + valued('y', value)) == plain(
                RequestOf::ResizePane {
                    target,
                    direction: PaneDirection::Down,
                    amount,
                    absolute: Some(number as u16),
                    absolute_percent: percent,
                    zoom,
                },
            )
            &&& pane::resize_pane_invocation(before + seq![numeral(number)]) == plain(
                RequestOf::ResizePane {
                    target,
                    direction,
                    amount: number as i32,
                    absolute,
                    absolute_percent,
                    zoom,
                },
            )
        },
{
    reveal_strlit("");
    reveal_strlit("LRUDZ");
    reveal_strlit("txy");
    reveal_strlit("xy");
    reveal_strlit("t");
    reveal_strlit("LRUDxy");
    reveal_strlit(" ");
    assert("txy"@[1] == 'x' && "txy"@[2] == 'y');
    assert("xy"@[0] == 'x' && "xy"@[1] == 'y');
    assert("LRUDxy"@[4] == 'x' && "LRUDxy"@[5] == 'y');
    assert(" "@[0] == ' ');
    law_resize_values_are_numbers(number);
    text_laws::law_signed_numbers_are_read_back(number);
    text_laws::lemma_numeral(number);
    assert(text::is_digit(numeral(number)[0]));
    let value = if percent {
        numeral(number).push('%')
    } else {
        numeral(number)
    };
    let grammar = option_laws::resize_pane_grammar();
    lemma_value(before, 'x', value, grammar);
    lemma_value(before, 'y', value, grammar);
    lemma_operand(before, numeral(number), grammar);
}

/// `-S` and `-E` name the first and the last line, `-J` joins lines and keeps the
/// space at their ends.
#[verifier::rlimit(60)]
pub proof fn law_capture_pane_takes_lines(before: Seq<Seq<char>>, value: Seq<char>)
    requires
        ran_through(
            options::scanned(before, option_laws::capture_pane_grammar()),
            option_laws::capture_pane_grammar(),
        ),
    ensures
        pane::capture_pane_invocation(before) matches Ok(bare) ==> {
            &&& bare.request matches RequestOf::CapturePane {
                target,
                start,
                end,
                escape,
                join,
                preserve_trailing,
            }
            &&& pane::capture_offset(value) matches Ok(line) ==> {
                &&& pane::capture_pane_invocation(before + valued('S', value)) == plain(
                    RequestOf::CapturePane {
                        target,
                        start: Some(line),
                        end,
                        escape,
                        join,
                        preserve_trailing,
                    },
                )
                &&& pane::capture_pane_invocation(before + valued('E', value)) == plain(
                    RequestOf::CapturePane {
                        target,
                        start,
                        end: Some(line),
                        escape,
                        join,
                        preserve_trailing,
                    },
                )
            }
            &&& pane::capture_pane_invocation(before + switch('J')) == plain(
                RequestOf::CapturePane {
                    target,
                    start,
                    end,
                    escape,
                    join: true,
                    preserve_trailing: true,
                },
            )
        },
{
    reveal_strlit("");
    reveal_strlit("peJNH");
    reveal_strlit("tSE");
    reveal_strlit("t");
    reveal_strlit("S");
    reveal_strlit("E");
    assert("tSE"@[1] == 'S' && "tSE"@[2] == 'E');
    assert("S"@[0] == 'S' && "E"@[0] == 'E');
    assert("peJNH"@[2] == 'J');
    let grammar = option_laws::capture_pane_grammar();
    lemma_switch(before, 'J', grammar);
    lemma_value(before, 'S', value, grammar);
    lemma_value(before, 'E', value, grammar);
}

// ---------------------------------------------------------------------------
// Options that need others.

/// `-f` of `kill-window` and `kill-session` is refused without `-a`, and says
/// nothing with it.
pub proof fn law_force_needs_all(before: Seq<Seq<char>>)
    ensures
        ran_through(
            options::scanned(before, option_laws::kill_window_grammar()),
            option_laws::kill_window_grammar(),
        ) ==> (window::kill_window_invocation(before) matches Ok(bare) ==> {
            &&& bare.request matches RequestOf::KillWindow { target, all }
            &&& window::kill_window_invocation(before + switch('f')) == if all {
                Ok(bare)
            } else {
                Err("-f only valid with -a"@)
            }
        }),
        ran_through(
            options::scanned(before, option_laws::kill_session_grammar()),
            option_laws::kill_session_grammar(),
        ) ==> (session::kill_session_invocation(before) matches Ok(bare) ==> {
            &&& bare.request matches RequestOf::KillSession { target, all }
            &&& session::kill_session_invocation(before + switch('f')) == if all {
                Ok(bare)
            } else {
                Err("-f only valid with -a"@)
            }
        }),
{
    reveal_strlit("");
    reveal_strlit("af");
    reveal_strlit("aCf");
    reveal_strlit("t ");
    assert("af"@[1] == 'f');
    assert("aCf"@[2] == 'f');
    let windows = option_laws::kill_window_grammar();
    if ran_through(options::scanned(before, windows), windows) {
        lemma_switch(before, 'f', windows);
    }
    let sessions = option_laws::kill_session_grammar();
    if ran_through(options::scanned(before, sessions), sessions) {
        lemma_switch(before, 'f', sessions);
    }
}

// ---------------------------------------------------------------------------
// Commands that are run.

/// What stands behind `--` is the command that a new pane runs, and changes nothing
/// else; one empty text asks for a pane that runs nothing.
#[verifier::rlimit(60)]
pub proof fn law_split_window_runs_its_command(given: Seq<Seq<char>>, command: Seq<Seq<char>>)
    requires
        ran_through(
            options::scanned(given, option_laws::split_window_grammar()),
            option_laws::split_window_grammar(),
        ),
        command.len() > 1 || (command.len() == 1 && command[0].len() > 0),
    ensures
        window::split_window_invocation(given) matches Ok(bare) ==> {
            &&& bare.request matches RequestOf::SplitWindow {
                target,
                horizontal,
                before,
                full,
                detached,
                empty,
                zoom,
                size,
                command: _,
                cwd,
            }
            &&& window::split_window_invocation(given + seq!["--"@] + command) == if empty {
                Err("command cannot be given for empty pane"@)
            } else {
                plain(
                    RequestOf::SplitWindow {
                        target,
                        horizontal,
                        before,
                        full,
                        detached,
                        empty,
                        zoom,
                        size,
                        command,
                        cwd,
                    },
                )
            }
            &&& window::split_window_invocation(given + seq!["--"@] + seq![seq![]]) == plain(
                RequestOf::SplitWindow {
                    target,
                    horizontal,
                    before,
                    full,
                    detached,
                    empty: true,
                    zoom,
                    size,
                    command: seq![],
                    cwd,
                },
            )
        },
{
    let grammar = option_laws::split_window_grammar();
    laws::law_text_behind_the_separator_is_kept(given, command, grammar);
    laws::law_text_behind_the_separator_is_kept(given, seq![seq![]], grammar);
    assert(window::common_scan(given).tail =~= seq![]);
}

/// The same of a new window.
#[verifier::rlimit(60)]
pub proof fn law_new_window_runs_its_command(given: Seq<Seq<char>>, words: Seq<Seq<char>>)
    requires
        ran_through(
            options::scanned(given, option_laws::new_window_grammar()),
            option_laws::new_window_grammar(),
        ),
        words.len() > 1 || (words.len() == 1 && words[0].len() > 0),
    ensures
        window::new_window_invocation(given) matches Ok(bare) ==> {
            &&& bare.request matches RequestOf::NewWindow {
                target,
                name,
                detached,
                empty,
                index,
                force,
                format,
                after,
                before,
                select_existing,
                command,
                cwd,
            }
            &&& window::new_window_invocation(given + seq!["--"@] + words) == if empty {
                Err("command cannot be given for empty pane"@)
            } else {
                Ok(
                    InvocationView {
                        request: RequestOf::NewWindow {
                            target,
                            name,
                            detached,
                            empty,
                            index,
                            force,
                            format,
                            after,
                            before,
                            select_existing,
                            command: words,
                            cwd,
                        },
                        ..bare
                    },
                )
            }
        },
{
    let grammar = option_laws::new_window_grammar();
    laws::law_text_behind_the_separator_is_kept(given, words, grammar);
    assert(window::common_scan(given).tail =~= seq![]);
}

/// The same of a pane that is started again.
pub proof fn law_respawn_runs_its_command(
    given: Seq<Seq<char>>,
    words: Seq<Seq<char>>,
    window: bool,
)
    requires
        ran_through(
            options::scanned(given, option_laws::respawn_grammar()),
            option_laws::respawn_grammar(),
        ),
        words.len() > 1 || (words.len() == 1 && words[0].len() > 0),
    ensures
        window::respawn_invocation(given, window) matches Ok(bare) ==> {
            &&& bare.request matches RequestOf::RespawnPane {
                target,
                command,
                cwd,
                kill,
                empty,
                window: own,
            }
            &&& own == window
            &&& window::respawn_invocation(given + seq!["--"@] + words, window) == plain(
                RequestOf::RespawnPane { target, command: words, cwd, kill, empty, window },
            )
        },
{
    laws::law_text_behind_the_separator_is_kept(given, words, option_laws::respawn_grammar());
    assert(window::common_scan(given).tail =~= seq![]);
}

/// The options of `run-shell`.
pub open spec fn run_shell_grammar() -> Grammar {
    Grammar {
        separator: true,
        ..options::options("b", "td", Operands::Rest, "unknown run-shell option: ")
    }
}

/// `run-shell` runs the words behind its options as one command line, in the
/// background with `-b`, and for the pane behind `-t`.
pub proof fn law_run_shell_runs_its_command(
    before: Seq<Seq<char>>,
    words: Seq<Seq<char>>,
    value: Seq<char>,
)
    requires
        ran_through(options::scanned(before, run_shell_grammar()), run_shell_grammar()),
        words.len() > 0,
    ensures
        client::run_shell_invocation(seq!["--"@] + words) == plain(
            RequestOf::RunShell {
                command: text::joined(words, " "@),
                background: false,
                target: None,
            },
        ),
        client::run_shell_invocation(before + seq!["--"@] + words) matches Ok(bare) && {
            &&& bare.request matches RequestOf::RunShell { command, background, target }
            &&& command == text::joined(words, " "@)
            &&& client::run_shell_invocation(before + switch('b') + seq!["--"@] + words) == plain(
                RequestOf::RunShell { command, background: true, target },
            )
            &&& client::run_shell_invocation(before + valued('t', value) + seq!["--"@] + words)
                == plain(RequestOf::RunShell { command, background, target: Some(value) })
            &&& client::run_shell_invocation(before + valued('d', value) + seq!["--"@] + words)
                == plain(bare.request)
        },
{
    let grammar = run_shell_grammar();
    reveal_strlit("");
    reveal_strlit("b");
    reveal_strlit("td");
    reveal_strlit("t");
    assert("b"@[0] == 'b');
    assert("td"@[0] == 't' && "td"@[1] == 'd');
    assert("t"@[0] == 't');
    lemma_switch(before, 'b', grammar);
    lemma_value(before, 't', value, grammar);
    lemma_value(before, 'd', value, grammar);
    laws::law_text_behind_the_separator_is_kept(before, words, grammar);
    laws::law_text_behind_the_separator_is_kept(before + switch('b'), words, grammar);
    laws::law_text_behind_the_separator_is_kept(before + valued('t', value), words, grammar);
    laws::law_text_behind_the_separator_is_kept(before + valued('d', value), words, grammar);
    let none = Seq::<Seq<char>>::empty();
    laws::law_text_behind_the_separator_is_kept(none, words, grammar);
    assert(none + seq!["--"@] + words =~= seq!["--"@] + words);
}

// ---------------------------------------------------------------------------
// Operands.

/// Whether no text of a list could be an option.
pub open spec fn are_operands(words: Seq<Seq<char>>) -> bool {
    forall|i: int| 0 <= i < words.len() ==> !options::starts_with_dash(#[trigger] words[i])
}

/// Operands alone are scanned as they stand.
proof fn lemma_operands(words: Seq<Seq<char>>, grammar: Grammar)
    requires
        are_operands(words),
        grammar.operands == Operands::Each,
        !grammar.delays,
        grammar.cluster@.len() > 0 ==> grammar.cluster_head@.len() > 0 && grammar.cluster_head@[0]
            == '-',
    ensures
        ({
            let scan = options::scanned(words, grammar);
            &&& ran_through(scan, grammar)
            &&& items::operands_of(scan.items) == words
            &&& forall|i: int|
                0 <= i < scan.items.len() ==> (#[trigger] scan.items[i]).flag == options::OPERAND
        }),
    decreases words.len(),
{
    if words.len() > 0 {
        let front = words.drop_last();
        assert forall|i: int| 0 <= i < front.len() implies !options::starts_with_dash(
            #[trigger] front[i],
        ) by {
            assert(front[i] == words[i]);
        }
        lemma_operands(front, grammar);
        let last = words.last();
        assert(!options::starts_with_dash(words[words.len() - 1]));
        lemma_operand(front, last, grammar);
        assert(front + seq![last] =~= words);
        reveal_strlit("--");
        assert("--"@[0] == '-');
        let items = options::scanned(front, grammar).items;
        let scan = options::scanned(words, grammar);
        assert forall|i: int| 0 <= i < scan.items.len() implies (#[trigger] scan.items[i]).flag
            == options::OPERAND by {
            if i < items.len() {
                assert(items[i].flag == options::OPERAND);
            }
        }
        assert forall|i: int| 0 <= i < scan.items.len() implies (#[trigger] scan.items[i]).value
            != "--"@ || !grammar.separator_value by {
            if i < items.len() {
                assert(scan.items[i] == items[i]);
            }
        }
        assert(items::operands_of(scan.items) =~= words);
    } else {
        assert(words =~= seq![]);
    }
}

/// Items that are all operands hold no option.
proof fn lemma_no_options(items: Seq<ItemView>)
    requires
        forall|i: int| 0 <= i < items.len() ==> (#[trigger] items[i]).flag == options::OPERAND,
    ensures
        forall|flag: char| flag != options::OPERAND ==> !#[trigger] options::is_seen(items, flag),
        forall|flags: Seq<char>|
            !flags.contains(options::OPERAND) ==> (#[trigger] items::last_of(items, flags)) is None,
        forall|flags: Seq<char>|
            flags.contains(options::OPERAND) ==> #[trigger] items::last_of(items, flags) == if items.len()
                > 0 {
                Some(items.last())
            } else {
                None
            },
    decreases items.len(),
{
    if items.len() > 0 {
        let front = items.drop_last();
        assert forall|i: int| 0 <= i < front.len() implies (#[trigger] front[i]).flag
            == options::OPERAND by {
            assert(front[i] == items[i]);
        }
        lemma_no_options(front);
        assert(items[items.len() - 1].flag == options::OPERAND);
        assert forall|flags: Seq<char>| !flags.contains(options::OPERAND) implies (
        #[trigger] items::last_of(items, flags)) is None by {
            assert(items::last_of(front, flags) is None);
        }
    }
}

/// `set-buffer` stores its operands, with a space between each two.
pub proof fn law_set_buffer_stores_its_operands(words: Seq<Seq<char>>)
    requires
        are_operands(words),
    ensures
        buffer::set_buffer_invocation(words) == plain(
            RequestOf::SetBuffer {
                name: None,
                append: false,
                data: encode_utf8(text::joined(words, " "@)),
                rename: None,
            },
        ),
{
    let grammar = option_laws::set_buffer_grammar();
    reveal_strlit("");
    reveal_strlit("b");
    reveal_strlit("n");
    lemma_operands(words, grammar);
    lemma_no_options(options::scanned(words, grammar).items);
    assert(words + options::scanned(words, grammar).tail =~= words);
}

/// The options of `load-buffer`.
pub open spec fn load_buffer_grammar() -> Grammar {
    Grammar {
        dashes: Dashes::Alone,
        ..options::options("", "b", Operands::Each, "unknown load-buffer option: ")
    }
}

/// `load-buffer` reads the file that it names, or the standard input where that is
/// a dash, into the buffer behind `-b`.
pub proof fn law_load_buffer_names_its_source(path: Seq<char>, name: Seq<char>)
    requires
        !options::starts_with_dash(path),
    ensures
        buffer::load_buffer_invocation(seq![path]) == Ok::<InvocationView, Seq<char>>(
            InvocationView {
                request: RequestOf::LoadBuffer { name: None, data: seq![] },
                attach: false,
                source: Some(SourceOf::File(path)),
            },
        ),
        buffer::load_buffer_invocation(seq![path] + valued('b', name)) == Ok::<
            InvocationView,
            Seq<char>,
        >(
            InvocationView {
                request: RequestOf::LoadBuffer { name: Some(name), data: seq![] },
                attach: false,
                source: Some(SourceOf::File(path)),
            },
        ),
        buffer::load_buffer_invocation(seq!["-"@]) == Ok::<InvocationView, Seq<char>>(
            InvocationView {
                request: RequestOf::LoadBuffer { name: None, data: seq![] },
                attach: false,
                source: Some(SourceOf::StandardInput),
            },
        ),
        buffer::load_buffer_invocation(seq![]) == Err::<InvocationView, Seq<char>>(
            "load-buffer requires a file"@,
        ),
{
    let grammar = load_buffer_grammar();
    let none = Seq::<Seq<char>>::empty();
    reveal_strlit("");
    reveal_strlit("b");
    reveal_strlit(" ");
    reveal_strlit("-");
    assert("b"@[0] == 'b' && " "@[0] == ' ');
    assert("-"@.len() == 1 && "-"@[0] == '-');
    lemma_operand(none, path, grammar);
    assert(none + seq![path] =~= seq![path]);
    lemma_value(seq![path], 'b', name, grammar);
    let dash = seq!["-"@];
    assert(dash[0] == "-"@);
    reveal_with_fuel(options::scanned_from, 3);
    let item = options::value_item(options::OPERAND, "-"@);
    lemma_pushed(Seq::<ItemView>::empty(), item);
    assert(options::step(dash, grammar, 0, seq![]) == (options::Step::Go {
        items: Seq::<ItemView>::empty().push(item),
        taken: false,
    }));
}

/// `switch-client` switches to the session behind `-t`, to the one that an operand
/// names, or to the one behind `--`.
pub proof fn law_switch_client_names_a_session(session: Seq<char>, more: Seq<Seq<char>>)
    ensures
        client::switch_client_invocation(valued('t', session)) == plain(
            RequestOf::SwitchClient { client: None, session },
        ),
        !options::starts_with_dash(session) ==> client::switch_client_invocation(seq![session])
            == plain(RequestOf::SwitchClient { client: None, session }),
        client::switch_client_invocation(seq!["--"@] + (seq![session] + more)) == plain(
            RequestOf::SwitchClient { client: None, session },
        ),
        client::switch_client_invocation(seq![]) == Err::<InvocationView, Seq<char>>(
            "switch-client requires a target session"@,
        ),
{
    let grammar = option_laws::switch_client_grammar();
    let none = Seq::<Seq<char>>::empty();
    reveal_strlit("");
    reveal_strlit("ct");
    reveal_strlit("t ");
    reveal_strlit("c");
    assert("ct"@[1] == 't' && "t "@[0] == 't' && "t "@[1] == ' ');
    lemma_value(none, 't', session, grammar);
    assert(none + valued('t', session) =~= valued('t', session));
    if !options::starts_with_dash(session) {
        lemma_operand(none, session, grammar);
        assert(none + seq![session] =~= seq![session]);
    }
    laws::law_text_behind_the_separator_is_kept(none, seq![session] + more, grammar);
    assert(none + seq!["--"@] + (seq![session] + more) =~= seq!["--"@] + (seq![session] + more));
    assert((seq![session] + more)[0] == session);
}

/// `display-message` shows its last operand, or the one behind `--`, which may look
/// like an option.
pub proof fn law_display_message_shows_its_operand(
    before: Seq<Seq<char>>,
    format: Seq<char>,
    more: Seq<Seq<char>>,
)
    requires
        ran_through(
            options::scanned(before, option_laws::display_message_grammar()),
            option_laws::display_message_grammar(),
        ),
    ensures
        ({
            let target = items::value_of(
                options::scanned(before, option_laws::display_message_grammar()).items,
                "t"@,
            );
            &&& !options::starts_with_dash(format) ==> setting::display_message_invocation(
                before + seq![format],
            ) == plain(RequestOf::DisplayMessage { target, format })
            &&& setting::display_message_invocation(
                before + seq!["--"@] + (seq![format] + more),
            ) == plain(RequestOf::DisplayMessage { target, format })
        }),
        setting::display_message_invocation(seq![]) == Err::<InvocationView, Seq<char>>(
            "display-message requires a format"@,
        ),
{
    let grammar = option_laws::display_message_grammar();
    reveal_strlit("");
    reveal_strlit("t");
    reveal_strlit(" ");
    assert(" "@[0] == ' ');
    if !options::starts_with_dash(format) {
        lemma_operand(before, format, grammar);
    }
    laws::law_text_behind_the_separator_is_kept(before, seq![format] + more, grammar);
    assert((seq![format] + more)[0] == format);
}

/// A session or window is renamed to the first operand.
pub proof fn law_names_are_operands(name: Seq<char>, target: Seq<char>)
    requires
        !options::starts_with_dash(name),
    ensures
        session::target_and_name_in(seq![name]) == Ok::<(Option<Seq<char>>, Seq<char>), Seq<char>>(
            (None, name),
        ),
        session::target_and_name_in(seq![name] + valued('t', target)) == Ok::<
            (Option<Seq<char>>, Seq<char>),
            Seq<char>,
        >((Some(target), name)),
        session::target_in(valued('t', target)) == Ok::<Option<Seq<char>>, Seq<char>>(
            Some(target),
        ),
        session::target_in(seq![name]) == Ok::<Option<Seq<char>>, Seq<char>>(Some(name)),
        session::target_in(seq![]) == Ok::<Option<Seq<char>>, Seq<char>>(None),
        buffer::buffer_name_in(valued('b', target)) == Ok::<Option<Seq<char>>, Seq<char>>(
            Some(target),
        ),
        buffer::buffer_name_in(seq![]) == Ok::<Option<Seq<char>>, Seq<char>>(None),
{
    let none = Seq::<Seq<char>>::empty();
    let renaming = Grammar {
        separator: true,
        ..options::options("", "t", Operands::Each, "unknown option: ")
    };
    let targeting = Grammar {
        separator: true,
        ..options::options("", "t", Operands::Each, "unknown target option: ")
    };
    let naming = Grammar {
        separator: true,
        ..options::options("", "b", Operands::Refused, "unknown show-buffer option: ")
    };
    reveal_strlit("");
    reveal_strlit("t");
    reveal_strlit("b");
    reveal_strlit("t ");
    assert("t"@[0] == 't' && "b"@[0] == 'b' && "t "@[0] == 't' && "t "@[1] == ' ');
    lemma_operand(none, name, renaming);
    lemma_operand(none, name, targeting);
    assert(none + seq![name] =~= seq![name]);
    lemma_value(seq![name], 't', target, renaming);
    lemma_value(none, 't', target, targeting);
    lemma_value(none, 'b', target, naming);
    assert(none + valued('t', target) =~= valued('t', target));
    assert(none + valued('b', target) =~= valued('b', target));
}

// ---------------------------------------------------------------------------
// Settings.

/// `set-option`, `set-window-option` and `set-environment` set their first operand
/// to their second, and take it away without one.
#[verifier::rlimit(60)]
pub proof fn law_settings_have_a_key_and_a_value(key: Seq<char>, value: Seq<char>)
    requires
        !options::starts_with_dash(key),
        !options::starts_with_dash(value),
    ensures
        setting::set_option_invocation(seq![key, value]) == plain(
            RequestOf::SetOption { target: None, scope: None, key, value, unset: false },
        ),
        setting::set_window_option_invocation(seq![key, value]) == plain(
            RequestOf::SetWindowOption { target: None, key, value },
        ),
        setting::set_window_option_invocation(seq![key, value] + switch('g')) == plain(
            RequestOf::SetOption {
                target: None,
                scope: Some(OptionScope::Global),
                key,
                value,
                unset: false,
            },
        ),
        setting::set_window_option_invocation(seq![key] + switch('u')) == plain(
            RequestOf::SetOption {
                target: None,
                scope: Some(OptionScope::Window),
                key,
                value: seq![],
                unset: true,
            },
        ),
        setting::set_environment_invocation(seq![key, value]) == plain(
            RequestOf::SetEnvironment { name: key, value: Some(value), remove: false },
        ),
        setting::set_environment_invocation(seq![key] + switch('r')) == plain(
            RequestOf::SetEnvironment { name: key, value: None, remove: true },
        ),
        setting::set_option_invocation(seq![key]) == Err::<InvocationView, Seq<char>>(
            "set-option requires a value"@,
        ),
        setting::set_window_option_invocation(seq![key]) == Err::<InvocationView, Seq<char>>(
            "set-window-option requires a value"@,
        ),
        setting::set_environment_invocation(seq![key]) == Err::<InvocationView, Seq<char>>(
            "set-environment requires a value"@,
        ),
{
    let set = option_laws::set_option_grammar();
    let window = Grammar {
        separator: true,
        separator_value: true,
        ..options::options("gwu", "t", Operands::Each, "unknown set-window-option option: ")
    };
    let environment = option_laws::set_environment_grammar();
    let one = seq![key];
    let two = seq![key, value];
    reveal_strlit("");
    reveal_strlit("-");
    reveal_strlit("gswpuq");
    reveal_strlit("gwu");
    reveal_strlit("gsru");
    reveal_strlit("t");
    reveal_strlit("gswp");
    assert("-"@[0] == '-');
    assert("gwu"@[0] == 'g' && "gwu"@[2] == 'u' && "gsru"@[2] == 'r');
    assert(are_operands(one));
    assert(are_operands(two));
    lemma_operands(one, set);
    lemma_operands(two, set);
    lemma_operands(one, window);
    lemma_operands(two, window);
    lemma_operands(one, environment);
    lemma_operands(two, environment);
    lemma_no_options(options::scanned(one, set).items);
    lemma_no_options(options::scanned(two, set).items);
    lemma_no_options(options::scanned(one, window).items);
    lemma_no_options(options::scanned(two, window).items);
    lemma_no_options(options::scanned(one, environment).items);
    lemma_no_options(options::scanned(two, environment).items);
    lemma_switch(two, 'g', window);
    lemma_switch(one, 'u', window);
    lemma_switch(one, 'r', environment);
    assert(one + options::scanned(one, set).tail =~= one);
    assert(two + options::scanned(two, set).tail =~= two);
    assert(one + options::scanned(one, window).tail =~= one);
    assert(two + options::scanned(two, window).tail =~= two);
    assert(one + options::scanned(one, environment).tail =~= one);
    assert(two + options::scanned(two, environment).tail =~= two);
}

// ---------------------------------------------------------------------------
// Windows and keys.

/// `select-window` goes to the window that it names, to the last with `-l`, and to
/// the next or the previous with `-n` or `-p`.
#[verifier::rlimit(40)]
pub proof fn law_select_window_goes_where_it_is_told(target: Seq<char>)
    ensures
        window::select_window_invocation(valued('t', target)) == plain(
            RequestOf::SelectWindow { target },
        ),
        !options::starts_with_dash(target) ==> window::select_window_invocation(seq![target])
            == plain(RequestOf::SelectWindow { target }),
        window::select_window_invocation(switch('l')) == plain(
            RequestOf::SelectWindow { target: "!"@ },
        ),
        window::select_window_invocation(switch('n')) == plain(
            RequestOf::NextWindow { target: None },
        ),
        window::select_window_invocation(switch('p')) == plain(
            RequestOf::PreviousWindow { target: None },
        ),
        window::select_window_invocation(valued('t', target) + switch('n')) == plain(
            RequestOf::NextWindow { target: Some(target) },
        ),
        window::select_window_invocation(valued('t', target) + switch('p')) == plain(
            RequestOf::PreviousWindow { target: Some(target) },
        ),
        window::select_window_invocation(seq![]) == Err::<InvocationView, Seq<char>>(
            "select-window requires a target"@,
        ),
{
    let grammar = options::options("npl", "t", Operands::Each, "unknown select-window option: ");
    let none = Seq::<Seq<char>>::empty();
    reveal_strlit("");
    reveal_strlit("npl");
    reveal_strlit("t");
    reveal_strlit("np");
    reveal_strlit("tl ");
    assert("npl"@[0] == 'n' && "npl"@[1] == 'p' && "npl"@[2] == 'l');
    assert("t"@[0] == 't' && "np"@[0] == 'n' && "np"@[1] == 'p');
    assert("tl "@[0] == 't' && "tl "@[1] == 'l' && "tl "@[2] == ' ');
    lemma_value(none, 't', target, grammar);
    assert(none + valued('t', target) =~= valued('t', target));
    lemma_switch(none, 'l', grammar);
    assert(none + switch('l') =~= switch('l'));
    lemma_switch(none, 'n', grammar);
    assert(none + switch('n') =~= switch('n'));
    lemma_switch(none, 'p', grammar);
    assert(none + switch('p') =~= switch('p'));
    lemma_switch(valued('t', target), 'n', grammar);
    lemma_switch(valued('t', target), 'p', grammar);
    if !options::starts_with_dash(target) {
        lemma_operand(none, target, grammar);
        assert(none + seq![target] =~= seq![target]);
    }
}

/// The options of `send-keys`.
pub open spec fn send_keys_grammar() -> Grammar {
    Grammar {
        attached: "N",
        gated: "PC",
        gate: 'X',
        separator: true,
        separator_value: true,
        dashes: Dashes::After('l'),
        ..options::options("lR", "tXN", Operands::Each, "unknown send-keys option: ")
    }
}

/// `send-keys` sends its operands as keys, in their order; with `-l` as text with a
/// space between each two; as often as `-N` says; to the pane behind `-t`; and `-R`
/// resets the terminal first.
#[verifier::rlimit(80)]
pub proof fn law_send_keys_sends_its_operands(
    words: Seq<Seq<char>>,
    target: Seq<char>,
    number: nat,
)
    requires
        are_operands(words),
        1 <= number <= 4294967295,
        target != "--"@,
    ensures
        keys::send_keys_invocation(words) == plain(
            RequestOf::SendKeys { target: None, bytes: keys::sent_by_all(words), reset: false },
        ),
        keys::send_keys_invocation(words + switch('R')) == plain(
            RequestOf::SendKeys { target: None, bytes: keys::sent_by_all(words), reset: true },
        ),
        keys::send_keys_invocation(words + switch('l')) == plain(
            RequestOf::SendKeys {
                target: None,
                bytes: encode_utf8(text::joined(words, " "@)),
                reset: false,
            },
        ),
        keys::send_keys_invocation(words + valued('t', target)) == plain(
            RequestOf::SendKeys {
                target: Some(target),
                bytes: keys::sent_by_all(words),
                reset: false,
            },
        ),
        keys::send_keys_invocation(words + valued('N', numeral(number))) == plain(
            RequestOf::SendKeys {
                target: None,
                bytes: keys::repeated(keys::sent_by_all(words), number),
                reset: false,
            },
        ),
        keys::send_keys_invocation(words + valued('X', target)) == plain(
            RequestOf::CopyModeCommand {
                target: None,
                action: keys::action_text(target, false, false, words),
                repeat: 1,
            },
        ),
{
    let grammar = send_keys_grammar();
    reveal_strlit("");
    reveal_strlit("N");
    reveal_strlit("PC");
    reveal_strlit("lR");
    reveal_strlit("tXN");
    reveal_strlit("t");
    reveal_strlit("X");
    reveal_strlit("--");
    assert("--"@[0] == '-');
    assert("lR"@[0] == 'l' && "lR"@[1] == 'R');
    assert("tXN"@[0] == 't' && "tXN"@[1] == 'X' && "tXN"@[2] == 'N');
    assert("t"@[0] == 't' && "X"@[0] == 'X' && "N"@[0] == 'N');
    lemma_operands(words, grammar);
    let scan = options::scanned(words, grammar);
    lemma_no_options(scan.items);
    lemma_no_problem(scan.items);
    assert(keys::send_keys_scan(words) == scan);
    assert(words + scan.tail =~= words);
    text_laws::lemma_numeral(number);
    assert(text::is_digit(numeral(number)[0]));
    assert(numeral(number) != "--"@);
    law_repeat_counts_are_numbers(number);
    lemma_switch(words, 'R', grammar);
    lemma_switch(words, 'l', grammar);
    lemma_value(words, 't', target, grammar);
    lemma_value(words, 'N', numeral(number), grammar);
    lemma_value(words, 'X', target, grammar);
    lemma_once(keys::sent_by_all(words));
    lemma_once(encode_utf8(text::joined(words, " "@)));
}

proof fn lemma_once(bytes: Seq<u8>)
    ensures
        keys::repeated(bytes, 1) == bytes,
{
    reveal_with_fuel(keys::repeated, 2);
    assert(seq![] + bytes =~= bytes);
}

proof fn lemma_no_problem(items: Seq<ItemView>)
    requires
        forall|i: int| 0 <= i < items.len() ==> (#[trigger] items[i]).flag == options::OPERAND,
    ensures
        items::first_problem(items, |item: ItemView| keys::send_keys_problem(item)) is None,
    decreases items.len(),
{
    if items.len() > 0 {
        let front = items.drop_last();
        assert forall|i: int| 0 <= i < front.len() implies (#[trigger] front[i]).flag
            == options::OPERAND by {
            assert(front[i] == items[i]);
        }
        lemma_no_problem(front);
        assert(items[items.len() - 1].flag == options::OPERAND);
    }
}

/// One key sends its own bytes, and keys that are repeated once more send them once
/// more.
pub proof fn law_keys_send_their_bytes(key: Seq<char>, bytes: Seq<u8>, count: nat)
    ensures
        keys::sent_by_all(seq![key]) == keys::sent_by(key),
        keys::repeated(bytes, 0) == Seq::<u8>::empty(),
        keys::repeated(bytes, count + 1) == keys::repeated(bytes, count) + bytes,
{
    assert(seq![key].drop_last() =~= seq![]);
    reveal_with_fuel(keys::sent_by_all, 2);
    assert(seq![] + keys::sent_by(key) =~= keys::sent_by(key));
}

/// An action of the copy mode is sent with its arguments behind a null, kept apart
/// by spaces, and with its flags behind a group separator.
pub proof fn law_actions_are_sent_with_arguments(action: Seq<char>, words: Seq<Seq<char>>)
    requires
        words.len() > 0,
        !keys::is_pipe_action(action),
    ensures
        keys::action_text(action, false, false, seq![]) == action,
        keys::action_text(action, true, false, seq![]) == action + seq!['\x1d', 'P'],
        keys::action_text(action, false, true, seq![]) == action + seq!['\x1d', 'C'],
        keys::action_text(action, true, true, seq![]) == action + seq!['\x1d', 'P', 'C'],
        keys::action_text(action, false, false, words) == action + seq!['\0'] + text::joined(
            words,
            " "@,
        ),
{
    reveal_strlit("\x1d");
    reveal_strlit("\0");
    assert("\x1d"@ =~= seq!['\x1d']);
    assert("\0"@ =~= seq!['\0']);
    assert(keys::action_text(action, true, false, seq![]) =~= action + seq!['\x1d', 'P']);
    assert(keys::action_text(action, false, true, seq![]) =~= action + seq!['\x1d', 'C']);
    assert(keys::action_text(action, true, true, seq![]) =~= action + seq!['\x1d', 'P', 'C']);
}

/// The arguments of an action that pipes are kept apart by record separators.
pub proof fn law_pipe_actions_keep_arguments_apart(action: Seq<char>, words: Seq<Seq<char>>)
    requires
        words.len() > 0,
        action == "copy-pipe"@ || action == "copy-pipe-and-cancel"@ || action == "pipe"@ || action
            == "pipe-and-cancel"@ || action == "copy-pipe-no-clear"@ || action
            == "pipe-no-clear"@ || action == "copy-pipe-line"@ || action
            == "copy-pipe-line-and-cancel"@ || action == "copy-pipe-end-of-line"@ || action
            == "copy-pipe-end-of-line-and-cancel"@,
    ensures
        keys::action_text(action, false, false, words) == action + seq!['\0'] + text::joined(
            words,
            seq!['\x1e'],
        ),
{
    reveal_strlit("\x1e");
    reveal_strlit("\0");
    assert("\x1e"@ =~= seq!['\x1e']);
    assert("\0"@ =~= seq!['\0']);
}

// ---------------------------------------------------------------------------
// The command line as a whole.

/// `-S` names the socket by its path, `-L` by a label, and the last of them counts;
/// the command behind them is the same.
#[verifier::spinoff_prover]
#[verifier::rlimit(40)]
pub proof fn law_socket_is_named(
    before: Seq<Seq<char>>,
    value: Seq<char>,
    cwd: Option<Seq<char>>,
)
    requires
        ran_through(parse::leading_scan(before), leading_grammar()),
    ensures
        parse::invocation_in(seq![], cwd) == Ok::<(parse::SocketView, InvocationView), Seq<char>>(
            (parse::SocketOf::Default, session::default_invocation(cwd)),
        ),
        parse::invocation_in(before + valued('S', value), cwd) == Ok::<
            (parse::SocketView, InvocationView),
            Seq<char>,
        >((parse::SocketOf::Path(value), session::default_invocation(cwd))),
        parse::invocation_in(before + valued('L', value), cwd) == Ok::<
            (parse::SocketView, InvocationView),
            Seq<char>,
        >(
            (
                parse::SocketOf::Temporary(
                    seq!['t', 'm', '-'] + value + seq!['.', 's', 'o', 'c', 'k'],
                ),
                session::default_invocation(cwd),
            ),
        ),
{
    lemma_socket(before, value);
    lemma_without_command(Seq::<Seq<char>>::empty(), cwd);
    lemma_without_command(before + valued('S', value), cwd);
    lemma_without_command(before + valued('L', value), cwd);
}

proof fn lemma_socket(before: Seq<Seq<char>>, value: Seq<char>)
    requires
        ran_through(options::scanned(before, leading_grammar()), leading_grammar()),
    ensures
        ({
            let none = options::scanned(Seq::<Seq<char>>::empty(), leading_grammar());
            let path = options::scanned(before + valued('S', value), leading_grammar());
            let label = options::scanned(before + valued('L', value), leading_grammar());
            &&& none.error is None && none.tail.len() == 0
            &&& path.error is None && path.tail.len() == 0
            &&& label.error is None && label.tail.len() == 0
            &&& parse::socket_in(none.items) == parse::SocketOf::<Seq<char>>::Default
            &&& parse::socket_in(path.items) == parse::SocketOf::Path(value)
            &&& parse::socket_in(label.items) == parse::SocketOf::Temporary(
                seq!['t', 'm', '-'] + value + seq!['.', 's', 'o', 'c', 'k'],
            )
        }),
{
    let grammar = leading_grammar();
    reveal_strlit("");
    reveal_strlit("S");
    reveal_strlit("SL");
    reveal_strlit("tm-");
    reveal_strlit(".sock");
    assert("SL"@[0] == 'S' && "SL"@[1] == 'L');
    assert("tm-"@ =~= seq!['t', 'm', '-']);
    assert(".sock"@ =~= seq!['.', 's', 'o', 'c', 'k']);
    lemma_value(before, 'S', value, grammar);
    lemma_value(before, 'L', value, grammar);
}

/// Options alone name the socket of a command line without a command.
#[verifier::spinoff_prover]
proof fn lemma_without_command(arguments: Seq<Seq<char>>, cwd: Option<Seq<char>>)
    requires
        options::scanned(arguments, leading_grammar()).error is None,
        options::scanned(arguments, leading_grammar()).tail.len() == 0,
    ensures
        parse::invocation_in(arguments, cwd) == Ok::<
            (parse::SocketView, InvocationView),
            Seq<char>,
        >(
            (
                parse::socket_in(options::scanned(arguments, leading_grammar()).items),
                session::default_invocation(cwd),
            ),
        ),
{
    assert(parse::leading_scan(arguments) == options::scanned(arguments, leading_grammar()));
}

/// The options before the command.
pub open spec fn leading_grammar() -> Grammar {
    Grammar { attached: "S", dashes: Dashes::Any, ..options::options("", "SL", Operands::Rest, "") }
}

/// A command line without a command makes a session and attaches to it.
pub proof fn law_no_command_makes_a_session(cwd: Option<Seq<char>>)
    ensures
        session::default_invocation(cwd) == (InvocationView {
            request: RequestOf::NewSession {
                name: None,
                detached: false,
                attach_existing: false,
                group_target: None,
                format: None,
                window_name: None,
                empty: false,
                command: seq![],
                cwd,
                size: Size { cols: 80, rows: 24 },
            },
            attach: true,
            source: None,
        }),
        session::new_session_invocation(seq![], cwd) == Ok::<InvocationView, Seq<char>>(
            session::default_invocation(cwd),
        ),
{
    assert(options::scanned(seq![], option_laws::new_session_grammar()).items =~= seq![]);
}

// ---------------------------------------------------------------------------
// What is refused.

/// An option that a command does not have is refused, with what it is.
pub proof fn law_unknown_options_are_refused(
    before: Seq<Seq<char>>,
    letter: char,
    rest: Seq<Seq<char>>,
    grammar: Grammar,
)
    requires
        ran_through(options::scanned(before, grammar), grammar),
        letter != '-',
        !grammar.switches@.contains(letter),
        !grammar.values@.contains(letter),
        !grammar.gated@.contains(letter),
        grammar.dashes == Dashes::Refused,
        grammar.delays ==> letter != 'd',
    ensures
        options::scanned(before + (switch(letter) + rest), grammar).error == Some(
            grammar.unknown@ + seq!['-', letter],
        ),
        options::scanned(before + (switch(letter) + rest), grammar).items == options::scanned(
            before,
            grammar,
        ).items,
{
    let items = options::scanned(before, grammar).items;
    let more = switch(letter) + rest;
    let all = before + more;
    let at = before.len() as int;
    assert(more[0] == seq!['-', letter]);
    laws::lemma_run_through(before, more, grammar, 0, seq![]);
    assert(all[at] == seq!['-', letter]);
    assert(seq!['-', letter][1] == letter && seq!['-', letter].len() == 2);
    reveal_strlit("--");
    reveal_strlit("-d");
    reveal_strlit("-Nd");
    reveal_strlit("-Zd");
    assert("--"@[1] == '-' && "-d"@[1] == 'd');
    assert("-Nd"@.len() == 3 && "-Zd"@.len() == 3);
}

/// An option at the end that needs a value is refused.
pub proof fn law_missing_values_are_refused(
    before: Seq<Seq<char>>,
    letter: char,
    grammar: Grammar,
)
    requires
        ran_through(options::scanned(before, grammar), grammar),
        letter != '-',
        !grammar.switches@.contains(letter),
        !grammar.gated@.contains(letter),
        grammar.values@.contains(letter),
    ensures
        options::scanned(before + switch(letter), grammar).error == Some(
            seq!['-', letter] + " requires an argument"@,
        ),
{
    let all = before + switch(letter);
    let at = before.len() as int;
    laws::lemma_run_through(before, switch(letter), grammar, 0, seq![]);
    assert(all[at] == seq!['-', letter]);
    assert(seq!['-', letter][1] == letter && seq!['-', letter].len() == 2);
    reveal_strlit("--");
    assert("--"@[1] == '-');
}

/// An operand where a command has none is refused.
pub proof fn law_unwanted_operands_are_refused(
    before: Seq<Seq<char>>,
    value: Seq<char>,
    rest: Seq<Seq<char>>,
    grammar: Grammar,
)
    requires
        ran_through(options::scanned(before, grammar), grammar),
        grammar.operands == Operands::Refused,
        !grammar.delays,
        grammar.cluster@.len() > 0 ==> grammar.cluster_head@.len() > 0 && grammar.cluster_head@[0]
            == '-',
        !options::starts_with_dash(value),
    ensures
        options::scanned(before + (seq![value] + rest), grammar).error == Some(
            grammar.unknown@ + value,
        ),
{
    let all = before + (seq![value] + rest);
    let at = before.len() as int;
    assert((seq![value] + rest)[0] == value);
    laws::lemma_run_through(before, seq![value] + rest, grammar, 0, seq![]);
    assert(all[at] == value);
    reveal_strlit("--");
    reveal_strlit("-ds");
    assert("--"@[0] == '-' && "-ds"@[0] == '-');
    if grammar.joined && value.len() > 3 {
        assert(value.take(3)[0] == value[0]);
    }
    if options::is_cluster(grammar, value) {
        assert(value.take(grammar.cluster_head@.len() as int)[0] == value[0]);
    }
}

/// The commands that start a pane share a scan, and each refuses the options of the
/// others.
#[verifier::rlimit(60)]
pub proof fn law_options_of_other_commands_are_refused(before: Seq<Seq<char>>, letter: char)
    requires
        ran_through(
            options::scanned(before, option_laws::split_window_grammar()),
            option_laws::split_window_grammar(),
        ),
    ensures
        window::new_window_invocation(before) is Ok && (letter == 'h' || letter == 'v' || letter
            == 'f') ==> window::new_window_invocation(before + switch(letter)) == Err::<
            InvocationView,
            Seq<char>,
        >("unknown new-window option: "@ + seq!['-', letter]),
        window::split_window_invocation(before) is Ok && (letter == 'k' || letter == 'P' || letter
            == 'a' || letter == 'S') ==> window::split_window_invocation(before + switch(letter))
            == Err::<InvocationView, Seq<char>>(
            "unknown split-window option: "@ + seq!['-', letter],
        ),
        window::respawn_invocation(before, true) is Ok && (letter == 'h' || letter == 'v' || letter
            == 'b' || letter == 'f' || letter == 'P' || letter == 'a' || letter == 'S')
            ==> window::respawn_invocation(before + switch(letter), true) == Err::<
            InvocationView,
            Seq<char>,
        >("unknown respawn option: "@ + seq!['-', letter]),
{
    let grammar = option_laws::split_window_grammar();
    reveal_strlit("");
    reveal_strlit("dhvbfkEPaS");
    reveal_strlit("tncdkPFIabSE");
    reveal_strlit("tchvdbfZlE");
    reveal_strlit("tckdE");
    let all = "dhvbfkEPaS"@;
    assert(all[1] == 'h' && all[2] == 'v' && all[3] == 'b' && all[4] == 'f' && all[5] == 'k');
    assert(all[7] == 'P' && all[8] == 'a' && all[9] == 'S');
    if letter == 'h' || letter == 'v' || letter == 'b' || letter == 'f' || letter == 'k' || letter
        == 'P' || letter == 'a' || letter == 'S' {
        lemma_switch(before, letter, grammar);
    }
}

/// Values that should be numbers and are not are refused, each with its reason.
pub proof fn law_values_that_are_no_numbers_are_refused(value: Seq<char>, at: int)
    requires
        0 < at < value.len(),
        !text::is_digit(value[at]),
        value.last() != '%',
    ensures
        pane::resize_value(value) == Err::<(u16, bool), Seq<char>>(
            "resize-pane size requires an integer"@,
        ),
        pane::capture_offset(value) == Err::<i32, Seq<char>>(
            "capture-pane offset requires an integer"@,
        ),
        keys::send_keys_problem(options::value_item('N', value)) == Some(
            "-N requires a positive integer"@,
        ),
        window::new_window_problem(options::value_item('I', value)) == Some(
            "new-window index requires an integer"@,
        ),
        pane::resize_pane_problem(options::value_item(options::OPERAND, value)) == Some(
            "resize-pane count requires an integer"@,
        ),
{
    text_laws::law_other_text_is_no_number(value, 65535, at);
    text_laws::law_other_text_is_no_number(value, 4294967295, at);
    reveal_strlit("-");
    assert("-"@.len() == 1);
    reveal_strlit("tncdkPFIabSE");
    assert("tncdkPFIabSE"@[7] == 'I');
}

// ---------------------------------------------------------------------------
// Options that stand in another form.

/// `-ds` with a name is `-d` and `-s` with that name.
pub proof fn law_joined_options_are_two(
    before: Seq<Seq<char>>,
    name: Seq<char>,
    cwd: Option<Seq<char>>,
)
    requires
        ran_through(
            options::scanned(before, option_laws::new_session_grammar()),
            option_laws::new_session_grammar(),
        ),
        name.len() > 0,
        name != "--"@,
    ensures
        session::new_session_invocation(before + seq![seq!['-', 'd', 's'] + name], cwd)
            == session::new_session_invocation(before + switch('d') + valued('s', name), cwd),
{
    let grammar = option_laws::new_session_grammar();
    let joint = seq!['-', 'd', 's'] + name;
    let all = before + seq![joint];
    let at = before.len() as int;
    let items = options::scanned(before, grammar).items;
    reveal_strlit("");
    reveal_strlit("dAPE");
    reveal_strlit("tFsncxy");
    reveal_strlit("-ds");
    reveal_strlit("--");
    assert("dAPE"@[0] == 'd' && "tFsncxy"@[2] == 's');
    assert("-ds"@ =~= seq!['-', 'd', 's']);
    assert("--"@.len() == 2);
    lemma_switch(before, 'd', grammar);
    lemma_value(before + switch('d'), 's', name, grammar);
    assert(seq![joint][0] == joint);
    laws::lemma_run_through(before, seq![joint], grammar, 0, seq![]);
    assert(all[at] == joint);
    assert(joint.take(3) =~= "-ds"@);
    assert(joint.skip(3) =~= name);
    let more = items.push(options::switch_item('d')).push(options::value_item('s', name));
    assert(options::step(all, grammar, at, items) == (options::Step::Go {
        items: more,
        taken: false,
    }));
    reveal_with_fuel(options::scanned_from, 3);
    let one = options::scanned(all, grammar);
    let two = options::scanned(before + switch('d') + valued('s', name), grammar);
    assert(one.tail =~= two.tail);
    assert(session::new_session_scan(all) == one);
}

/// The delay of `display-panes` says nothing, whether it stands behind `-d`, in the
/// same argument, or is left out.
pub proof fn law_display_panes_ignores_delays(before: Seq<Seq<char>>, delay: Seq<char>)
    requires
        ran_through(
            options::scanned(before, option_laws::display_panes_grammar()),
            option_laws::display_panes_grammar(),
        ),
        delay.len() > 0,
        !options::starts_with_dash(delay),
    ensures
        pane::display_panes_invocation(before) is Ok,
        pane::display_panes_invocation(before + switch('d')) == pane::display_panes_invocation(
            before,
        ),
        pane::display_panes_invocation(before + valued('d', delay))
            == pane::display_panes_invocation(before),
        pane::display_panes_invocation(before + seq![seq!['-', 'd'] + delay])
            == pane::display_panes_invocation(before),
{
    let grammar = option_laws::display_panes_grammar();
    let at = before.len() as int;
    let items = options::scanned(before, grammar).items;
    let glued = seq!['-', 'd'] + delay;
    reveal_strlit("");
    reveal_strlit("ZkN");
    reveal_strlit("ts");
    reveal_strlit("d");
    reveal_strlit("t");
    reveal_strlit("s");
    reveal_strlit("-d");
    reveal_strlit("-Nd");
    reveal_strlit("-Zd");
    assert("d"@[0] == 'd');
    assert("-d"@ =~= seq!['-', 'd']);
    assert("-Nd"@[1] == 'N' && "-Zd"@[1] == 'Z');
    assert(glued[0] == '-' && glued[1] == 'd' && glued.len() > 2);
    assert(glued.skip(2) =~= delay);
    let alone = before + switch('d');
    let apart = before + valued('d', delay);
    let joint = before + seq![glued];
    laws::lemma_run_through(before, switch('d'), grammar, 0, seq![]);
    laws::lemma_run_through(before, valued('d', delay), grammar, 0, seq![]);
    assert(seq![glued][0] == glued);
    laws::lemma_run_through(before, seq![glued], grammar, 0, seq![]);
    assert(alone[at] == seq!['-', 'd']);
    assert(apart[at] == seq!['-', 'd'] && apart[at + 1] == delay);
    assert(joint[at] == glued);
    assert(seq!['-', 'd'][1] == 'd');
    let plain_item = options::switch_item('d');
    let valued_item = options::value_item('d', delay);
    lemma_pushed(items, plain_item);
    lemma_pushed(items, valued_item);
    assert(options::step(alone, grammar, at, items) == (options::Step::Go {
        items: items.push(plain_item),
        taken: false,
    }));
    assert(options::step(apart, grammar, at, items) == (options::Step::Go {
        items: items.push(plain_item),
        taken: true,
    }));
    assert(options::step(joint, grammar, at, items) == (options::Step::Go {
        items: items.push(valued_item),
        taken: false,
    }));
    reveal_with_fuel(options::scanned_from, 3);
    assert(options::scanned(before, grammar).tail =~= seq![]);
}

/// The flags of an action, `-P` and `-C`, are known behind `-X`.
pub proof fn law_action_flags_are_sent(action: Seq<char>)
    requires
        action != "--"@,
    ensures
        keys::send_keys_invocation(valued('X', action) + switch('P')) == plain(
            RequestOf::CopyModeCommand {
                target: None,
                action: keys::action_text(action, true, false, seq![]),
                repeat: 1,
            },
        ),
        keys::send_keys_invocation(valued('X', action) + switch('C')) == plain(
            RequestOf::CopyModeCommand {
                target: None,
                action: keys::action_text(action, false, true, seq![]),
                repeat: 1,
            },
        ),
        keys::send_keys_invocation(switch('P')) is Err,
        keys::send_keys_invocation(switch('C')) is Err,
{
    let grammar = send_keys_grammar();
    let none = Seq::<Seq<char>>::empty();
    let first = valued('X', action);
    reveal_strlit("");
    reveal_strlit("N");
    reveal_strlit("PC");
    reveal_strlit("lR");
    reveal_strlit("tXN");
    reveal_strlit("t");
    reveal_strlit("X");
    reveal_strlit("--");
    assert("--"@[1] == '-');
    assert("PC"@[0] == 'P' && "PC"@[1] == 'C');
    assert("tXN"@[1] == 'X' && "X"@[0] == 'X');
    lemma_value(none, 'X', action, grammar);
    assert(none + first =~= first);
    let items = options::scanned(first, grammar).items;
    assert(options::is_seen(items, 'X'));
    lemma_gated(first, 'P', grammar);
    lemma_gated(first, 'C', grammar);
    assert(options::scanned(first, grammar).tail =~= seq![]);
    assert(items::operands_of(items) =~= seq![]);
    assert(Seq::<Seq<char>>::empty() + Seq::<Seq<char>>::empty() =~= seq![]);
    assert(switch('P')[0] == seq!['-', 'P'] && switch('C')[0] == seq!['-', 'C']);
    assert(seq!['-', 'P'][1] == 'P' && seq!['-', 'C'][1] == 'C');
    reveal_with_fuel(options::scanned_from, 2);
}

proof fn lemma_gated(before: Seq<Seq<char>>, letter: char, grammar: Grammar)
    requires
        ran_through(options::scanned(before, grammar), grammar),
        grammar.gated@.contains(letter),
        options::is_seen(options::scanned(before, grammar).items, grammar.gate),
        letter != '-',
    ensures
        ({
            let items = options::scanned(before, grammar).items;
            let item = options::switch_item(letter);
            &&& options::scanned(before + switch(letter), grammar) == (options::ScanView {
                items: items.push(item),
                ..options::scanned(before, grammar)
            })
            &&& option_laws::pushed(items, item)
        }),
{
    let items = options::scanned(before, grammar).items;
    let all = before + switch(letter);
    let at = before.len() as int;
    laws::lemma_run_through(before, switch(letter), grammar, 0, seq![]);
    assert(all[at] == seq!['-', letter]);
    assert(seq!['-', letter][1] == letter);
    reveal_strlit("--");
    assert("--"@[1] == '-');
    let more = items.push(options::switch_item(letter));
    assert(options::step(all, grammar, at, items) == (options::Step::Go {
        items: more,
        taken: false,
    }));
    reveal_with_fuel(options::scanned_from, 3);
    assert(options::scanned(before, grammar).tail =~= seq![]);
    lemma_pushed(items, options::switch_item(letter));
}

/// Operands behind the value of a setting say nothing.
#[verifier::rlimit(60)]
pub proof fn law_settings_have_one_value(key: Seq<char>, value: Seq<char>, more: Seq<Seq<char>>)
    requires
        !options::starts_with_dash(key),
        !options::starts_with_dash(value),
        are_operands(more),
    ensures
        setting::set_option_invocation(seq![key, value] + more) == plain(
            RequestOf::SetOption { target: None, scope: None, key, value, unset: false },
        ),
        setting::set_environment_invocation(seq![key, value] + more) == plain(
            RequestOf::SetEnvironment { name: key, value: Some(value), remove: false },
        ),
{
    let set = option_laws::set_option_grammar();
    let environment = option_laws::set_environment_grammar();
    let all = seq![key, value] + more;
    reveal_strlit("");
    reveal_strlit("-");
    reveal_strlit("gswpuq");
    reveal_strlit("gsru");
    reveal_strlit("t");
    reveal_strlit("gswp");
    assert("-"@[0] == '-');
    assert(are_operands(all)) by {
        assert forall|i: int| 0 <= i < all.len() implies !options::starts_with_dash(
            #[trigger] all[i],
        ) by {
            if i >= 2 {
                assert(all[i] == more[i - 2]);
            }
        }
    }
    lemma_operands(all, set);
    lemma_operands(all, environment);
    lemma_no_options(options::scanned(all, set).items);
    lemma_no_options(options::scanned(all, environment).items);
    assert(all + options::scanned(all, set).tail =~= all);
    assert(all + options::scanned(all, environment).tail =~= all);
}

} // verus!
