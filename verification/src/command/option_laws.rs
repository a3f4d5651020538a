//! What each option of a command does to the request that the command stands for.

use vstd::prelude::*;
use vstd::utf8::encode_utf8;

use crate::command::invocation::InvocationView;
use crate::command::items;
use crate::command::laws::{self, ran_through};
use crate::command::options::{self, Dashes, Grammar, ItemView, Operands, ScanView, Step};
use crate::command::{buffer, chooser, client, pane, session, setting, window};
use crate::geometry::Size;
use crate::protocol::request::{RequestOf, RequestView};
use crate::protocol::wire::{OptionScope, PaneDirection};

verus! {

/// One switch.
pub open spec fn switch(letter: char) -> Seq<Seq<char>> {
    seq![seq!['-', letter]]
}

/// One option with its value.
pub open spec fn valued(letter: char, value: Seq<char>) -> Seq<Seq<char>> {
    seq![seq!['-', letter], value]
}

/// A switch behind arguments that were all scanned adds one item.
pub proof fn lemma_switch(before: Seq<Seq<char>>, letter: char, grammar: Grammar)
    requires
        ran_through(options::scanned(before, grammar), grammar),
        grammar.switches@.contains(letter),
        letter != '-',
    ensures
        ({
            let items = options::scanned(before, grammar).items;
            let item = options::switch_item(letter);
            &&& options::scanned(before + switch(letter), grammar) == (ScanView {
                items: items.push(item),
                ..options::scanned(before, grammar)
            })
            &&& pushed(items, item)
        }),
{
    let items = options::scanned(before, grammar).items;
    let all = before + switch(letter);
    let at = before.len() as int;
    laws::lemma_run_through(before, switch(letter), grammar, 0, seq![]);
    assert(all[at] == seq!['-', letter]);
    assert(seq!['-', letter][1] == letter);
    reveal_strlit("--");
    assert("--"@[1] == '-');
    let more = items.push(options::switch_item(letter));
    assert(options::step(all, grammar, at, items) == (Step::Go { items: more, taken: false }));
    reveal_with_fuel(options::scanned_from, 3);
    assert(options::scanned(before, grammar).tail =~= seq![]);
    lemma_pushed(items, options::switch_item(letter));
}

pub proof fn lemma_value(before: Seq<Seq<char>>, letter: char, value: Seq<char>, grammar: Grammar)
    requires
        ran_through(options::scanned(before, grammar), grammar),
        grammar.values@.contains(letter),
        !grammar.switches@.contains(letter),
        !grammar.gated@.contains(letter),
        letter != '-',
        grammar.separator_value ==> value != "--"@,
    ensures
        ({
            let items = options::scanned(before, grammar).items;
            let item = options::value_item(letter, value);
            &&& options::scanned(before + valued(letter, value), grammar) == (ScanView {
                items: items.push(item),
                ..options::scanned(before, grammar)
            })
            &&& pushed(items, item)
        }),
{
    let items = options::scanned(before, grammar).items;
    let all = before + valued(letter, value);
    let at = before.len() as int;
    laws::lemma_run_through(before, valued(letter, value), grammar, 0, seq![]);
    assert(all[at] == seq!['-', letter]);
    assert(all[at + 1] == value);
    assert(seq!['-', letter][1] == letter);
    reveal_strlit("--");
    assert("--"@[1] == '-');
    let more = items.push(options::value_item(letter, value));
    assert(options::step(all, grammar, at, items) == (Step::Go { items: more, taken: true }));
    reveal_with_fuel(options::scanned_from, 3);
    assert(options::scanned(before, grammar).tail =~= seq![]);
    lemma_pushed(items, options::value_item(letter, value));
}

/// What one more item changes.
pub open spec fn pushed(items: Seq<ItemView>, item: ItemView) -> bool {
    &&& forall|flag: char|
        #[trigger] options::is_seen(items.push(item), flag) == (options::is_seen(items, flag)
            || item.flag == flag)
    &&& forall|flags: Seq<char>|
        #[trigger] items::last_of(items.push(item), flags) == if flags.contains(item.flag) {
            Some(item)
        } else {
            items::last_of(items, flags)
        }
    &&& forall|problem: spec_fn(ItemView) -> Option<Seq<char>>|
        #[trigger] items::first_problem(items.push(item), problem) == match items::first_problem(
            items,
            problem,
        ) {
            Some(error) => Some(error),
            None => problem(item),
        }
    &&& items::operands_of(items.push(item)) == if item.flag == options::OPERAND {
        items::operands_of(items).push(item.value)
    } else {
        items::operands_of(items)
    }
}

pub proof fn lemma_pushed(items: Seq<ItemView>, item: ItemView)
    ensures
        pushed(items, item),
{
    assert(items.push(item).drop_last() =~= items);
    assert(items.push(item).last() == item);
    assert forall|flag: char|
        #[trigger] options::is_seen(items.push(item), flag) == (options::is_seen(items, flag)
            || item.flag == flag) by {
        laws::lemma_seen_push(items, item, flag);
    }
}

/// An operand behind arguments that were all scanned adds one item.
pub proof fn lemma_operand(before: Seq<Seq<char>>, value: Seq<char>, grammar: Grammar)
    requires
        ran_through(options::scanned(before, grammar), grammar),
        grammar.operands == Operands::Each,
        !grammar.delays,
        grammar.cluster@.len() > 0 ==> grammar.cluster_head@.len() > 0 && grammar.cluster_head@[0]
            == '-',
        !options::starts_with_dash(value),
    ensures
        ({
            let items = options::scanned(before, grammar).items;
            let item = options::value_item(options::OPERAND, value);
            &&& options::scanned(before + seq![value], grammar) == (ScanView {
                items: items.push(item),
                ..options::scanned(before, grammar)
            })
            &&& pushed(items, item)
        }),
{
    let items = options::scanned(before, grammar).items;
    let all = before + seq![value];
    let at = before.len() as int;
    laws::lemma_run_through(before, seq![value], grammar, 0, seq![]);
    assert(all[at] == value);
    reveal_strlit("--");
    reveal_strlit("-ds");
    assert("--"@[0] == '-' && "-ds"@[0] == '-');
    if grammar.joined && value.len() > 3 {
        assert(value.take(3)[0] == value[0]);
    }
    if options::is_cluster(grammar, value) {
        assert(value.take(grammar.cluster_head@.len() as int)[0] == value[0]);
    }
    let more = items.push(options::value_item(options::OPERAND, value));
    assert(options::step(all, grammar, at, items) == (Step::Go { items: more, taken: false }));
    reveal_with_fuel(options::scanned_from, 3);
    assert(options::scanned(before, grammar).tail =~= seq![]);
    lemma_pushed(items, options::value_item(options::OPERAND, value));
}

/// The options that `new-window` has.
pub open spec fn new_window_grammar() -> Grammar {
    Grammar {
        separator: true,
        ..options::options("dhvbfkEPaS", "tnclFI", Operands::Rest, "unknown option: ")
    }
}

/// What one more option, or operand, of `new-window` changes.
pub open spec fn new_window_with(
    request: RequestView,
    letter: char,
    given: Seq<char>,
) -> RequestView {
    match request {
        RequestOf::NewWindow {
            target,
            name,
            detached,
            empty,
            index,
            force,
            format,
            after,
            before,
            select_existing,
            command,
            cwd,
        } => RequestOf::NewWindow {
            target: if letter == 't' {
                Some(given)
            } else {
                target
            },
            name: if letter == 'n' {
                Some(given)
            } else {
                name
            },
            detached: detached || letter == 'd',
            empty: empty || letter == 'E',
            index,
            force: force || letter == 'k',
            format: if letter == 'P' {
                Some("#{window_index}:#{window_name}"@)
            } else if letter == 'F' {
                Some(given)
            } else {
                format
            },
            after: after || letter == 'a',
            before: before || letter == 'b',
            select_existing: select_existing || letter == 'S',
            command,
            cwd: if letter == 'c' {
                Some(given)
            } else {
                cwd
            },
        },
        other => other,
    }
}

/// Each option of `new-window` changes what it is there for, and nothing else.
#[verifier::rlimit(60)]
pub proof fn law_new_window_options(before: Seq<Seq<char>>, letter: char, given: Seq<char>)
    requires
        ran_through(options::scanned(before, new_window_grammar()), new_window_grammar()),
    ensures
        window::new_window_invocation(seq![]) == Ok::<InvocationView, Seq<char>>(
            InvocationView {
                request: RequestOf::NewWindow {
                    target: None,
                    name: None,
                    detached: false,
                    empty: false,
                    index: None,
                    force: false,
                    format: None,
                    after: false,
                    before: false,
                    select_existing: false,
                    command: seq![],
                    cwd: None,
                },
                attach: true,
                source: None,
            },
        ),
        window::new_window_invocation(before) matches Ok(bare)
            ==> (letter == 'd' || letter == 'E' || letter == 'k' || letter == 'P'
            || letter == 'a' || letter == 'b' || letter == 'S')
            ==> window::new_window_invocation(before + switch(letter)) == Ok::<
            InvocationView,
            Seq<char>,
        >(
            InvocationView {
                request: new_window_with(bare.request, letter, given),
                attach: bare.attach && letter != 'd',
                ..bare
            },
        ),
        window::new_window_invocation(before) matches Ok(bare)
            ==> (letter == 't' || letter == 'n' || letter == 'F' || letter == 'c')
            ==> window::new_window_invocation(before + valued(letter, given)) == Ok::<
            InvocationView,
            Seq<char>,
        >(
            InvocationView {
                request: new_window_with(bare.request, letter, given),
                attach: bare.attach && letter != 'd',
                ..bare
            },
        ),
{
    let grammar = new_window_grammar();
    reveal_strlit("dhvbfkEPaS");
    reveal_strlit("tnclFI");
    reveal_strlit("tncdkPFIabSE");
    reveal_strlit("t");
    reveal_strlit("n");
    reveal_strlit("I");
    reveal_strlit("c");
    reveal_strlit("PF");
    reveal_strlit("");
    if letter == 'd' {
        assert("dhvbfkEPaS"@[0] == 'd');
        assert("tncdkPFIabSE"@[3] == 'd');
        lemma_switch(before, letter, grammar);
    }
    if letter == 'E' {
        assert("dhvbfkEPaS"@[6] == 'E');
        assert("tncdkPFIabSE"@[11] == 'E');
        lemma_switch(before, letter, grammar);
    }
    if letter == 'k' {
        assert("dhvbfkEPaS"@[5] == 'k');
        assert("tncdkPFIabSE"@[4] == 'k');
        lemma_switch(before, letter, grammar);
    }
    if letter == 'P' {
        assert("dhvbfkEPaS"@[7] == 'P');
        assert("tncdkPFIabSE"@[5] == 'P');
        assert("PF"@[0] == 'P');
        lemma_switch(before, letter, grammar);
    }
    if letter == 'a' {
        assert("dhvbfkEPaS"@[8] == 'a');
        assert("tncdkPFIabSE"@[8] == 'a');
        lemma_switch(before, letter, grammar);
    }
    if letter == 'b' {
        assert("dhvbfkEPaS"@[3] == 'b');
        assert("tncdkPFIabSE"@[9] == 'b');
        lemma_switch(before, letter, grammar);
    }
    if letter == 'S' {
        assert("dhvbfkEPaS"@[9] == 'S');
        assert("tncdkPFIabSE"@[10] == 'S');
        lemma_switch(before, letter, grammar);
    }
    if letter == 't' {
        assert("tnclFI"@[0] == 't');
        assert("tncdkPFIabSE"@[0] == 't');
        assert("t"@[0] == 't');
        lemma_value(before, letter, given, grammar);
    }
    if letter == 'n' {
        assert("tnclFI"@[1] == 'n');
        assert("tncdkPFIabSE"@[1] == 'n');
        assert("n"@[0] == 'n');
        lemma_value(before, letter, given, grammar);
    }
    if letter == 'F' {
        assert("tnclFI"@[4] == 'F');
        assert("tncdkPFIabSE"@[6] == 'F');
        assert("PF"@[1] == 'F');
        lemma_value(before, letter, given, grammar);
    }
    if letter == 'c' {
        assert("tnclFI"@[2] == 'c');
        assert("tncdkPFIabSE"@[2] == 'c');
        assert("c"@[0] == 'c');
        lemma_value(before, letter, given, grammar);
    }
}

/// The options that `split-window` has.
pub open spec fn split_window_grammar() -> Grammar {
    Grammar {
        separator: true,
        ..options::options("dhvbfkEPaS", "tnclFI", Operands::Rest, "unknown option: ")
    }
}

/// What one more option, or operand, of `split-window` changes.
pub open spec fn split_window_with(
    request: RequestView,
    letter: char,
    given: Seq<char>,
) -> RequestView {
    match request {
        RequestOf::SplitWindow {
            target,
            horizontal,
            before,
            full,
            detached,
            empty,
            zoom,
            size,
            command,
            cwd,
        } => RequestOf::SplitWindow {
            target: if letter == 't' {
                Some(given)
            } else {
                target
            },
            horizontal: horizontal || letter == 'h',
            before: before || letter == 'b',
            full: full || letter == 'f',
            detached: detached || letter == 'd',
            empty: empty || letter == 'E',
            zoom,
            size: if letter == 'l' {
                Some(given)
            } else {
                size
            },
            command,
            cwd: if letter == 'c' {
                Some(given)
            } else {
                cwd
            },
        },
        other => other,
    }
}

/// Each option of `split-window` changes what it is there for, and nothing else.
#[verifier::rlimit(60)]
pub proof fn law_split_window_options(before: Seq<Seq<char>>, letter: char, given: Seq<char>)
    requires
        ran_through(options::scanned(before, split_window_grammar()), split_window_grammar()),
    ensures
        window::split_window_invocation(seq![]) == Ok::<InvocationView, Seq<char>>(
            InvocationView {
                request: RequestOf::SplitWindow {
                    target: None,
                    horizontal: false,
                    before: false,
                    full: false,
                    detached: false,
                    empty: false,
                    zoom: false,
                    size: None,
                    command: seq![],
                    cwd: None,
                },
                attach: false,
                source: None,
            },
        ),
        window::split_window_invocation(before) matches Ok(bare)
            ==> (letter == 'h' || letter == 'b' || letter == 'f' || letter == 'd'
            || letter == 'E' || letter == 'v')
            ==> window::split_window_invocation(before + switch(letter)) == Ok::<
            InvocationView,
            Seq<char>,
        >(InvocationView { request: split_window_with(bare.request, letter, given), ..bare }),
        window::split_window_invocation(before) matches Ok(bare)
            ==> (letter == 't' || letter == 'l' || letter == 'c')
            ==> window::split_window_invocation(before + valued(letter, given)) == Ok::<
            InvocationView,
            Seq<char>,
        >(InvocationView { request: split_window_with(bare.request, letter, given), ..bare }),
{
    let grammar = split_window_grammar();
    reveal_strlit("dhvbfkEPaS");
    reveal_strlit("tnclFI");
    reveal_strlit("tchvdbfZlE");
    reveal_strlit("t");
    reveal_strlit("l");
    reveal_strlit("c");
    reveal_strlit("");
    if letter == 'h' {
        assert("dhvbfkEPaS"@[1] == 'h');
        assert("tchvdbfZlE"@[2] == 'h');
        lemma_switch(before, letter, grammar);
    }
    if letter == 'b' {
        assert("dhvbfkEPaS"@[3] == 'b');
        assert("tchvdbfZlE"@[5] == 'b');
        lemma_switch(before, letter, grammar);
    }
    if letter == 'f' {
        assert("dhvbfkEPaS"@[4] == 'f');
        assert("tchvdbfZlE"@[6] == 'f');
        lemma_switch(before, letter, grammar);
    }
    if letter == 'd' {
        assert("dhvbfkEPaS"@[0] == 'd');
        assert("tchvdbfZlE"@[4] == 'd');
        lemma_switch(before, letter, grammar);
    }
    if letter == 'E' {
        assert("dhvbfkEPaS"@[6] == 'E');
        assert("tchvdbfZlE"@[9] == 'E');
        lemma_switch(before, letter, grammar);
    }
    if letter == 'v' {
        assert("dhvbfkEPaS"@[2] == 'v');
        assert("tchvdbfZlE"@[3] == 'v');
        lemma_switch(before, letter, grammar);
    }
    if letter == 't' {
        assert("tnclFI"@[0] == 't');
        assert("tchvdbfZlE"@[0] == 't');
        assert("t"@[0] == 't');
        lemma_value(before, letter, given, grammar);
    }
    if letter == 'l' {
        assert("tnclFI"@[3] == 'l');
        assert("tchvdbfZlE"@[8] == 'l');
        assert("l"@[0] == 'l');
        lemma_value(before, letter, given, grammar);
    }
    if letter == 'c' {
        assert("tnclFI"@[2] == 'c');
        assert("tchvdbfZlE"@[1] == 'c');
        assert("c"@[0] == 'c');
        lemma_value(before, letter, given, grammar);
    }
}

/// The options that `respawn-pane` and `respawn-window` has.
pub open spec fn respawn_grammar() -> Grammar {
    Grammar {
        separator: true,
        ..options::options("dhvbfkEPaS", "tnclFI", Operands::Rest, "unknown option: ")
    }
}

/// What one more option, or operand, of `respawn-pane` and `respawn-window` changes.
pub open spec fn respawn_with(request: RequestView, letter: char, given: Seq<char>) -> RequestView {
    match request {
        RequestOf::RespawnPane {
            target,
            command,
            cwd,
            kill,
            empty,
            window,
        } => RequestOf::RespawnPane {
            target: if letter == 't' {
                Some(given)
            } else {
                target
            },
            command,
            cwd: if letter == 'c' {
                Some(given)
            } else {
                cwd
            },
            kill: kill || letter == 'k',
            empty: empty || letter == 'E',
            window,
        },
        other => other,
    }
}

/// Each option of `respawn-pane` and `respawn-window` changes what it is there
/// for, and nothing else.
pub proof fn law_respawn_options(
    before: Seq<Seq<char>>,
    letter: char,
    given: Seq<char>,
    window: bool,
)
    requires
        ran_through(options::scanned(before, respawn_grammar()), respawn_grammar()),
    ensures
        window::respawn_invocation(seq![], window) == Ok::<InvocationView, Seq<char>>(
            InvocationView {
                request: RequestOf::RespawnPane {
                    target: None,
                    command: seq![],
                    cwd: None,
                    kill: false,
                    empty: false,
                    window,
                },
                attach: false,
                source: None,
            },
        ),
        window::respawn_invocation(before, window) matches Ok(bare)
            ==> (letter == 'k' || letter == 'E' || letter == 'd')
            ==> window::respawn_invocation(before + switch(letter), window) == Ok::<
            InvocationView,
            Seq<char>,
        >(InvocationView { request: respawn_with(bare.request, letter, given), ..bare }),
        window::respawn_invocation(before, window) matches Ok(bare)
            ==> (letter == 't' || letter == 'c')
            ==> window::respawn_invocation(before + valued(letter, given), window) == Ok::<
            InvocationView,
            Seq<char>,
        >(InvocationView { request: respawn_with(bare.request, letter, given), ..bare }),
{
    let grammar = respawn_grammar();
    reveal_strlit("dhvbfkEPaS");
    reveal_strlit("tnclFI");
    reveal_strlit("tckdE");
    reveal_strlit("t");
    reveal_strlit("c");
    reveal_strlit("");
    if letter == 'k' {
        assert("dhvbfkEPaS"@[5] == 'k');
        assert("tckdE"@[2] == 'k');
        lemma_switch(before, letter, grammar);
    }
    if letter == 'E' {
        assert("dhvbfkEPaS"@[6] == 'E');
        assert("tckdE"@[4] == 'E');
        lemma_switch(before, letter, grammar);
    }
    if letter == 'd' {
        assert("dhvbfkEPaS"@[0] == 'd');
        assert("tckdE"@[3] == 'd');
        lemma_switch(before, letter, grammar);
    }
    if letter == 't' {
        assert("tnclFI"@[0] == 't');
        assert("tckdE"@[0] == 't');
        assert("t"@[0] == 't');
        lemma_value(before, letter, given, grammar);
    }
    if letter == 'c' {
        assert("tnclFI"@[2] == 'c');
        assert("tckdE"@[1] == 'c');
        assert("c"@[0] == 'c');
        lemma_value(before, letter, given, grammar);
    }
}

/// The options that `kill-window` has.
pub open spec fn kill_window_grammar() -> Grammar {
    options::options("af", "t", Operands::Each, "unknown kill-window option: ")
}

/// What one more option, or operand, of `kill-window` changes.
pub open spec fn kill_window_with(
    request: RequestView,
    letter: char,
    given: Seq<char>,
) -> RequestView {
    match request {
        RequestOf::KillWindow { target, all } => RequestOf::KillWindow {
            target: if letter == 't' || letter == ' ' {
                Some(given)
            } else {
                target
            },
            all: all || letter == 'a',
        },
        other => other,
    }
}

/// Each option of `kill-window` changes what it is there for, and nothing else.
pub proof fn law_kill_window_options(before: Seq<Seq<char>>, letter: char, given: Seq<char>)
    requires
        ran_through(options::scanned(before, kill_window_grammar()), kill_window_grammar()),
    ensures
        window::kill_window_invocation(seq![]) == Ok::<InvocationView, Seq<char>>(
            InvocationView {
                request: RequestOf::KillWindow { target: None, all: false },
                attach: false,
                source: None,
            },
        ),
        window::kill_window_invocation(before) matches Ok(bare) ==> (letter == 'a')
            ==> window::kill_window_invocation(before + switch(letter)) == Ok::<
            InvocationView,
            Seq<char>,
        >(InvocationView { request: kill_window_with(bare.request, letter, given), ..bare }),
        window::kill_window_invocation(before) matches Ok(bare) ==> (letter == 't')
            ==> window::kill_window_invocation(before + valued(letter, given)) == Ok::<
            InvocationView,
            Seq<char>,
        >(InvocationView { request: kill_window_with(bare.request, letter, given), ..bare }),
        window::kill_window_invocation(before) matches Ok(bare)
            ==> letter == options::OPERAND && !options::starts_with_dash(given)
            ==> window::kill_window_invocation(before + seq![given]) == Ok::<
            InvocationView,
            Seq<char>,
        >(InvocationView { request: kill_window_with(bare.request, letter, given), ..bare }),
{
    let grammar = kill_window_grammar();
    reveal_strlit("af");
    reveal_strlit("t");
    reveal_strlit("t ");
    reveal_strlit("");
    if letter == 'a' {
        assert("af"@[0] == 'a');
        lemma_switch(before, letter, grammar);
    }
    if letter == 't' {
        assert("t"@[0] == 't');
        assert("t "@[0] == 't');
        lemma_value(before, letter, given, grammar);
    }
    if letter == options::OPERAND && !options::starts_with_dash(given) {
        assert("t "@[1] == ' ');
        lemma_operand(before, given, grammar);
    }
}

/// The options that `rotate-window` has.
pub open spec fn rotate_window_grammar() -> Grammar {
    options::options("UD", "t", Operands::Refused, "unknown rotate-window option: ")
}

/// What one more option, or operand, of `rotate-window` changes.
pub open spec fn rotate_window_with(
    request: RequestView,
    letter: char,
    given: Seq<char>,
) -> RequestView {
    match request {
        RequestOf::RotateWindow { target, up } => RequestOf::RotateWindow {
            target: if letter == 't' {
                Some(given)
            } else {
                target
            },
            up: if letter == 'U' {
                true
            } else if letter == 'D' {
                false
            } else {
                up
            },
        },
        other => other,
    }
}

/// Each option of `rotate-window` changes what it is there for, and nothing else.
pub proof fn law_rotate_window_options(before: Seq<Seq<char>>, letter: char, given: Seq<char>)
    requires
        ran_through(options::scanned(before, rotate_window_grammar()), rotate_window_grammar()),
    ensures
        window::rotate_window_invocation(seq![]) == Ok::<InvocationView, Seq<char>>(
            InvocationView {
                request: RequestOf::RotateWindow { target: None, up: false },
                attach: false,
                source: None,
            },
        ),
        window::rotate_window_invocation(before) matches Ok(bare)
            ==> (letter == 'U' || letter == 'D')
            ==> window::rotate_window_invocation(before + switch(letter)) == Ok::<
            InvocationView,
            Seq<char>,
        >(InvocationView { request: rotate_window_with(bare.request, letter, given), ..bare }),
        window::rotate_window_invocation(before) matches Ok(bare) ==> (letter == 't')
            ==> window::rotate_window_invocation(before + valued(letter, given)) == Ok::<
            InvocationView,
            Seq<char>,
        >(InvocationView { request: rotate_window_with(bare.request, letter, given), ..bare }),
{
    let grammar = rotate_window_grammar();
    reveal_strlit("UD");
    reveal_strlit("t");
    reveal_strlit("");
    if letter == 'U' {
        assert("UD"@[0] == 'U');
        lemma_switch(before, letter, grammar);
    }
    if letter == 'D' {
        assert("UD"@[1] == 'D');
        lemma_switch(before, letter, grammar);
    }
    if letter == 't' {
        assert("t"@[0] == 't');
        lemma_value(before, letter, given, grammar);
    }
}

/// The options that `swap-window` has.
pub open spec fn swap_window_grammar() -> Grammar {
    options::options("dr", "st", Operands::Refused, "unknown swap-window option: ")
}

/// What one more option, or operand, of `swap-window` changes.
pub open spec fn swap_window_with(
    request: RequestView,
    letter: char,
    given: Seq<char>,
) -> RequestView {
    match request {
        RequestOf::SwapWindow { source, target, detached } => RequestOf::SwapWindow {
            source: if letter == 's' {
                Some(given)
            } else {
                source
            },
            target: if letter == 't' {
                Some(given)
            } else {
                target
            },
            detached: detached || letter == 'd',
        },
        other => other,
    }
}

/// Each option of `swap-window` changes what it is there for, and nothing else.
pub proof fn law_swap_window_options(before: Seq<Seq<char>>, letter: char, given: Seq<char>)
    requires
        ran_through(options::scanned(before, swap_window_grammar()), swap_window_grammar()),
    ensures
        window::swap_window_invocation(seq![]) == Ok::<InvocationView, Seq<char>>(
            InvocationView {
                request: RequestOf::SwapWindow { source: None, target: None, detached: false },
                attach: false,
                source: None,
            },
        ),
        window::swap_window_invocation(before) matches Ok(bare) ==> (letter == 'd' || letter == 'r')
            ==> window::swap_window_invocation(before + switch(letter)) == Ok::<
            InvocationView,
            Seq<char>,
        >(InvocationView { request: swap_window_with(bare.request, letter, given), ..bare }),
        window::swap_window_invocation(before) matches Ok(bare) ==> (letter == 's' || letter == 't')
            ==> window::swap_window_invocation(before + valued(letter, given)) == Ok::<
            InvocationView,
            Seq<char>,
        >(InvocationView { request: swap_window_with(bare.request, letter, given), ..bare }),
{
    let grammar = swap_window_grammar();
    reveal_strlit("dr");
    reveal_strlit("st");
    reveal_strlit("s");
    reveal_strlit("t");
    reveal_strlit("");
    if letter == 'd' {
        assert("dr"@[0] == 'd');
        lemma_switch(before, letter, grammar);
    }
    if letter == 'r' {
        assert("dr"@[1] == 'r');
        lemma_switch(before, letter, grammar);
    }
    if letter == 's' {
        assert("st"@[0] == 's');
        assert("s"@[0] == 's');
        lemma_value(before, letter, given, grammar);
    }
    if letter == 't' {
        assert("st"@[1] == 't');
        assert("t"@[0] == 't');
        lemma_value(before, letter, given, grammar);
    }
}

/// The options that `move-window` has.
pub open spec fn move_window_grammar() -> Grammar {
    options::options("adkr", "st", Operands::Refused, "unknown move-window option: ")
}

/// What one more option, or operand, of `move-window` changes.
pub open spec fn move_window_with(
    request: RequestView,
    letter: char,
    given: Seq<char>,
) -> RequestView {
    match request {
        RequestOf::MoveWindow {
            source,
            target,
            after,
            detached,
            force,
            renumber,
        } => RequestOf::MoveWindow {
            source: if letter == 's' {
                Some(given)
            } else {
                source
            },
            target: if letter == 't' {
                Some(given)
            } else {
                target
            },
            after: after || letter == 'a',
            detached: detached || letter == 'd',
            force: force || letter == 'k',
            renumber: renumber || letter == 'r',
        },
        other => other,
    }
}

/// Each option of `move-window` changes what it is there for, and nothing else.
pub proof fn law_move_window_options(before: Seq<Seq<char>>, letter: char, given: Seq<char>)
    requires
        ran_through(options::scanned(before, move_window_grammar()), move_window_grammar()),
    ensures
        window::move_window_invocation(seq![]) == Ok::<InvocationView, Seq<char>>(
            InvocationView {
                request: RequestOf::MoveWindow {
                    source: None,
                    target: None,
                    after: false,
                    detached: false,
                    force: false,
                    renumber: false,
                },
                attach: false,
                source: None,
            },
        ),
        window::move_window_invocation(before) matches Ok(bare)
            ==> (letter == 'a' || letter == 'd' || letter == 'k' || letter == 'r')
            ==> window::move_window_invocation(before + switch(letter)) == Ok::<
            InvocationView,
            Seq<char>,
        >(InvocationView { request: move_window_with(bare.request, letter, given), ..bare }),
        window::move_window_invocation(before) matches Ok(bare) ==> (letter == 's' || letter == 't')
            ==> window::move_window_invocation(before + valued(letter, given)) == Ok::<
            InvocationView,
            Seq<char>,
        >(InvocationView { request: move_window_with(bare.request, letter, given), ..bare }),
{
    let grammar = move_window_grammar();
    reveal_strlit("adkr");
    reveal_strlit("st");
    reveal_strlit("s");
    reveal_strlit("t");
    reveal_strlit("");
    if letter == 'a' {
        assert("adkr"@[0] == 'a');
        lemma_switch(before, letter, grammar);
    }
    if letter == 'd' {
        assert("adkr"@[1] == 'd');
        lemma_switch(before, letter, grammar);
    }
    if letter == 'k' {
        assert("adkr"@[2] == 'k');
        lemma_switch(before, letter, grammar);
    }
    if letter == 'r' {
        assert("adkr"@[3] == 'r');
        lemma_switch(before, letter, grammar);
    }
    if letter == 's' {
        assert("st"@[0] == 's');
        assert("s"@[0] == 's');
        lemma_value(before, letter, given, grammar);
    }
    if letter == 't' {
        assert("st"@[1] == 't');
        assert("t"@[0] == 't');
        lemma_value(before, letter, given, grammar);
    }
}

/// The options that `link-window` has.
pub open spec fn link_window_grammar() -> Grammar {
    options::options("dk", "st", Operands::Refused, "unknown link-window option: ")
}

/// What one more option, or operand, of `link-window` changes.
pub open spec fn link_window_with(
    request: RequestView,
    letter: char,
    given: Seq<char>,
) -> RequestView {
    match request {
        RequestOf::LinkWindow { source, target, detached, force } => RequestOf::LinkWindow {
            source: if letter == 's' {
                Some(given)
            } else {
                source
            },
            target: if letter == 't' {
                Some(given)
            } else {
                target
            },
            detached: detached || letter == 'd',
            force: force || letter == 'k',
        },
        other => other,
    }
}

/// Each option of `link-window` changes what it is there for, and nothing else.
pub proof fn law_link_window_options(before: Seq<Seq<char>>, letter: char, given: Seq<char>)
    requires
        ran_through(options::scanned(before, link_window_grammar()), link_window_grammar()),
    ensures
        window::link_window_invocation(seq![]) == Ok::<InvocationView, Seq<char>>(
            InvocationView {
                request: RequestOf::LinkWindow {
                    source: None,
                    target: None,
                    detached: false,
                    force: false,
                },
                attach: false,
                source: None,
            },
        ),
        window::link_window_invocation(before) matches Ok(bare) ==> (letter == 'd' || letter == 'k')
            ==> window::link_window_invocation(before + switch(letter)) == Ok::<
            InvocationView,
            Seq<char>,
        >(InvocationView { request: link_window_with(bare.request, letter, given), ..bare }),
        window::link_window_invocation(before) matches Ok(bare) ==> (letter == 's' || letter == 't')
            ==> window::link_window_invocation(before + valued(letter, given)) == Ok::<
            InvocationView,
            Seq<char>,
        >(InvocationView { request: link_window_with(bare.request, letter, given), ..bare }),
{
    let grammar = link_window_grammar();
    reveal_strlit("dk");
    reveal_strlit("st");
    reveal_strlit("s");
    reveal_strlit("t");
    reveal_strlit("");
    if letter == 'd' {
        assert("dk"@[0] == 'd');
        lemma_switch(before, letter, grammar);
    }
    if letter == 'k' {
        assert("dk"@[1] == 'k');
        lemma_switch(before, letter, grammar);
    }
    if letter == 's' {
        assert("st"@[0] == 's');
        assert("s"@[0] == 's');
        lemma_value(before, letter, given, grammar);
    }
    if letter == 't' {
        assert("st"@[1] == 't');
        assert("t"@[0] == 't');
        lemma_value(before, letter, given, grammar);
    }
}

/// The options that `unlink-window` has.
pub open spec fn unlink_window_grammar() -> Grammar {
    options::options("k", "t", Operands::Refused, "unknown unlink-window option: ")
}

/// What one more option, or operand, of `unlink-window` changes.
pub open spec fn unlink_window_with(
    request: RequestView,
    letter: char,
    given: Seq<char>,
) -> RequestView {
    match request {
        RequestOf::UnlinkWindow { target, force } => RequestOf::UnlinkWindow {
            target: if letter == 't' {
                Some(given)
            } else {
                target
            },
            force: force || letter == 'k',
        },
        other => other,
    }
}

/// Each option of `unlink-window` changes what it is there for, and nothing else.
pub proof fn law_unlink_window_options(before: Seq<Seq<char>>, letter: char, given: Seq<char>)
    requires
        ran_through(options::scanned(before, unlink_window_grammar()), unlink_window_grammar()),
    ensures
        window::unlink_window_invocation(seq![]) == Ok::<InvocationView, Seq<char>>(
            InvocationView {
                request: RequestOf::UnlinkWindow { target: None, force: false },
                attach: false,
                source: None,
            },
        ),
        window::unlink_window_invocation(before) matches Ok(bare) ==> (letter == 'k')
            ==> window::unlink_window_invocation(before + switch(letter)) == Ok::<
            InvocationView,
            Seq<char>,
        >(InvocationView { request: unlink_window_with(bare.request, letter, given), ..bare }),
        window::unlink_window_invocation(before) matches Ok(bare) ==> (letter == 't')
            ==> window::unlink_window_invocation(before + valued(letter, given)) == Ok::<
            InvocationView,
            Seq<char>,
        >(InvocationView { request: unlink_window_with(bare.request, letter, given), ..bare }),
{
    let grammar = unlink_window_grammar();
    reveal_strlit("k");
    reveal_strlit("t");
    reveal_strlit("");
    if letter == 'k' {
        assert("k"@[0] == 'k');
        lemma_switch(before, letter, grammar);
    }
    if letter == 't' {
        assert("t"@[0] == 't');
        lemma_value(before, letter, given, grammar);
    }
}

/// The options that `list-windows` has.
pub open spec fn list_windows_grammar() -> Grammar {
    options::options("", "tFf", Operands::Refused, "unknown list-windows option: ")
}

/// What one more option, or operand, of `list-windows` changes.
pub open spec fn list_windows_with(
    request: RequestView,
    letter: char,
    given: Seq<char>,
) -> RequestView {
    match request {
        RequestOf::ListWindows { target, format } => RequestOf::ListWindows {
            target: if letter == 't' {
                Some(given)
            } else {
                target
            },
            format: if letter == 'F' {
                Some(given)
            } else {
                format
            },
        },
        other => other,
    }
}

/// Each option of `list-windows` changes what it is there for, and nothing else.
pub proof fn law_list_windows_options(before: Seq<Seq<char>>, letter: char, given: Seq<char>)
    requires
        ran_through(options::scanned(before, list_windows_grammar()), list_windows_grammar()),
    ensures
        window::list_windows_invocation(seq![]) == Ok::<InvocationView, Seq<char>>(
            InvocationView {
                request: RequestOf::ListWindows { target: None, format: None },
                attach: false,
                source: None,
            },
        ),
        window::list_windows_invocation(before) matches Ok(bare)
            ==> (letter == 't' || letter == 'F' || letter == 'f')
            ==> window::list_windows_invocation(before + valued(letter, given)) == Ok::<
            InvocationView,
            Seq<char>,
        >(InvocationView { request: list_windows_with(bare.request, letter, given), ..bare }),
{
    let grammar = list_windows_grammar();
    reveal_strlit("");
    reveal_strlit("tFf");
    reveal_strlit("t");
    reveal_strlit("F");
    if letter == 't' {
        assert("tFf"@[0] == 't');
        assert("t"@[0] == 't');
        lemma_value(before, letter, given, grammar);
    }
    if letter == 'F' {
        assert("tFf"@[1] == 'F');
        assert("F"@[0] == 'F');
        lemma_value(before, letter, given, grammar);
    }
    if letter == 'f' {
        assert("tFf"@[2] == 'f');
        lemma_value(before, letter, given, grammar);
    }
}

/// The options that `new-session` has.
pub open spec fn new_session_grammar() -> Grammar {
    Grammar {
        attached: "snxy",
        joined: true,
        separator: true,
        separator_value: true,
        ..options::options("dAPE", "tFsncxy", Operands::Rest, "unknown new-session option: ")
    }
}

/// What one more option, or operand, of `new-session` changes.
pub open spec fn new_session_with(
    request: RequestView,
    letter: char,
    given: Seq<char>,
) -> RequestView {
    match request {
        RequestOf::NewSession {
            name,
            detached,
            attach_existing,
            group_target,
            format,
            window_name,
            empty,
            command,
            cwd,
            size,
        } => RequestOf::NewSession {
            name: if letter == 's' {
                Some(given)
            } else {
                name
            },
            detached: detached || letter == 'd',
            attach_existing: attach_existing || letter == 'A',
            group_target: if letter == 't' {
                Some(given)
            } else {
                group_target
            },
            format: if letter == 'P' {
                Some("#{session_name}"@)
            } else if letter == 'F' {
                Some(given)
            } else {
                format
            },
            window_name: if letter == 'n' {
                Some(given)
            } else {
                window_name
            },
            empty: empty || letter == 'E',
            command,
            cwd: if letter == 'c' {
                Some(given)
            } else {
                cwd
            },
            size,
        },
        other => other,
    }
}

/// Each option of `new-session` changes what it is there for, and nothing else.
#[verifier::rlimit(60)]
pub proof fn law_new_session_options(
    before: Seq<Seq<char>>,
    letter: char,
    given: Seq<char>,
    cwd: Option<Seq<char>>,
)
    requires
        ran_through(options::scanned(before, new_session_grammar()), new_session_grammar()),
        given != "--"@,
    ensures
        session::new_session_invocation(seq![], cwd) == Ok::<InvocationView, Seq<char>>(
            InvocationView {
                request: RequestOf::NewSession {
                    name: None,
                    detached: false,
                    attach_existing: false,
                    group_target: None,
                    format: None,
                    window_name: None,
                    empty: false,
                    command: seq![],
                    cwd,
                    size: Size { cols: 80, rows: 24 },
                },
                attach: true,
                source: None,
            },
        ),
        session::new_session_invocation(before, cwd) matches Ok(bare)
            ==> (letter == 'd' || letter == 'A' || letter == 'P' || letter == 'E')
            ==> session::new_session_invocation(before + switch(letter), cwd) == Ok::<
            InvocationView,
            Seq<char>,
        >(
            InvocationView {
                request: new_session_with(bare.request, letter, given),
                attach: bare.attach && letter != 'd',
                ..bare
            },
        ),
        session::new_session_invocation(before, cwd) matches Ok(bare)
            ==> (letter == 's' || letter == 't' || letter == 'F' || letter == 'n' || letter == 'c')
            ==> session::new_session_invocation(before + valued(letter, given), cwd) == Ok::<
            InvocationView,
            Seq<char>,
        >(
            InvocationView {
                request: new_session_with(bare.request, letter, given),
                attach: bare.attach && letter != 'd',
                ..bare
            },
        ),
{
    let grammar = new_session_grammar();
    reveal_strlit("dAPE");
    reveal_strlit("tFsncxy");
    reveal_strlit("snxy");
    reveal_strlit("s");
    reveal_strlit("t");
    reveal_strlit("PF");
    reveal_strlit("n");
    reveal_strlit("c");
    reveal_strlit("x");
    reveal_strlit("y");
    reveal_strlit("");
    if letter == 'd' {
        assert("dAPE"@[0] == 'd');
        lemma_switch(before, letter, grammar);
    }
    if letter == 'A' {
        assert("dAPE"@[1] == 'A');
        lemma_switch(before, letter, grammar);
    }
    if letter == 'P' {
        assert("dAPE"@[2] == 'P');
        assert("PF"@[0] == 'P');
        lemma_switch(before, letter, grammar);
    }
    if letter == 'E' {
        assert("dAPE"@[3] == 'E');
        lemma_switch(before, letter, grammar);
    }
    if letter == 's' {
        assert("tFsncxy"@[2] == 's');
        assert("snxy"@[0] == 's');
        assert("s"@[0] == 's');
        lemma_value(before, letter, given, grammar);
    }
    if letter == 't' {
        assert("tFsncxy"@[0] == 't');
        assert("t"@[0] == 't');
        lemma_value(before, letter, given, grammar);
    }
    if letter == 'F' {
        assert("tFsncxy"@[1] == 'F');
        assert("PF"@[1] == 'F');
        lemma_value(before, letter, given, grammar);
    }
    if letter == 'n' {
        assert("tFsncxy"@[3] == 'n');
        assert("snxy"@[1] == 'n');
        assert("n"@[0] == 'n');
        lemma_value(before, letter, given, grammar);
    }
    if letter == 'c' {
        assert("tFsncxy"@[4] == 'c');
        assert("c"@[0] == 'c');
        lemma_value(before, letter, given, grammar);
    }
}

/// The options that `attach-session` has.
pub open spec fn attach_grammar() -> Grammar {
    Grammar {
        attached: "xy",
        ..options::options("", "txy", Operands::Each, "unknown attach option: ")
    }
}

/// What one more option, or operand, of `attach-session` changes.
pub open spec fn attach_with(request: RequestView, letter: char, given: Seq<char>) -> RequestView {
    match request {
        RequestOf::Attach { target, size } => RequestOf::Attach {
            target: if letter == 't' || letter == ' ' {
                Some(given)
            } else {
                target
            },
            size,
        },
        other => other,
    }
}

/// Each option of `attach-session` changes what it is there for, and nothing else.
pub proof fn law_attach_options(before: Seq<Seq<char>>, letter: char, given: Seq<char>)
    requires
        ran_through(options::scanned(before, attach_grammar()), attach_grammar()),
    ensures
        session::attach_invocation(seq![]) == Ok::<InvocationView, Seq<char>>(
            InvocationView {
                request: RequestOf::Attach { target: None, size: Size { cols: 80, rows: 24 } },
                attach: true,
                source: None,
            },
        ),
        session::attach_invocation(before) matches Ok(bare) ==> (letter == 't')
            ==> session::attach_invocation(before + valued(letter, given)) == Ok::<
            InvocationView,
            Seq<char>,
        >(InvocationView { request: attach_with(bare.request, letter, given), ..bare }),
        session::attach_invocation(before) matches Ok(bare)
            ==> letter == options::OPERAND && !options::starts_with_dash(given)
            ==> session::attach_invocation(before + seq![given]) == Ok::<
            InvocationView,
            Seq<char>,
        >(InvocationView { request: attach_with(bare.request, letter, given), ..bare }),
{
    let grammar = attach_grammar();
    reveal_strlit("");
    reveal_strlit("txy");
    reveal_strlit("xy");
    reveal_strlit("t ");
    reveal_strlit("x");
    reveal_strlit("y");
    if letter == 't' {
        assert("txy"@[0] == 't');
        assert("t "@[0] == 't');
        lemma_value(before, letter, given, grammar);
    }
    if letter == options::OPERAND && !options::starts_with_dash(given) {
        assert("t "@[1] == ' ');
        lemma_operand(before, given, grammar);
    }
}

/// The options that `kill-session` has.
pub open spec fn kill_session_grammar() -> Grammar {
    options::options("aCf", "t", Operands::Each, "unknown kill-session option: ")
}

/// What one more option, or operand, of `kill-session` changes.
pub open spec fn kill_session_with(
    request: RequestView,
    letter: char,
    given: Seq<char>,
) -> RequestView {
    match request {
        RequestOf::KillSession { target, all } => RequestOf::KillSession {
            target: if letter == 't' || letter == ' ' {
                Some(given)
            } else {
                target
            },
            all: all || letter == 'a',
        },
        other => other,
    }
}

/// Each option of `kill-session` changes what it is there for, and nothing else.
pub proof fn law_kill_session_options(before: Seq<Seq<char>>, letter: char, given: Seq<char>)
    requires
        ran_through(options::scanned(before, kill_session_grammar()), kill_session_grammar()),
    ensures
        session::kill_session_invocation(seq![]) == Ok::<InvocationView, Seq<char>>(
            InvocationView {
                request: RequestOf::KillSession { target: None, all: false },
                attach: false,
                source: None,
            },
        ),
        session::kill_session_invocation(before) matches Ok(bare)
            ==> (letter == 'a' || letter == 'C')
            ==> session::kill_session_invocation(before + switch(letter)) == Ok::<
            InvocationView,
            Seq<char>,
        >(InvocationView { request: kill_session_with(bare.request, letter, given), ..bare }),
        session::kill_session_invocation(before) matches Ok(bare) ==> (letter == 't')
            ==> session::kill_session_invocation(before + valued(letter, given)) == Ok::<
            InvocationView,
            Seq<char>,
        >(InvocationView { request: kill_session_with(bare.request, letter, given), ..bare }),
        session::kill_session_invocation(before) matches Ok(bare)
            ==> letter == options::OPERAND && !options::starts_with_dash(given)
            ==> session::kill_session_invocation(before + seq![given]) == Ok::<
            InvocationView,
            Seq<char>,
        >(InvocationView { request: kill_session_with(bare.request, letter, given), ..bare }),
{
    let grammar = kill_session_grammar();
    reveal_strlit("aCf");
    reveal_strlit("t");
    reveal_strlit("t ");
    reveal_strlit("");
    if letter == 'a' {
        assert("aCf"@[0] == 'a');
        lemma_switch(before, letter, grammar);
    }
    if letter == 'C' {
        assert("aCf"@[1] == 'C');
        lemma_switch(before, letter, grammar);
    }
    if letter == 't' {
        assert("t"@[0] == 't');
        assert("t "@[0] == 't');
        lemma_value(before, letter, given, grammar);
    }
    if letter == options::OPERAND && !options::starts_with_dash(given) {
        assert("t "@[1] == ' ');
        lemma_operand(before, given, grammar);
    }
}

/// The options that `list-sessions` has.
pub open spec fn list_sessions_grammar() -> Grammar {
    options::options("a", "Ff", Operands::Refused, "unknown list-sessions option: ")
}

/// What one more option, or operand, of `list-sessions` changes.
pub open spec fn list_sessions_with(
    request: RequestView,
    letter: char,
    given: Seq<char>,
) -> RequestView {
    match request {
        RequestOf::ListSessions { format } => RequestOf::ListSessions {
            format: if letter == 'F' {
                Some(given)
            } else {
                format
            },
        },
        other => other,
    }
}

/// Each option of `list-sessions` changes what it is there for, and nothing else.
pub proof fn law_list_sessions_options(before: Seq<Seq<char>>, letter: char, given: Seq<char>)
    requires
        ran_through(options::scanned(before, list_sessions_grammar()), list_sessions_grammar()),
    ensures
        session::list_sessions_invocation(seq![]) == Ok::<InvocationView, Seq<char>>(
            InvocationView {
                request: RequestOf::ListSessions { format: None },
                attach: false,
                source: None,
            },
        ),
        session::list_sessions_invocation(before) matches Ok(bare) ==> (letter == 'a')
            ==> session::list_sessions_invocation(before + switch(letter)) == Ok::<
            InvocationView,
            Seq<char>,
        >(InvocationView { request: list_sessions_with(bare.request, letter, given), ..bare }),
        session::list_sessions_invocation(before) matches Ok(bare)
            ==> (letter == 'F' || letter == 'f')
            ==> session::list_sessions_invocation(before + valued(letter, given)) == Ok::<
            InvocationView,
            Seq<char>,
        >(InvocationView { request: list_sessions_with(bare.request, letter, given), ..bare }),
{
    let grammar = list_sessions_grammar();
    reveal_strlit("a");
    reveal_strlit("Ff");
    reveal_strlit("F");
    reveal_strlit("");
    if letter == 'a' {
        assert("a"@[0] == 'a');
        lemma_switch(before, letter, grammar);
    }
    if letter == 'F' {
        assert("Ff"@[0] == 'F');
        assert("F"@[0] == 'F');
        lemma_value(before, letter, given, grammar);
    }
    if letter == 'f' {
        assert("Ff"@[1] == 'f');
        lemma_value(before, letter, given, grammar);
    }
}

/// The options that `list-panes` has.
pub open spec fn list_panes_grammar() -> Grammar {
    options::options("as", "tFf", Operands::Refused, "unknown list-panes option: ")
}

/// What one more option, or operand, of `list-panes` changes.
pub open spec fn list_panes_with(
    request: RequestView,
    letter: char,
    given: Seq<char>,
) -> RequestView {
    match request {
        RequestOf::ListPanes { target, format } => RequestOf::ListPanes {
            target: if letter == 't' {
                Some(given)
            } else {
                target
            },
            format: if letter == 'F' {
                Some(given)
            } else {
                format
            },
        },
        other => other,
    }
}

/// Each option of `list-panes` changes what it is there for, and nothing else.
pub proof fn law_list_panes_options(before: Seq<Seq<char>>, letter: char, given: Seq<char>)
    requires
        ran_through(options::scanned(before, list_panes_grammar()), list_panes_grammar()),
    ensures
        pane::list_panes_invocation(seq![]) == Ok::<InvocationView, Seq<char>>(
            InvocationView {
                request: RequestOf::ListPanes { target: None, format: None },
                attach: false,
                source: None,
            },
        ),
        pane::list_panes_invocation(before) matches Ok(bare) ==> (letter == 'a' || letter == 's')
            ==> pane::list_panes_invocation(before + switch(letter)) == Ok::<
            InvocationView,
            Seq<char>,
        >(InvocationView { request: list_panes_with(bare.request, letter, given), ..bare }),
        pane::list_panes_invocation(before) matches Ok(bare)
            ==> (letter == 't' || letter == 'F' || letter == 'f')
            ==> pane::list_panes_invocation(before + valued(letter, given)) == Ok::<
            InvocationView,
            Seq<char>,
        >(InvocationView { request: list_panes_with(bare.request, letter, given), ..bare }),
{
    let grammar = list_panes_grammar();
    reveal_strlit("as");
    reveal_strlit("tFf");
    reveal_strlit("t");
    reveal_strlit("F");
    reveal_strlit("");
    if letter == 'a' {
        assert("as"@[0] == 'a');
        lemma_switch(before, letter, grammar);
    }
    if letter == 's' {
        assert("as"@[1] == 's');
        lemma_switch(before, letter, grammar);
    }
    if letter == 't' {
        assert("tFf"@[0] == 't');
        assert("t"@[0] == 't');
        lemma_value(before, letter, given, grammar);
    }
    if letter == 'F' {
        assert("tFf"@[1] == 'F');
        assert("F"@[0] == 'F');
        lemma_value(before, letter, given, grammar);
    }
    if letter == 'f' {
        assert("tFf"@[2] == 'f');
        lemma_value(before, letter, given, grammar);
    }
}

/// The options that `select-pane` has.
pub open spec fn select_pane_grammar() -> Grammar {
    options::options("LRUDlnpmMde", "tT", Operands::Refused, "unknown select-pane option: ")
}

/// What one more option, or operand, of `select-pane` changes.
pub open spec fn select_pane_with(
    request: RequestView,
    letter: char,
    given: Seq<char>,
) -> RequestView {
    match request {
        RequestOf::SelectPane { target, direction, mark, title, enabled } => RequestOf::SelectPane {
            target: if letter == 't' {
                Some(given)
            } else {
                target
            },
            direction: if letter == 'L' {
                PaneDirection::Left
            } else if letter == 'R' {
                PaneDirection::Right
            } else if letter == 'U' {
                PaneDirection::Up
            } else if letter == 'D' {
                PaneDirection::Down
            } else if letter == 'l' {
                PaneDirection::Last
            } else if letter == 'n' {
                PaneDirection::Next
            } else if letter == 'p' {
                PaneDirection::Previous
            } else {
                direction
            },
            mark: if letter == 'm' {
                Some(true)
            } else if letter == 'M' {
                Some(false)
            } else {
                mark
            },
            title: if letter == 'T' {
                Some(given)
            } else {
                title
            },
            enabled: if letter == 'e' {
                Some(true)
            } else if letter == 'd' {
                Some(false)
            } else {
                enabled
            },
        },
        other => other,
    }
}

/// Each option of `select-pane` changes what it is there for, and nothing else.
pub proof fn law_select_pane_options(before: Seq<Seq<char>>, letter: char, given: Seq<char>)
    requires
        ran_through(options::scanned(before, select_pane_grammar()), select_pane_grammar()),
    ensures
        pane::select_pane_invocation(seq![]) == Ok::<InvocationView, Seq<char>>(
            InvocationView {
                request: RequestOf::SelectPane {
                    target: None,
                    direction: PaneDirection::Last,
                    mark: None,
                    title: None,
                    enabled: None,
                },
                attach: false,
                source: None,
            },
        ),
        pane::select_pane_invocation(before) matches Ok(bare)
            ==> (letter == 'L' || letter == 'R' || letter == 'U' || letter == 'D'
            || letter == 'l' || letter == 'n' || letter == 'p' || letter == 'm'
            || letter == 'M' || letter == 'e' || letter == 'd')
            ==> pane::select_pane_invocation(before + switch(letter)) == Ok::<
            InvocationView,
            Seq<char>,
        >(InvocationView { request: select_pane_with(bare.request, letter, given), ..bare }),
        pane::select_pane_invocation(before) matches Ok(bare) ==> (letter == 't' || letter == 'T')
            ==> pane::select_pane_invocation(before + valued(letter, given)) == Ok::<
            InvocationView,
            Seq<char>,
        >(InvocationView { request: select_pane_with(bare.request, letter, given), ..bare }),
{
    let grammar = select_pane_grammar();
    reveal_strlit("LRUDlnpmMde");
    reveal_strlit("tT");
    reveal_strlit("t");
    reveal_strlit("T");
    reveal_strlit("LRUDlnp");
    reveal_strlit("mM");
    reveal_strlit("de");
    reveal_strlit("");
    if letter == 'L' {
        assert("LRUDlnpmMde"@[0] == 'L');
        assert("LRUDlnp"@[0] == 'L');
        lemma_switch(before, letter, grammar);
    }
    if letter == 'R' {
        assert("LRUDlnpmMde"@[1] == 'R');
        assert("LRUDlnp"@[1] == 'R');
        lemma_switch(before, letter, grammar);
    }
    if letter == 'U' {
        assert("LRUDlnpmMde"@[2] == 'U');
        assert("LRUDlnp"@[2] == 'U');
        lemma_switch(before, letter, grammar);
    }
    if letter == 'D' {
        assert("LRUDlnpmMde"@[3] == 'D');
        assert("LRUDlnp"@[3] == 'D');
        lemma_switch(before, letter, grammar);
    }
    if letter == 'l' {
        assert("LRUDlnpmMde"@[4] == 'l');
        assert("LRUDlnp"@[4] == 'l');
        lemma_switch(before, letter, grammar);
    }
    if letter == 'n' {
        assert("LRUDlnpmMde"@[5] == 'n');
        assert("LRUDlnp"@[5] == 'n');
        lemma_switch(before, letter, grammar);
    }
    if letter == 'p' {
        assert("LRUDlnpmMde"@[6] == 'p');
        assert("LRUDlnp"@[6] == 'p');
        lemma_switch(before, letter, grammar);
    }
    if letter == 'm' {
        assert("LRUDlnpmMde"@[7] == 'm');
        assert("mM"@[0] == 'm');
        lemma_switch(before, letter, grammar);
    }
    if letter == 'M' {
        assert("LRUDlnpmMde"@[8] == 'M');
        assert("mM"@[1] == 'M');
        lemma_switch(before, letter, grammar);
    }
    if letter == 'e' {
        assert("LRUDlnpmMde"@[10] == 'e');
        assert("de"@[1] == 'e');
        lemma_switch(before, letter, grammar);
    }
    if letter == 'd' {
        assert("LRUDlnpmMde"@[9] == 'd');
        assert("de"@[0] == 'd');
        lemma_switch(before, letter, grammar);
    }
    if letter == 't' {
        assert("tT"@[0] == 't');
        assert("t"@[0] == 't');
        lemma_value(before, letter, given, grammar);
    }
    if letter == 'T' {
        assert("tT"@[1] == 'T');
        assert("T"@[0] == 'T');
        lemma_value(before, letter, given, grammar);
    }
}

/// The options that `kill-pane` has.
pub open spec fn kill_pane_grammar() -> Grammar {
    options::options("aK", "tfF", Operands::Refused, "unknown kill-pane option: ")
}

/// What one more option, or operand, of `kill-pane` changes.
pub open spec fn kill_pane_with(
    request: RequestView,
    letter: char,
    given: Seq<char>,
) -> RequestView {
    match request {
        RequestOf::KillPane { target, all, filter } => RequestOf::KillPane {
            target: if letter == 't' {
                Some(given)
            } else {
                target
            },
            all: all || letter == 'a',
            filter: if letter == 'f' {
                Some(given)
            } else {
                filter
            },
        },
        other => other,
    }
}

/// Each option of `kill-pane` changes what it is there for, and nothing else.
pub proof fn law_kill_pane_options(before: Seq<Seq<char>>, letter: char, given: Seq<char>)
    requires
        ran_through(options::scanned(before, kill_pane_grammar()), kill_pane_grammar()),
    ensures
        pane::kill_pane_invocation(seq![]) == Ok::<InvocationView, Seq<char>>(
            InvocationView {
                request: RequestOf::KillPane { target: None, all: false, filter: None },
                attach: false,
                source: None,
            },
        ),
        pane::kill_pane_invocation(before) matches Ok(bare) ==> (letter == 'a' || letter == 'K')
            ==> pane::kill_pane_invocation(before + switch(letter)) == Ok::<
            InvocationView,
            Seq<char>,
        >(InvocationView { request: kill_pane_with(bare.request, letter, given), ..bare }),
        pane::kill_pane_invocation(before) matches Ok(bare)
            ==> (letter == 't' || letter == 'f' || letter == 'F')
            ==> pane::kill_pane_invocation(before + valued(letter, given)) == Ok::<
            InvocationView,
            Seq<char>,
        >(InvocationView { request: kill_pane_with(bare.request, letter, given), ..bare }),
{
    let grammar = kill_pane_grammar();
    reveal_strlit("aK");
    reveal_strlit("tfF");
    reveal_strlit("t");
    reveal_strlit("f");
    reveal_strlit("");
    if letter == 'a' {
        assert("aK"@[0] == 'a');
        lemma_switch(before, letter, grammar);
    }
    if letter == 'K' {
        assert("aK"@[1] == 'K');
        lemma_switch(before, letter, grammar);
    }
    if letter == 't' {
        assert("tfF"@[0] == 't');
        assert("t"@[0] == 't');
        lemma_value(before, letter, given, grammar);
    }
    if letter == 'f' {
        assert("tfF"@[1] == 'f');
        assert("f"@[0] == 'f');
        lemma_value(before, letter, given, grammar);
    }
    if letter == 'F' {
        assert("tfF"@[2] == 'F');
        lemma_value(before, letter, given, grammar);
    }
}

/// The options that `resize-pane` has.
pub open spec fn resize_pane_grammar() -> Grammar {
    Grammar {
        attached: "xy",
        ..options::options("LRUDZ", "txy", Operands::Each, "unknown resize-pane option: ")
    }
}

/// What one more option, or operand, of `resize-pane` changes.
pub open spec fn resize_pane_with(
    request: RequestView,
    letter: char,
    given: Seq<char>,
) -> RequestView {
    match request {
        RequestOf::ResizePane {
            target,
            direction,
            amount,
            absolute,
            absolute_percent,
            zoom,
        } => RequestOf::ResizePane {
            target: if letter == 't' {
                Some(given)
            } else {
                target
            },
            direction: if letter == 'L' {
                PaneDirection::Left
            } else if letter == 'R' {
                PaneDirection::Right
            } else if letter == 'U' {
                PaneDirection::Up
            } else if letter == 'D' {
                PaneDirection::Down
            } else {
                direction
            },
            amount,
            absolute,
            absolute_percent,
            zoom: zoom || letter == 'Z',
        },
        other => other,
    }
}

/// Each option of `resize-pane` changes what it is there for, and nothing else.
pub proof fn law_resize_pane_options(before: Seq<Seq<char>>, letter: char, given: Seq<char>)
    requires
        ran_through(options::scanned(before, resize_pane_grammar()), resize_pane_grammar()),
    ensures
        pane::resize_pane_invocation(seq![]) == Ok::<InvocationView, Seq<char>>(
            InvocationView {
                request: RequestOf::ResizePane {
                    target: None,
                    direction: PaneDirection::Right,
                    amount: 1,
                    absolute: None,
                    absolute_percent: false,
                    zoom: false,
                },
                attach: false,
                source: None,
            },
        ),
        pane::resize_pane_invocation(before) matches Ok(bare)
            ==> (letter == 'L' || letter == 'R' || letter == 'U' || letter == 'D' || letter == 'Z')
            ==> pane::resize_pane_invocation(before + switch(letter)) == Ok::<
            InvocationView,
            Seq<char>,
        >(InvocationView { request: resize_pane_with(bare.request, letter, given), ..bare }),
        pane::resize_pane_invocation(before) matches Ok(bare) ==> (letter == 't')
            ==> pane::resize_pane_invocation(before + valued(letter, given)) == Ok::<
            InvocationView,
            Seq<char>,
        >(InvocationView { request: resize_pane_with(bare.request, letter, given), ..bare }),
{
    let grammar = resize_pane_grammar();
    reveal_strlit("LRUDZ");
    reveal_strlit("txy");
    reveal_strlit("xy");
    reveal_strlit("t");
    reveal_strlit("LRUDxy");
    reveal_strlit(" ");
    reveal_strlit("");
    if letter == 'L' {
        assert("LRUDZ"@[0] == 'L');
        assert("LRUDxy"@[0] == 'L');
        lemma_switch(before, letter, grammar);
    }
    if letter == 'R' {
        assert("LRUDZ"@[1] == 'R');
        assert("LRUDxy"@[1] == 'R');
        lemma_switch(before, letter, grammar);
    }
    if letter == 'U' {
        assert("LRUDZ"@[2] == 'U');
        assert("LRUDxy"@[2] == 'U');
        lemma_switch(before, letter, grammar);
    }
    if letter == 'D' {
        assert("LRUDZ"@[3] == 'D');
        assert("LRUDxy"@[3] == 'D');
        lemma_switch(before, letter, grammar);
    }
    if letter == 'Z' {
        assert("LRUDZ"@[4] == 'Z');
        lemma_switch(before, letter, grammar);
    }
    if letter == 't' {
        assert("txy"@[0] == 't');
        assert("t"@[0] == 't');
        lemma_value(before, letter, given, grammar);
    }
}

/// The options that `swap-pane` has.
pub open spec fn swap_pane_grammar() -> Grammar {
    options::options("UDdZ", "st", Operands::Refused, "unknown swap-pane option: ")
}

/// What one more option, or operand, of `swap-pane` changes.
pub open spec fn swap_pane_with(
    request: RequestView,
    letter: char,
    given: Seq<char>,
) -> RequestView {
    match request {
        RequestOf::SwapPane { source, target, direction, detached } => RequestOf::SwapPane {
            source: if letter == 's' {
                Some(given)
            } else {
                source
            },
            target: if letter == 't' {
                Some(given)
            } else {
                target
            },
            direction: if letter == 'U' {
                Some(PaneDirection::Previous)
            } else if letter == 'D' {
                Some(PaneDirection::Next)
            } else {
                direction
            },
            detached: detached || letter == 'd',
        },
        other => other,
    }
}

/// Each option of `swap-pane` changes what it is there for, and nothing else.
pub proof fn law_swap_pane_options(before: Seq<Seq<char>>, letter: char, given: Seq<char>)
    requires
        ran_through(options::scanned(before, swap_pane_grammar()), swap_pane_grammar()),
    ensures
        pane::swap_pane_invocation(seq![]) == Ok::<InvocationView, Seq<char>>(
            InvocationView {
                request: RequestOf::SwapPane {
                    source: None,
                    target: None,
                    direction: None,
                    detached: false,
                },
                attach: false,
                source: None,
            },
        ),
        pane::swap_pane_invocation(before) matches Ok(bare)
            ==> (letter == 'U' || letter == 'D' || letter == 'd' || letter == 'Z')
            ==> pane::swap_pane_invocation(before + switch(letter)) == Ok::<
            InvocationView,
            Seq<char>,
        >(InvocationView { request: swap_pane_with(bare.request, letter, given), ..bare }),
        pane::swap_pane_invocation(before) matches Ok(bare) ==> (letter == 's' || letter == 't')
            ==> pane::swap_pane_invocation(before + valued(letter, given)) == Ok::<
            InvocationView,
            Seq<char>,
        >(InvocationView { request: swap_pane_with(bare.request, letter, given), ..bare }),
{
    let grammar = swap_pane_grammar();
    reveal_strlit("UDdZ");
    reveal_strlit("st");
    reveal_strlit("s");
    reveal_strlit("t");
    reveal_strlit("UD");
    reveal_strlit("");
    if letter == 'U' {
        assert("UDdZ"@[0] == 'U');
        assert("UD"@[0] == 'U');
        lemma_switch(before, letter, grammar);
    }
    if letter == 'D' {
        assert("UDdZ"@[1] == 'D');
        assert("UD"@[1] == 'D');
        lemma_switch(before, letter, grammar);
    }
    if letter == 'd' {
        assert("UDdZ"@[2] == 'd');
        lemma_switch(before, letter, grammar);
    }
    if letter == 'Z' {
        assert("UDdZ"@[3] == 'Z');
        lemma_switch(before, letter, grammar);
    }
    if letter == 's' {
        assert("st"@[0] == 's');
        assert("s"@[0] == 's');
        lemma_value(before, letter, given, grammar);
    }
    if letter == 't' {
        assert("st"@[1] == 't');
        assert("t"@[0] == 't');
        lemma_value(before, letter, given, grammar);
    }
}

/// The options that `break-pane` has.
pub open spec fn break_pane_grammar() -> Grammar {
    options::options("dP", "stnF", Operands::Refused, "unknown break-pane option: ")
}

/// What one more option, or operand, of `break-pane` changes.
pub open spec fn break_pane_with(
    request: RequestView,
    letter: char,
    given: Seq<char>,
) -> RequestView {
    match request {
        RequestOf::BreakPane { source, target, name, detached, format } => RequestOf::BreakPane {
            source: if letter == 's' {
                Some(given)
            } else {
                source
            },
            target: if letter == 't' {
                Some(given)
            } else {
                target
            },
            name: if letter == 'n' {
                Some(given)
            } else {
                name
            },
            detached: detached || letter == 'd',
            format: if letter == 'P' {
                Some("#{window_index}:#{pane_id}"@)
            } else if letter == 'F' {
                Some(given)
            } else {
                format
            },
        },
        other => other,
    }
}

/// Each option of `break-pane` changes what it is there for, and nothing else.
pub proof fn law_break_pane_options(before: Seq<Seq<char>>, letter: char, given: Seq<char>)
    requires
        ran_through(options::scanned(before, break_pane_grammar()), break_pane_grammar()),
    ensures
        pane::break_pane_invocation(seq![]) == Ok::<InvocationView, Seq<char>>(
            InvocationView {
                request: RequestOf::BreakPane {
                    source: None,
                    target: None,
                    name: None,
                    detached: false,
                    format: None,
                },
                attach: false,
                source: None,
            },
        ),
        pane::break_pane_invocation(before) matches Ok(bare) ==> (letter == 'd' || letter == 'P')
            ==> pane::break_pane_invocation(before + switch(letter)) == Ok::<
            InvocationView,
            Seq<char>,
        >(InvocationView { request: break_pane_with(bare.request, letter, given), ..bare }),
        pane::break_pane_invocation(before) matches Ok(bare)
            ==> (letter == 's' || letter == 't' || letter == 'n' || letter == 'F')
            ==> pane::break_pane_invocation(before + valued(letter, given)) == Ok::<
            InvocationView,
            Seq<char>,
        >(InvocationView { request: break_pane_with(bare.request, letter, given), ..bare }),
{
    let grammar = break_pane_grammar();
    reveal_strlit("dP");
    reveal_strlit("stnF");
    reveal_strlit("s");
    reveal_strlit("t");
    reveal_strlit("n");
    reveal_strlit("PF");
    reveal_strlit("");
    if letter == 'd' {
        assert("dP"@[0] == 'd');
        lemma_switch(before, letter, grammar);
    }
    if letter == 'P' {
        assert("dP"@[1] == 'P');
        assert("PF"@[0] == 'P');
        lemma_switch(before, letter, grammar);
    }
    if letter == 's' {
        assert("stnF"@[0] == 's');
        assert("s"@[0] == 's');
        lemma_value(before, letter, given, grammar);
    }
    if letter == 't' {
        assert("stnF"@[1] == 't');
        assert("t"@[0] == 't');
        lemma_value(before, letter, given, grammar);
    }
    if letter == 'n' {
        assert("stnF"@[2] == 'n');
        assert("n"@[0] == 'n');
        lemma_value(before, letter, given, grammar);
    }
    if letter == 'F' {
        assert("stnF"@[3] == 'F');
        assert("PF"@[1] == 'F');
        lemma_value(before, letter, given, grammar);
    }
}

/// The options that `join-pane` has.
pub open spec fn join_pane_grammar() -> Grammar {
    options::options("hvbd", "stl", Operands::Refused, "unknown join-pane option: ")
}

/// What one more option, or operand, of `join-pane` changes.
pub open spec fn join_pane_with(
    request: RequestView,
    letter: char,
    given: Seq<char>,
) -> RequestView {
    match request {
        RequestOf::JoinPane {
            source,
            target,
            horizontal,
            before,
            detached,
            size,
        } => RequestOf::JoinPane {
            source: if letter == 's' {
                Some(given)
            } else {
                source
            },
            target: if letter == 't' {
                Some(given)
            } else {
                target
            },
            horizontal: horizontal || letter == 'h',
            before: before || letter == 'b',
            detached: detached || letter == 'd',
            size: if letter == 'l' {
                Some(given)
            } else {
                size
            },
        },
        other => other,
    }
}

/// Each option of `join-pane` changes what it is there for, and nothing else.
pub proof fn law_join_pane_options(before: Seq<Seq<char>>, letter: char, given: Seq<char>)
    requires
        ran_through(options::scanned(before, join_pane_grammar()), join_pane_grammar()),
    ensures
        pane::join_pane_invocation(seq![]) == Ok::<InvocationView, Seq<char>>(
            InvocationView {
                request: RequestOf::JoinPane {
                    source: None,
                    target: None,
                    horizontal: false,
                    before: false,
                    detached: false,
                    size: None,
                },
                attach: false,
                source: None,
            },
        ),
        pane::join_pane_invocation(before) matches Ok(bare)
            ==> (letter == 'h' || letter == 'b' || letter == 'd' || letter == 'v')
            ==> pane::join_pane_invocation(before + switch(letter)) == Ok::<
            InvocationView,
            Seq<char>,
        >(InvocationView { request: join_pane_with(bare.request, letter, given), ..bare }),
        pane::join_pane_invocation(before) matches Ok(bare)
            ==> (letter == 's' || letter == 't' || letter == 'l')
            ==> pane::join_pane_invocation(before + valued(letter, given)) == Ok::<
            InvocationView,
            Seq<char>,
        >(InvocationView { request: join_pane_with(bare.request, letter, given), ..bare }),
{
    let grammar = join_pane_grammar();
    reveal_strlit("hvbd");
    reveal_strlit("stl");
    reveal_strlit("s");
    reveal_strlit("t");
    reveal_strlit("l");
    reveal_strlit("");
    if letter == 'h' {
        assert("hvbd"@[0] == 'h');
        lemma_switch(before, letter, grammar);
    }
    if letter == 'b' {
        assert("hvbd"@[2] == 'b');
        lemma_switch(before, letter, grammar);
    }
    if letter == 'd' {
        assert("hvbd"@[3] == 'd');
        lemma_switch(before, letter, grammar);
    }
    if letter == 'v' {
        assert("hvbd"@[1] == 'v');
        lemma_switch(before, letter, grammar);
    }
    if letter == 's' {
        assert("stl"@[0] == 's');
        assert("s"@[0] == 's');
        lemma_value(before, letter, given, grammar);
    }
    if letter == 't' {
        assert("stl"@[1] == 't');
        assert("t"@[0] == 't');
        lemma_value(before, letter, given, grammar);
    }
    if letter == 'l' {
        assert("stl"@[2] == 'l');
        assert("l"@[0] == 'l');
        lemma_value(before, letter, given, grammar);
    }
}

/// The options that `copy-mode` has.
pub open spec fn copy_mode_grammar() -> Grammar {
    options::options("eHkduqMS", "ts", Operands::Refused, "unknown copy-mode option: ")
}

/// What one more option, or operand, of `copy-mode` changes.
pub open spec fn copy_mode_with(
    request: RequestView,
    letter: char,
    given: Seq<char>,
) -> RequestView {
    match request {
        RequestOf::CopyMode {
            target,
            source,
            exit_on_scroll,
            hide_position,
            kill_on_exit,
            page,
            page_down,
            reset,
            mouse_start,
            scroll_to_mouse,
        } => RequestOf::CopyMode {
            target: if letter == 't' {
                Some(given)
            } else {
                target
            },
            source: if letter == 's' {
                Some(given)
            } else {
                source
            },
            exit_on_scroll: exit_on_scroll || letter == 'e',
            hide_position: hide_position || letter == 'H',
            kill_on_exit: kill_on_exit || letter == 'k',
            page: page || letter == 'u',
            page_down: page_down || letter == 'd',
            reset: reset || letter == 'q',
            mouse_start: mouse_start || letter == 'M',
            scroll_to_mouse: scroll_to_mouse || letter == 'S',
        },
        other => other,
    }
}

/// Each option of `copy-mode` changes what it is there for, and nothing else.
#[verifier::rlimit(60)]
pub proof fn law_copy_mode_options(
    before: Seq<Seq<char>>,
    letter: char,
    given: Seq<char>,
    page: bool,
)
    requires
        ran_through(options::scanned(before, copy_mode_grammar()), copy_mode_grammar()),
    ensures
        pane::copy_mode_invocation(seq![], page) == Ok::<InvocationView, Seq<char>>(
            InvocationView {
                request: RequestOf::CopyMode {
                    target: None,
                    source: None,
                    exit_on_scroll: false,
                    hide_position: false,
                    kill_on_exit: false,
                    page,
                    page_down: false,
                    reset: false,
                    mouse_start: false,
                    scroll_to_mouse: false,
                },
                attach: false,
                source: None,
            },
        ),
        pane::copy_mode_invocation(before, page) matches Ok(bare)
            ==> (letter == 'e' || letter == 'H' || letter == 'k' || letter == 'u'
            || letter == 'd' || letter == 'q' || letter == 'M' || letter == 'S')
            ==> pane::copy_mode_invocation(before + switch(letter), page) == Ok::<
            InvocationView,
            Seq<char>,
        >(InvocationView { request: copy_mode_with(bare.request, letter, given), ..bare }),
        pane::copy_mode_invocation(before, page) matches Ok(bare)
            ==> (letter == 't' || letter == 's')
            ==> pane::copy_mode_invocation(before + valued(letter, given), page) == Ok::<
            InvocationView,
            Seq<char>,
        >(InvocationView { request: copy_mode_with(bare.request, letter, given), ..bare }),
{
    let grammar = copy_mode_grammar();
    reveal_strlit("eHkduqMS");
    reveal_strlit("ts");
    reveal_strlit("t");
    reveal_strlit("s");
    reveal_strlit("");
    if letter == 'e' {
        assert("eHkduqMS"@[0] == 'e');
        lemma_switch(before, letter, grammar);
    }
    if letter == 'H' {
        assert("eHkduqMS"@[1] == 'H');
        lemma_switch(before, letter, grammar);
    }
    if letter == 'k' {
        assert("eHkduqMS"@[2] == 'k');
        lemma_switch(before, letter, grammar);
    }
    if letter == 'u' {
        assert("eHkduqMS"@[4] == 'u');
        lemma_switch(before, letter, grammar);
    }
    if letter == 'd' {
        assert("eHkduqMS"@[3] == 'd');
        lemma_switch(before, letter, grammar);
    }
    if letter == 'q' {
        assert("eHkduqMS"@[5] == 'q');
        lemma_switch(before, letter, grammar);
    }
    if letter == 'M' {
        assert("eHkduqMS"@[6] == 'M');
        lemma_switch(before, letter, grammar);
    }
    if letter == 'S' {
        assert("eHkduqMS"@[7] == 'S');
        lemma_switch(before, letter, grammar);
    }
    if letter == 't' {
        assert("ts"@[0] == 't');
        assert("t"@[0] == 't');
        lemma_value(before, letter, given, grammar);
    }
    if letter == 's' {
        assert("ts"@[1] == 's');
        assert("s"@[0] == 's');
        lemma_value(before, letter, given, grammar);
    }
}

/// The options that `display-panes` has.
pub open spec fn display_panes_grammar() -> Grammar {
    Grammar {
        attached: "d",
        delays: true,
        ..options::options("ZkN", "ts", Operands::Rest, "unknown display-panes option: ")
    }
}

/// What one more option, or operand, of `display-panes` changes.
pub open spec fn display_panes_with(
    request: RequestView,
    letter: char,
    given: Seq<char>,
) -> RequestView {
    match request {
        RequestOf::DisplayPanes {
            target,
            source,
            no_zoom,
            no_mode,
            command,
            kill_on_exit,
        } => RequestOf::DisplayPanes {
            target: if letter == 't' {
                Some(given)
            } else {
                target
            },
            source: if letter == 's' {
                Some(given)
            } else {
                source
            },
            no_zoom: no_zoom || letter == 'Z',
            no_mode: no_mode || letter == 'N',
            command,
            kill_on_exit: kill_on_exit || letter == 'k',
        },
        other => other,
    }
}

/// Each option of `display-panes` changes what it is there for, and nothing else.
pub proof fn law_display_panes_options(before: Seq<Seq<char>>, letter: char, given: Seq<char>)
    requires
        ran_through(options::scanned(before, display_panes_grammar()), display_panes_grammar()),
    ensures
        pane::display_panes_invocation(seq![]) == Ok::<InvocationView, Seq<char>>(
            InvocationView {
                request: RequestOf::DisplayPanes {
                    target: None,
                    source: None,
                    no_zoom: false,
                    no_mode: false,
                    command: seq![],
                    kill_on_exit: false,
                },
                attach: false,
                source: None,
            },
        ),
        pane::display_panes_invocation(before) matches Ok(bare)
            ==> (letter == 'Z' || letter == 'N' || letter == 'k')
            ==> pane::display_panes_invocation(before + switch(letter)) == Ok::<
            InvocationView,
            Seq<char>,
        >(InvocationView { request: display_panes_with(bare.request, letter, given), ..bare }),
        pane::display_panes_invocation(before) matches Ok(bare) ==> (letter == 't' || letter == 's')
            ==> pane::display_panes_invocation(before + valued(letter, given)) == Ok::<
            InvocationView,
            Seq<char>,
        >(InvocationView { request: display_panes_with(bare.request, letter, given), ..bare }),
{
    let grammar = display_panes_grammar();
    reveal_strlit("ZkN");
    reveal_strlit("ts");
    reveal_strlit("d");
    reveal_strlit("t");
    reveal_strlit("s");
    reveal_strlit("");
    if letter == 'Z' {
        assert("ZkN"@[0] == 'Z');
        lemma_switch(before, letter, grammar);
    }
    if letter == 'N' {
        assert("ZkN"@[2] == 'N');
        lemma_switch(before, letter, grammar);
    }
    if letter == 'k' {
        assert("ZkN"@[1] == 'k');
        lemma_switch(before, letter, grammar);
    }
    if letter == 't' {
        assert("ts"@[0] == 't');
        assert("t"@[0] == 't');
        lemma_value(before, letter, given, grammar);
    }
    if letter == 's' {
        assert("ts"@[1] == 's');
        assert("s"@[0] == 's');
        lemma_value(before, letter, given, grammar);
    }
}

/// The options that `capture-pane` has.
pub open spec fn capture_pane_grammar() -> Grammar {
    Grammar {
        attached: "SE",
        cluster: "eJNHp",
        cluster_head: "-p",
        ..options::options("peJNH", "tSE", Operands::Refused, "unknown capture-pane option: ")
    }
}

/// What one more option, or operand, of `capture-pane` changes.
pub open spec fn capture_pane_with(
    request: RequestView,
    letter: char,
    given: Seq<char>,
) -> RequestView {
    match request {
        RequestOf::CapturePane {
            target,
            start,
            end,
            escape,
            join,
            preserve_trailing,
        } => RequestOf::CapturePane {
            target: if letter == 't' {
                Some(given)
            } else {
                target
            },
            start,
            end,
            escape: escape || letter == 'e',
            join,
            preserve_trailing: preserve_trailing || letter == 'N',
        },
        other => other,
    }
}

/// Each option of `capture-pane` changes what it is there for, and nothing else.
pub proof fn law_capture_pane_options(before: Seq<Seq<char>>, letter: char, given: Seq<char>)
    requires
        ran_through(options::scanned(before, capture_pane_grammar()), capture_pane_grammar()),
    ensures
        pane::capture_pane_invocation(seq![]) == Ok::<InvocationView, Seq<char>>(
            InvocationView {
                request: RequestOf::CapturePane {
                    target: None,
                    start: None,
                    end: None,
                    escape: false,
                    join: false,
                    preserve_trailing: false,
                },
                attach: false,
                source: None,
            },
        ),
        pane::capture_pane_invocation(before) matches Ok(bare)
            ==> (letter == 'e' || letter == 'N' || letter == 'p' || letter == 'H')
            ==> pane::capture_pane_invocation(before + switch(letter)) == Ok::<
            InvocationView,
            Seq<char>,
        >(InvocationView { request: capture_pane_with(bare.request, letter, given), ..bare }),
        pane::capture_pane_invocation(before) matches Ok(bare) ==> (letter == 't')
            ==> pane::capture_pane_invocation(before + valued(letter, given)) == Ok::<
            InvocationView,
            Seq<char>,
        >(InvocationView { request: capture_pane_with(bare.request, letter, given), ..bare }),
{
    let grammar = capture_pane_grammar();
    reveal_strlit("peJNH");
    reveal_strlit("tSE");
    reveal_strlit("SE");
    reveal_strlit("eJNHp");
    reveal_strlit("-p");
    reveal_strlit("t");
    reveal_strlit("S");
    reveal_strlit("E");
    reveal_strlit("");
    if letter == 'e' {
        assert("peJNH"@[1] == 'e');
        assert("eJNHp"@[0] == 'e');
        lemma_switch(before, letter, grammar);
    }
    if letter == 'N' {
        assert("peJNH"@[3] == 'N');
        assert("eJNHp"@[2] == 'N');
        lemma_switch(before, letter, grammar);
    }
    if letter == 'p' {
        assert("peJNH"@[0] == 'p');
        assert("eJNHp"@[4] == 'p');
        assert("-p"@[1] == 'p');
        lemma_switch(before, letter, grammar);
    }
    if letter == 'H' {
        assert("peJNH"@[4] == 'H');
        assert("eJNHp"@[3] == 'H');
        lemma_switch(before, letter, grammar);
    }
    if letter == 't' {
        assert("tSE"@[0] == 't');
        assert("t"@[0] == 't');
        lemma_value(before, letter, given, grammar);
    }
}

/// The options that `pipe-pane` has.
pub open spec fn pipe_pane_grammar() -> Grammar {
    Grammar {
        separator: true,
        ..options::options("oIO", "t", Operands::Each, "unknown pipe-pane option: ")
    }
}

/// What one more option, or operand, of `pipe-pane` changes.
pub open spec fn pipe_pane_with(
    request: RequestView,
    letter: char,
    given: Seq<char>,
) -> RequestView {
    match request {
        RequestOf::PipePane { target, command, toggle } => RequestOf::PipePane {
            target: if letter == 't' {
                Some(given)
            } else {
                target
            },
            command: if letter == ' ' {
                Some(given)
            } else {
                command
            },
            toggle: toggle || letter == 'o',
        },
        other => other,
    }
}

/// Each option of `pipe-pane` changes what it is there for, and nothing else.
pub proof fn law_pipe_pane_options(before: Seq<Seq<char>>, letter: char, given: Seq<char>)
    requires
        ran_through(options::scanned(before, pipe_pane_grammar()), pipe_pane_grammar()),
    ensures
        pane::pipe_pane_invocation(seq![]) == Ok::<InvocationView, Seq<char>>(
            InvocationView {
                request: RequestOf::PipePane { target: None, command: None, toggle: false },
                attach: false,
                source: None,
            },
        ),
        pane::pipe_pane_invocation(before) matches Ok(bare)
            ==> (letter == 'o' || letter == 'I' || letter == 'O')
            ==> pane::pipe_pane_invocation(before + switch(letter)) == Ok::<
            InvocationView,
            Seq<char>,
        >(InvocationView { request: pipe_pane_with(bare.request, letter, given), ..bare }),
        pane::pipe_pane_invocation(before) matches Ok(bare) ==> (letter == 't')
            ==> pane::pipe_pane_invocation(before + valued(letter, given)) == Ok::<
            InvocationView,
            Seq<char>,
        >(InvocationView { request: pipe_pane_with(bare.request, letter, given), ..bare }),
        pane::pipe_pane_invocation(before) matches Ok(bare)
            ==> letter == options::OPERAND && !options::starts_with_dash(given)
            ==> pane::pipe_pane_invocation(before + seq![given]) == Ok::<
            InvocationView,
            Seq<char>,
        >(InvocationView { request: pipe_pane_with(bare.request, letter, given), ..bare }),
{
    let grammar = pipe_pane_grammar();
    reveal_strlit("oIO");
    reveal_strlit("t");
    reveal_strlit(" ");
    reveal_strlit("");
    if letter == 'o' {
        assert("oIO"@[0] == 'o');
        lemma_switch(before, letter, grammar);
    }
    if letter == 'I' {
        assert("oIO"@[1] == 'I');
        lemma_switch(before, letter, grammar);
    }
    if letter == 'O' {
        assert("oIO"@[2] == 'O');
        lemma_switch(before, letter, grammar);
    }
    if letter == 't' {
        assert("t"@[0] == 't');
        lemma_value(before, letter, given, grammar);
    }
    if letter == options::OPERAND && !options::starts_with_dash(given) {
        assert(" "@[0] == ' ');
        lemma_operand(before, given, grammar);
    }
}

/// The options that `choose-tree` has.
pub open spec fn choose_tree_grammar() -> Grammar {
    options::options("rhkNZG", "tfFO", Operands::Refused, "unknown choose-tree option: ")
}

/// What one more option, or operand, of `choose-tree` changes.
pub open spec fn choose_tree_with(
    request: RequestView,
    letter: char,
    given: Seq<char>,
) -> RequestView {
    match request {
        RequestOf::ChooseTree {
            target,
            filter,
            format,
            sort,
            reverse,
            hide_source,
            kill_on_exit,
        } => RequestOf::ChooseTree {
            target: if letter == 't' {
                Some(given)
            } else {
                target
            },
            filter: if letter == 'f' {
                Some(given)
            } else {
                filter
            },
            format: if letter == 'F' {
                Some(given)
            } else {
                format
            },
            sort: if letter == 'O' {
                given
            } else {
                sort
            },
            reverse: reverse || letter == 'r',
            hide_source: hide_source || letter == 'h',
            kill_on_exit: kill_on_exit || letter == 'k',
        },
        other => other,
    }
}

/// Each option of `choose-tree` changes what it is there for, and nothing else.
pub proof fn law_choose_tree_options(before: Seq<Seq<char>>, letter: char, given: Seq<char>)
    requires
        ran_through(options::scanned(before, choose_tree_grammar()), choose_tree_grammar()),
    ensures
        chooser::choose_tree_invocation(seq![]) == Ok::<InvocationView, Seq<char>>(
            InvocationView {
                request: RequestOf::ChooseTree {
                    target: None,
                    filter: None,
                    format: None,
                    sort: "index"@,
                    reverse: false,
                    hide_source: false,
                    kill_on_exit: false,
                },
                attach: false,
                source: None,
            },
        ),
        chooser::choose_tree_invocation(before) matches Ok(bare)
            ==> (letter == 'r' || letter == 'h' || letter == 'k' || letter == 'N'
            || letter == 'Z' || letter == 'G')
            ==> chooser::choose_tree_invocation(before + switch(letter)) == Ok::<
            InvocationView,
            Seq<char>,
        >(InvocationView { request: choose_tree_with(bare.request, letter, given), ..bare }),
        chooser::choose_tree_invocation(before) matches Ok(bare)
            ==> (letter == 't' || letter == 'f' || letter == 'F' || letter == 'O')
            ==> chooser::choose_tree_invocation(before + valued(letter, given)) == Ok::<
            InvocationView,
            Seq<char>,
        >(InvocationView { request: choose_tree_with(bare.request, letter, given), ..bare }),
{
    let grammar = choose_tree_grammar();
    reveal_strlit("rhkNZG");
    reveal_strlit("tfFO");
    reveal_strlit("t");
    reveal_strlit("f");
    reveal_strlit("F");
    reveal_strlit("O");
    reveal_strlit("");
    if letter == 'r' {
        assert("rhkNZG"@[0] == 'r');
        lemma_switch(before, letter, grammar);
    }
    if letter == 'h' {
        assert("rhkNZG"@[1] == 'h');
        lemma_switch(before, letter, grammar);
    }
    if letter == 'k' {
        assert("rhkNZG"@[2] == 'k');
        lemma_switch(before, letter, grammar);
    }
    if letter == 'N' {
        assert("rhkNZG"@[3] == 'N');
        lemma_switch(before, letter, grammar);
    }
    if letter == 'Z' {
        assert("rhkNZG"@[4] == 'Z');
        lemma_switch(before, letter, grammar);
    }
    if letter == 'G' {
        assert("rhkNZG"@[5] == 'G');
        lemma_switch(before, letter, grammar);
    }
    if letter == 't' {
        assert("tfFO"@[0] == 't');
        assert("t"@[0] == 't');
        lemma_value(before, letter, given, grammar);
    }
    if letter == 'f' {
        assert("tfFO"@[1] == 'f');
        assert("f"@[0] == 'f');
        lemma_value(before, letter, given, grammar);
    }
    if letter == 'F' {
        assert("tfFO"@[2] == 'F');
        assert("F"@[0] == 'F');
        lemma_value(before, letter, given, grammar);
    }
    if letter == 'O' {
        assert("tfFO"@[3] == 'O');
        assert("O"@[0] == 'O');
        lemma_value(before, letter, given, grammar);
    }
}

/// The options that `choose-buffer` has.
pub open spec fn choose_buffer_grammar() -> Grammar {
    options::options("rkNZG", "tfFO", Operands::Refused, "unknown choose-buffer option: ")
}

/// What one more option, or operand, of `choose-buffer` changes.
pub open spec fn choose_buffer_with(
    request: RequestView,
    letter: char,
    given: Seq<char>,
) -> RequestView {
    match request {
        RequestOf::ChooseBuffer {
            target,
            filter,
            format,
            sort,
            reverse,
            kill_on_exit,
        } => RequestOf::ChooseBuffer {
            target: if letter == 't' {
                Some(given)
            } else {
                target
            },
            filter: if letter == 'f' {
                Some(given)
            } else {
                filter
            },
            format: if letter == 'F' {
                Some(given)
            } else {
                format
            },
            sort: if letter == 'O' {
                given
            } else {
                sort
            },
            reverse: reverse || letter == 'r',
            kill_on_exit: kill_on_exit || letter == 'k',
        },
        other => other,
    }
}

/// Each option of `choose-buffer` changes what it is there for, and nothing else.
pub proof fn law_choose_buffer_options(before: Seq<Seq<char>>, letter: char, given: Seq<char>)
    requires
        ran_through(options::scanned(before, choose_buffer_grammar()), choose_buffer_grammar()),
    ensures
        chooser::choose_buffer_invocation(seq![]) == Ok::<InvocationView, Seq<char>>(
            InvocationView {
                request: RequestOf::ChooseBuffer {
                    target: None,
                    filter: None,
                    format: None,
                    sort: "index"@,
                    reverse: false,
                    kill_on_exit: false,
                },
                attach: false,
                source: None,
            },
        ),
        chooser::choose_buffer_invocation(before) matches Ok(bare)
            ==> (letter == 'r' || letter == 'k' || letter == 'N' || letter == 'Z' || letter == 'G')
            ==> chooser::choose_buffer_invocation(before + switch(letter)) == Ok::<
            InvocationView,
            Seq<char>,
        >(InvocationView { request: choose_buffer_with(bare.request, letter, given), ..bare }),
        chooser::choose_buffer_invocation(before) matches Ok(bare)
            ==> (letter == 't' || letter == 'f' || letter == 'F' || letter == 'O')
            ==> chooser::choose_buffer_invocation(before + valued(letter, given)) == Ok::<
            InvocationView,
            Seq<char>,
        >(InvocationView { request: choose_buffer_with(bare.request, letter, given), ..bare }),
{
    let grammar = choose_buffer_grammar();
    reveal_strlit("rkNZG");
    reveal_strlit("tfFO");
    reveal_strlit("t");
    reveal_strlit("f");
    reveal_strlit("F");
    reveal_strlit("O");
    reveal_strlit("");
    if letter == 'r' {
        assert("rkNZG"@[0] == 'r');
        lemma_switch(before, letter, grammar);
    }
    if letter == 'k' {
        assert("rkNZG"@[1] == 'k');
        lemma_switch(before, letter, grammar);
    }
    if letter == 'N' {
        assert("rkNZG"@[2] == 'N');
        lemma_switch(before, letter, grammar);
    }
    if letter == 'Z' {
        assert("rkNZG"@[3] == 'Z');
        lemma_switch(before, letter, grammar);
    }
    if letter == 'G' {
        assert("rkNZG"@[4] == 'G');
        lemma_switch(before, letter, grammar);
    }
    if letter == 't' {
        assert("tfFO"@[0] == 't');
        assert("t"@[0] == 't');
        lemma_value(before, letter, given, grammar);
    }
    if letter == 'f' {
        assert("tfFO"@[1] == 'f');
        assert("f"@[0] == 'f');
        lemma_value(before, letter, given, grammar);
    }
    if letter == 'F' {
        assert("tfFO"@[2] == 'F');
        assert("F"@[0] == 'F');
        lemma_value(before, letter, given, grammar);
    }
    if letter == 'O' {
        assert("tfFO"@[3] == 'O');
        assert("O"@[0] == 'O');
        lemma_value(before, letter, given, grammar);
    }
}

/// The options that `choose-client` has.
pub open spec fn choose_client_grammar() -> Grammar {
    options::options("kNZG", "tfF", Operands::Refused, "unknown choose-client option: ")
}

/// What one more option, or operand, of `choose-client` changes.
pub open spec fn choose_client_with(
    request: RequestView,
    letter: char,
    given: Seq<char>,
) -> RequestView {
    match request {
        RequestOf::ChooseClient {
            target,
            filter,
            format,
            kill_on_exit,
        } => RequestOf::ChooseClient {
            target: if letter == 't' {
                Some(given)
            } else {
                target
            },
            filter: if letter == 'f' {
                Some(given)
            } else {
                filter
            },
            format: if letter == 'F' {
                Some(given)
            } else {
                format
            },
            kill_on_exit: kill_on_exit || letter == 'k',
        },
        other => other,
    }
}

/// Each option of `choose-client` changes what it is there for, and nothing else.
pub proof fn law_choose_client_options(before: Seq<Seq<char>>, letter: char, given: Seq<char>)
    requires
        ran_through(options::scanned(before, choose_client_grammar()), choose_client_grammar()),
    ensures
        chooser::choose_client_invocation(seq![]) == Ok::<InvocationView, Seq<char>>(
            InvocationView {
                request: RequestOf::ChooseClient {
                    target: None,
                    filter: None,
                    format: None,
                    kill_on_exit: false,
                },
                attach: false,
                source: None,
            },
        ),
        chooser::choose_client_invocation(before) matches Ok(bare)
            ==> (letter == 'k' || letter == 'N' || letter == 'Z' || letter == 'G')
            ==> chooser::choose_client_invocation(before + switch(letter)) == Ok::<
            InvocationView,
            Seq<char>,
        >(InvocationView { request: choose_client_with(bare.request, letter, given), ..bare }),
        chooser::choose_client_invocation(before) matches Ok(bare)
            ==> (letter == 't' || letter == 'f' || letter == 'F')
            ==> chooser::choose_client_invocation(before + valued(letter, given)) == Ok::<
            InvocationView,
            Seq<char>,
        >(InvocationView { request: choose_client_with(bare.request, letter, given), ..bare }),
{
    let grammar = choose_client_grammar();
    reveal_strlit("kNZG");
    reveal_strlit("tfF");
    reveal_strlit("t");
    reveal_strlit("f");
    reveal_strlit("F");
    reveal_strlit("");
    if letter == 'k' {
        assert("kNZG"@[0] == 'k');
        lemma_switch(before, letter, grammar);
    }
    if letter == 'N' {
        assert("kNZG"@[1] == 'N');
        lemma_switch(before, letter, grammar);
    }
    if letter == 'Z' {
        assert("kNZG"@[2] == 'Z');
        lemma_switch(before, letter, grammar);
    }
    if letter == 'G' {
        assert("kNZG"@[3] == 'G');
        lemma_switch(before, letter, grammar);
    }
    if letter == 't' {
        assert("tfF"@[0] == 't');
        assert("t"@[0] == 't');
        lemma_value(before, letter, given, grammar);
    }
    if letter == 'f' {
        assert("tfF"@[1] == 'f');
        assert("f"@[0] == 'f');
        lemma_value(before, letter, given, grammar);
    }
    if letter == 'F' {
        assert("tfF"@[2] == 'F');
        assert("F"@[0] == 'F');
        lemma_value(before, letter, given, grammar);
    }
}

/// The options that `set-buffer` has.
pub open spec fn set_buffer_grammar() -> Grammar {
    Grammar {
        separator: true,
        separator_value: true,
        ..options::options("a", "bn", Operands::Each, "unknown set-buffer option: ")
    }
}

/// What one more option, or operand, of `set-buffer` changes.
pub open spec fn set_buffer_with(
    request: RequestView,
    letter: char,
    given: Seq<char>,
) -> RequestView {
    match request {
        RequestOf::SetBuffer { name, append, data, rename } => RequestOf::SetBuffer {
            name: if letter == 'b' {
                Some(given)
            } else {
                name
            },
            append: append || letter == 'a',
            data,
            rename: if letter == 'n' {
                Some(given)
            } else {
                rename
            },
        },
        other => other,
    }
}

/// Each option of `set-buffer` changes what it is there for, and nothing else.
pub proof fn law_set_buffer_options(before: Seq<Seq<char>>, letter: char, given: Seq<char>)
    requires
        ran_through(options::scanned(before, set_buffer_grammar()), set_buffer_grammar()),
        given != "--"@,
    ensures
        buffer::set_buffer_invocation(before) matches Ok(bare) ==> (letter == 'a')
            ==> buffer::set_buffer_invocation(before + switch(letter)) == Ok::<
            InvocationView,
            Seq<char>,
        >(InvocationView { request: set_buffer_with(bare.request, letter, given), ..bare }),
        buffer::set_buffer_invocation(before) matches Ok(bare) ==> (letter == 'b' || letter == 'n')
            ==> buffer::set_buffer_invocation(before + valued(letter, given)) == Ok::<
            InvocationView,
            Seq<char>,
        >(InvocationView { request: set_buffer_with(bare.request, letter, given), ..bare }),
{
    let grammar = set_buffer_grammar();
    reveal_strlit("a");
    reveal_strlit("bn");
    reveal_strlit("b");
    reveal_strlit("n");
    reveal_strlit("");
    if letter == 'a' {
        assert("a"@[0] == 'a');
        lemma_switch(before, letter, grammar);
    }
    if letter == 'b' {
        assert("bn"@[0] == 'b');
        assert("b"@[0] == 'b');
        lemma_value(before, letter, given, grammar);
    }
    if letter == 'n' {
        assert("bn"@[1] == 'n');
        assert("n"@[0] == 'n');
        lemma_value(before, letter, given, grammar);
    }
}

/// The options that `list-buffers` has.
pub open spec fn list_buffers_grammar() -> Grammar {
    options::options("q", "Ff", Operands::Refused, "unknown list-buffers option: ")
}

/// What one more option, or operand, of `list-buffers` changes.
pub open spec fn list_buffers_with(
    request: RequestView,
    letter: char,
    given: Seq<char>,
) -> RequestView {
    match request {
        RequestOf::ListBuffers { format, filter } => RequestOf::ListBuffers {
            format: if letter == 'F' {
                Some(given)
            } else {
                format
            },
            filter: if letter == 'f' {
                Some(given)
            } else {
                filter
            },
        },
        other => other,
    }
}

/// Each option of `list-buffers` changes what it is there for, and nothing else.
pub proof fn law_list_buffers_options(before: Seq<Seq<char>>, letter: char, given: Seq<char>)
    requires
        ran_through(options::scanned(before, list_buffers_grammar()), list_buffers_grammar()),
    ensures
        buffer::list_buffers_invocation(seq![]) == Ok::<InvocationView, Seq<char>>(
            InvocationView {
                request: RequestOf::ListBuffers { format: None, filter: None },
                attach: false,
                source: None,
            },
        ),
        buffer::list_buffers_invocation(before) matches Ok(bare) ==> (letter == 'q')
            ==> buffer::list_buffers_invocation(before + switch(letter)) == Ok::<
            InvocationView,
            Seq<char>,
        >(InvocationView { request: list_buffers_with(bare.request, letter, given), ..bare }),
        buffer::list_buffers_invocation(before) matches Ok(bare)
            ==> (letter == 'F' || letter == 'f')
            ==> buffer::list_buffers_invocation(before + valued(letter, given)) == Ok::<
            InvocationView,
            Seq<char>,
        >(InvocationView { request: list_buffers_with(bare.request, letter, given), ..bare }),
{
    let grammar = list_buffers_grammar();
    reveal_strlit("q");
    reveal_strlit("Ff");
    reveal_strlit("F");
    reveal_strlit("f");
    reveal_strlit("");
    if letter == 'q' {
        assert("q"@[0] == 'q');
        lemma_switch(before, letter, grammar);
    }
    if letter == 'F' {
        assert("Ff"@[0] == 'F');
        assert("F"@[0] == 'F');
        lemma_value(before, letter, given, grammar);
    }
    if letter == 'f' {
        assert("Ff"@[1] == 'f');
        assert("f"@[0] == 'f');
        lemma_value(before, letter, given, grammar);
    }
}

/// The options that `delete-buffer` has.
pub open spec fn delete_buffer_grammar() -> Grammar {
    options::options("", "b", Operands::Refused, "unknown delete-buffer option: ")
}

/// What one more option, or operand, of `delete-buffer` changes.
pub open spec fn delete_buffer_with(
    request: RequestView,
    letter: char,
    given: Seq<char>,
) -> RequestView {
    match request {
        RequestOf::DeleteBuffer { name } => RequestOf::DeleteBuffer {
            name: if letter == 'b' {
                Some(given)
            } else {
                name
            },
        },
        other => other,
    }
}

/// Each option of `delete-buffer` changes what it is there for, and nothing else.
pub proof fn law_delete_buffer_options(before: Seq<Seq<char>>, letter: char, given: Seq<char>)
    requires
        ran_through(options::scanned(before, delete_buffer_grammar()), delete_buffer_grammar()),
    ensures
        buffer::delete_buffer_invocation(seq![]) == Ok::<InvocationView, Seq<char>>(
            InvocationView {
                request: RequestOf::DeleteBuffer { name: None },
                attach: false,
                source: None,
            },
        ),
        buffer::delete_buffer_invocation(before) matches Ok(bare) ==> (letter == 'b')
            ==> buffer::delete_buffer_invocation(before + valued(letter, given)) == Ok::<
            InvocationView,
            Seq<char>,
        >(InvocationView { request: delete_buffer_with(bare.request, letter, given), ..bare }),
{
    let grammar = delete_buffer_grammar();
    reveal_strlit("");
    reveal_strlit("b");
    if letter == 'b' {
        assert("b"@[0] == 'b');
        lemma_value(before, letter, given, grammar);
    }
}

/// The options that `paste-buffer` has.
pub open spec fn paste_buffer_grammar() -> Grammar {
    options::options("rpd", "tbs", Operands::Refused, "unknown paste-buffer option: ")
}

/// What one more option, or operand, of `paste-buffer` changes.
pub open spec fn paste_buffer_with(
    request: RequestView,
    letter: char,
    given: Seq<char>,
) -> RequestView {
    match request {
        RequestOf::PasteBuffer {
            target,
            name,
            raw,
            bracketed,
            separator,
            delete,
        } => RequestOf::PasteBuffer {
            target: if letter == 't' {
                Some(given)
            } else {
                target
            },
            name: if letter == 'b' {
                Some(given)
            } else {
                name
            },
            raw: raw || letter == 'r',
            bracketed: bracketed || letter == 'p',
            separator: if letter == 's' {
                Some(encode_utf8(given))
            } else {
                separator
            },
            delete: delete || letter == 'd',
        },
        other => other,
    }
}

/// Each option of `paste-buffer` changes what it is there for, and nothing else.
pub proof fn law_paste_buffer_options(before: Seq<Seq<char>>, letter: char, given: Seq<char>)
    requires
        ran_through(options::scanned(before, paste_buffer_grammar()), paste_buffer_grammar()),
    ensures
        buffer::paste_buffer_invocation(seq![]) == Ok::<InvocationView, Seq<char>>(
            InvocationView {
                request: RequestOf::PasteBuffer {
                    target: None,
                    name: None,
                    raw: false,
                    bracketed: false,
                    separator: None,
                    delete: false,
                },
                attach: false,
                source: None,
            },
        ),
        buffer::paste_buffer_invocation(before) matches Ok(bare)
            ==> (letter == 'r' || letter == 'p' || letter == 'd')
            ==> buffer::paste_buffer_invocation(before + switch(letter)) == Ok::<
            InvocationView,
            Seq<char>,
        >(InvocationView { request: paste_buffer_with(bare.request, letter, given), ..bare }),
        buffer::paste_buffer_invocation(before) matches Ok(bare)
            ==> (letter == 't' || letter == 'b' || letter == 's')
            ==> buffer::paste_buffer_invocation(before + valued(letter, given)) == Ok::<
            InvocationView,
            Seq<char>,
        >(InvocationView { request: paste_buffer_with(bare.request, letter, given), ..bare }),
{
    let grammar = paste_buffer_grammar();
    reveal_strlit("rpd");
    reveal_strlit("tbs");
    reveal_strlit("t");
    reveal_strlit("b");
    reveal_strlit("s");
    reveal_strlit("");
    if letter == 'r' {
        assert("rpd"@[0] == 'r');
        lemma_switch(before, letter, grammar);
    }
    if letter == 'p' {
        assert("rpd"@[1] == 'p');
        lemma_switch(before, letter, grammar);
    }
    if letter == 'd' {
        assert("rpd"@[2] == 'd');
        lemma_switch(before, letter, grammar);
    }
    if letter == 't' {
        assert("tbs"@[0] == 't');
        assert("t"@[0] == 't');
        lemma_value(before, letter, given, grammar);
    }
    if letter == 'b' {
        assert("tbs"@[1] == 'b');
        assert("b"@[0] == 'b');
        lemma_value(before, letter, given, grammar);
    }
    if letter == 's' {
        assert("tbs"@[2] == 's');
        assert("s"@[0] == 's');
        lemma_value(before, letter, given, grammar);
    }
}

/// The options that `save-buffer` has.
pub open spec fn save_buffer_grammar() -> Grammar {
    Grammar {
        dashes: Dashes::Alone,
        ..options::options("a", "b", Operands::Each, "unknown save-buffer option: ")
    }
}

/// What one more option, or operand, of `save-buffer` changes.
pub open spec fn save_buffer_with(
    request: RequestView,
    letter: char,
    given: Seq<char>,
) -> RequestView {
    match request {
        RequestOf::SaveBuffer { name, path, append } => RequestOf::SaveBuffer {
            name: if letter == 'b' {
                Some(given)
            } else {
                name
            },
            path: if letter == ' ' {
                Some(given)
            } else {
                path
            },
            append: append || letter == 'a',
        },
        other => other,
    }
}

/// Each option of `save-buffer` changes what it is there for, and nothing else.
pub proof fn law_save_buffer_options(before: Seq<Seq<char>>, letter: char, given: Seq<char>)
    requires
        ran_through(options::scanned(before, save_buffer_grammar()), save_buffer_grammar()),
    ensures
        buffer::save_buffer_invocation(seq![]) == Ok::<InvocationView, Seq<char>>(
            InvocationView {
                request: RequestOf::SaveBuffer { name: None, path: None, append: false },
                attach: false,
                source: None,
            },
        ),
        buffer::save_buffer_invocation(before) matches Ok(bare) ==> (letter == 'a')
            ==> buffer::save_buffer_invocation(before + switch(letter)) == Ok::<
            InvocationView,
            Seq<char>,
        >(InvocationView { request: save_buffer_with(bare.request, letter, given), ..bare }),
        buffer::save_buffer_invocation(before) matches Ok(bare) ==> (letter == 'b')
            ==> buffer::save_buffer_invocation(before + valued(letter, given)) == Ok::<
            InvocationView,
            Seq<char>,
        >(InvocationView { request: save_buffer_with(bare.request, letter, given), ..bare }),
        buffer::save_buffer_invocation(before) matches Ok(bare)
            ==> letter == options::OPERAND && !options::starts_with_dash(given)
            ==> buffer::save_buffer_invocation(before + seq![given]) == Ok::<
            InvocationView,
            Seq<char>,
        >(InvocationView { request: save_buffer_with(bare.request, letter, given), ..bare }),
{
    let grammar = save_buffer_grammar();
    reveal_strlit("a");
    reveal_strlit("b");
    reveal_strlit(" ");
    reveal_strlit("");
    if letter == 'a' {
        assert("a"@[0] == 'a');
        lemma_switch(before, letter, grammar);
    }
    if letter == 'b' {
        assert("b"@[0] == 'b');
        lemma_value(before, letter, given, grammar);
    }
    if letter == options::OPERAND && !options::starts_with_dash(given) {
        assert(" "@[0] == ' ');
        lemma_operand(before, given, grammar);
    }
}

/// The options that `list-clients` has.
pub open spec fn list_clients_grammar() -> Grammar {
    options::options("", "Ff", Operands::Refused, "unknown list-clients option: ")
}

/// What one more option, or operand, of `list-clients` changes.
pub open spec fn list_clients_with(
    request: RequestView,
    letter: char,
    given: Seq<char>,
) -> RequestView {
    match request {
        RequestOf::ListClients { format } => RequestOf::ListClients {
            format: if letter == 'F' {
                Some(given)
            } else {
                format
            },
        },
        other => other,
    }
}

/// Each option of `list-clients` changes what it is there for, and nothing else.
pub proof fn law_list_clients_options(before: Seq<Seq<char>>, letter: char, given: Seq<char>)
    requires
        ran_through(options::scanned(before, list_clients_grammar()), list_clients_grammar()),
    ensures
        client::list_clients_invocation(seq![]) == Ok::<InvocationView, Seq<char>>(
            InvocationView {
                request: RequestOf::ListClients { format: None },
                attach: false,
                source: None,
            },
        ),
        client::list_clients_invocation(before) matches Ok(bare)
            ==> (letter == 'F' || letter == 'f')
            ==> client::list_clients_invocation(before + valued(letter, given)) == Ok::<
            InvocationView,
            Seq<char>,
        >(InvocationView { request: list_clients_with(bare.request, letter, given), ..bare }),
{
    let grammar = list_clients_grammar();
    reveal_strlit("");
    reveal_strlit("Ff");
    reveal_strlit("F");
    if letter == 'F' {
        assert("Ff"@[0] == 'F');
        assert("F"@[0] == 'F');
        lemma_value(before, letter, given, grammar);
    }
    if letter == 'f' {
        assert("Ff"@[1] == 'f');
        lemma_value(before, letter, given, grammar);
    }
}

/// The options that `detach-client` has.
pub open spec fn detach_client_grammar() -> Grammar {
    options::options("a", "t", Operands::Each, "unknown detach-client option: ")
}

/// What one more option, or operand, of `detach-client` changes.
pub open spec fn detach_client_with(
    request: RequestView,
    letter: char,
    given: Seq<char>,
) -> RequestView {
    match request {
        RequestOf::DetachClient { target, all } => RequestOf::DetachClient {
            target: if letter == 't' || letter == ' ' {
                Some(given)
            } else {
                target
            },
            all: all || letter == 'a',
        },
        other => other,
    }
}

/// Each option of `detach-client` changes what it is there for, and nothing else.
pub proof fn law_detach_client_options(before: Seq<Seq<char>>, letter: char, given: Seq<char>)
    requires
        ran_through(options::scanned(before, detach_client_grammar()), detach_client_grammar()),
    ensures
        client::detach_client_invocation(seq![]) == Ok::<InvocationView, Seq<char>>(
            InvocationView {
                request: RequestOf::DetachClient { target: None, all: false },
                attach: false,
                source: None,
            },
        ),
        client::detach_client_invocation(before) matches Ok(bare) ==> (letter == 'a')
            ==> client::detach_client_invocation(before + switch(letter)) == Ok::<
            InvocationView,
            Seq<char>,
        >(InvocationView { request: detach_client_with(bare.request, letter, given), ..bare }),
        client::detach_client_invocation(before) matches Ok(bare) ==> (letter == 't')
            ==> client::detach_client_invocation(before + valued(letter, given)) == Ok::<
            InvocationView,
            Seq<char>,
        >(InvocationView { request: detach_client_with(bare.request, letter, given), ..bare }),
        client::detach_client_invocation(before) matches Ok(bare)
            ==> letter == options::OPERAND && !options::starts_with_dash(given)
            ==> client::detach_client_invocation(before + seq![given]) == Ok::<
            InvocationView,
            Seq<char>,
        >(InvocationView { request: detach_client_with(bare.request, letter, given), ..bare }),
{
    let grammar = detach_client_grammar();
    reveal_strlit("a");
    reveal_strlit("t");
    reveal_strlit("t ");
    reveal_strlit("");
    if letter == 'a' {
        assert("a"@[0] == 'a');
        lemma_switch(before, letter, grammar);
    }
    if letter == 't' {
        assert("t"@[0] == 't');
        assert("t "@[0] == 't');
        lemma_value(before, letter, given, grammar);
    }
    if letter == options::OPERAND && !options::starts_with_dash(given) {
        assert("t "@[1] == ' ');
        lemma_operand(before, given, grammar);
    }
}

/// The options that `refresh-client` has.
pub open spec fn refresh_client_grammar() -> Grammar {
    options::options("Slr", "t", Operands::Each, "unknown refresh-client option: ")
}

/// What one more option, or operand, of `refresh-client` changes.
pub open spec fn refresh_client_with(
    request: RequestView,
    letter: char,
    given: Seq<char>,
) -> RequestView {
    match request {
        RequestOf::RefreshClient { target } => RequestOf::RefreshClient {
            target: if letter == 't' || letter == ' ' {
                Some(given)
            } else {
                target
            },
        },
        other => other,
    }
}

/// Each option of `refresh-client` changes what it is there for, and nothing else.
pub proof fn law_refresh_client_options(before: Seq<Seq<char>>, letter: char, given: Seq<char>)
    requires
        ran_through(options::scanned(before, refresh_client_grammar()), refresh_client_grammar()),
    ensures
        client::refresh_client_invocation(seq![]) == Ok::<InvocationView, Seq<char>>(
            InvocationView {
                request: RequestOf::RefreshClient { target: None },
                attach: false,
                source: None,
            },
        ),
        client::refresh_client_invocation(before) matches Ok(bare)
            ==> (letter == 'S' || letter == 'l' || letter == 'r')
            ==> client::refresh_client_invocation(before + switch(letter)) == Ok::<
            InvocationView,
            Seq<char>,
        >(InvocationView { request: refresh_client_with(bare.request, letter, given), ..bare }),
        client::refresh_client_invocation(before) matches Ok(bare) ==> (letter == 't')
            ==> client::refresh_client_invocation(before + valued(letter, given)) == Ok::<
            InvocationView,
            Seq<char>,
        >(InvocationView { request: refresh_client_with(bare.request, letter, given), ..bare }),
        client::refresh_client_invocation(before) matches Ok(bare)
            ==> letter == options::OPERAND && !options::starts_with_dash(given)
            ==> client::refresh_client_invocation(before + seq![given]) == Ok::<
            InvocationView,
            Seq<char>,
        >(InvocationView { request: refresh_client_with(bare.request, letter, given), ..bare }),
{
    let grammar = refresh_client_grammar();
    reveal_strlit("Slr");
    reveal_strlit("t");
    reveal_strlit("t ");
    reveal_strlit("");
    if letter == 'S' {
        assert("Slr"@[0] == 'S');
        lemma_switch(before, letter, grammar);
    }
    if letter == 'l' {
        assert("Slr"@[1] == 'l');
        lemma_switch(before, letter, grammar);
    }
    if letter == 'r' {
        assert("Slr"@[2] == 'r');
        lemma_switch(before, letter, grammar);
    }
    if letter == 't' {
        assert("t"@[0] == 't');
        assert("t "@[0] == 't');
        lemma_value(before, letter, given, grammar);
    }
    if letter == options::OPERAND && !options::starts_with_dash(given) {
        assert("t "@[1] == ' ');
        lemma_operand(before, given, grammar);
    }
}

/// The options that `switch-client` has.
pub open spec fn switch_client_grammar() -> Grammar {
    Grammar {
        separator: true,
        ..options::options("", "ct", Operands::Each, "unknown switch-client option: ")
    }
}

/// What one more option, or operand, of `switch-client` changes.
pub open spec fn switch_client_with(
    request: RequestView,
    letter: char,
    given: Seq<char>,
) -> RequestView {
    match request {
        RequestOf::SwitchClient { client, session } => RequestOf::SwitchClient {
            client: if letter == 'c' {
                Some(given)
            } else {
                client
            },
            session: if letter == 't' || letter == ' ' {
                given
            } else {
                session
            },
        },
        other => other,
    }
}

/// Each option of `switch-client` changes what it is there for, and nothing else.
pub proof fn law_switch_client_options(before: Seq<Seq<char>>, letter: char, given: Seq<char>)
    requires
        ran_through(options::scanned(before, switch_client_grammar()), switch_client_grammar()),
    ensures
        client::switch_client_invocation(before) matches Ok(bare)
            ==> (letter == 'c' || letter == 't')
            ==> client::switch_client_invocation(before + valued(letter, given)) == Ok::<
            InvocationView,
            Seq<char>,
        >(InvocationView { request: switch_client_with(bare.request, letter, given), ..bare }),
        client::switch_client_invocation(before) matches Ok(bare)
            ==> letter == options::OPERAND && !options::starts_with_dash(given)
            ==> client::switch_client_invocation(before + seq![given]) == Ok::<
            InvocationView,
            Seq<char>,
        >(InvocationView { request: switch_client_with(bare.request, letter, given), ..bare }),
{
    let grammar = switch_client_grammar();
    reveal_strlit("");
    reveal_strlit("ct");
    reveal_strlit("t ");
    reveal_strlit("c");
    if letter == 'c' {
        assert("ct"@[0] == 'c');
        assert("c"@[0] == 'c');
        lemma_value(before, letter, given, grammar);
    }
    if letter == 't' {
        assert("ct"@[1] == 't');
        assert("t "@[0] == 't');
        lemma_value(before, letter, given, grammar);
    }
    if letter == options::OPERAND && !options::starts_with_dash(given) {
        assert("t "@[1] == ' ');
        lemma_operand(before, given, grammar);
    }
}

/// The options that `show-options` and `show-window-options` has.
pub open spec fn show_options_grammar() -> Grammar {
    Grammar {
        cluster: "gwpvAq",
        cluster_head: "-",
        separator: true,
        ..options::options("gwpsvAq", "t", Operands::Each, "unknown show-options option: ")
    }
}

/// What one more option, or operand, of `show-options` and `show-window-options` changes.
pub open spec fn show_options_with(
    request: RequestView,
    letter: char,
    given: Seq<char>,
) -> RequestView {
    match request {
        RequestOf::ShowOptions {
            target,
            global,
            window,
            pane,
            value,
            all,
            quiet,
            key,
        } => RequestOf::ShowOptions {
            target: if letter == 't' {
                Some(given)
            } else {
                target
            },
            global: global || letter == 'g',
            window: window || letter == 'w',
            pane: pane || letter == 'p',
            value: value || letter == 'v',
            all: all || letter == 'A',
            quiet: quiet || letter == 'q',
            key: if letter == ' ' {
                Some(given)
            } else {
                key
            },
        },
        other => other,
    }
}

/// Each option of `show-options` and `show-window-options` changes what it is
/// there for, and nothing else.
#[verifier::rlimit(60)]
pub proof fn law_show_options_options(
    before: Seq<Seq<char>>,
    letter: char,
    given: Seq<char>,
    window: bool,
)
    requires
        ran_through(options::scanned(before, show_options_grammar()), show_options_grammar()),
    ensures
        setting::show_options_invocation(seq![], window) == Ok::<InvocationView, Seq<char>>(
            InvocationView {
                request: RequestOf::ShowOptions {
                    target: None,
                    global: false,
                    window,
                    pane: false,
                    value: false,
                    all: false,
                    quiet: false,
                    key: None,
                },
                attach: false,
                source: None,
            },
        ),
        setting::show_options_invocation(before, window) matches Ok(bare)
            ==> (letter == 'g' || letter == 'w' || letter == 'p' || letter == 'v'
            || letter == 'A' || letter == 'q' || letter == 's')
            ==> setting::show_options_invocation(before + switch(letter), window) == Ok::<
            InvocationView,
            Seq<char>,
        >(InvocationView { request: show_options_with(bare.request, letter, given), ..bare }),
        setting::show_options_invocation(before, window) matches Ok(bare) ==> (letter == 't')
            ==> setting::show_options_invocation(before + valued(letter, given), window) == Ok::<
            InvocationView,
            Seq<char>,
        >(InvocationView { request: show_options_with(bare.request, letter, given), ..bare }),
        setting::show_options_invocation(before, window) matches Ok(bare)
            ==> letter == options::OPERAND && !options::starts_with_dash(given)
            ==> setting::show_options_invocation(before + seq![given], window) == Ok::<
            InvocationView,
            Seq<char>,
        >(InvocationView { request: show_options_with(bare.request, letter, given), ..bare }),
{
    let grammar = show_options_grammar();
    reveal_strlit("gwpsvAq");
    reveal_strlit("t");
    reveal_strlit("gwpvAq");
    reveal_strlit("-");
    reveal_strlit(" ");
    reveal_strlit("");
    if letter == 'g' {
        assert("gwpsvAq"@[0] == 'g');
        assert("gwpvAq"@[0] == 'g');
        lemma_switch(before, letter, grammar);
    }
    if letter == 'w' {
        assert("gwpsvAq"@[1] == 'w');
        assert("gwpvAq"@[1] == 'w');
        lemma_switch(before, letter, grammar);
    }
    if letter == 'p' {
        assert("gwpsvAq"@[2] == 'p');
        assert("gwpvAq"@[2] == 'p');
        lemma_switch(before, letter, grammar);
    }
    if letter == 'v' {
        assert("gwpsvAq"@[4] == 'v');
        assert("gwpvAq"@[3] == 'v');
        lemma_switch(before, letter, grammar);
    }
    if letter == 'A' {
        assert("gwpsvAq"@[5] == 'A');
        assert("gwpvAq"@[4] == 'A');
        lemma_switch(before, letter, grammar);
    }
    if letter == 'q' {
        assert("gwpsvAq"@[6] == 'q');
        assert("gwpvAq"@[5] == 'q');
        lemma_switch(before, letter, grammar);
    }
    if letter == 's' {
        assert("gwpsvAq"@[3] == 's');
        lemma_switch(before, letter, grammar);
    }
    if letter == 't' {
        assert("t"@[0] == 't');
        lemma_value(before, letter, given, grammar);
    }
    if letter == options::OPERAND && !options::starts_with_dash(given) {
        assert(" "@[0] == ' ');
        lemma_operand(before, given, grammar);
    }
}

/// The options that `show-environment` has.
pub open spec fn show_environment_grammar() -> Grammar {
    Grammar {
        separator: true,
        ..options::options("gs", "Ft", Operands::Each, "unknown show-environment option: ")
    }
}

/// What one more option, or operand, of `show-environment` changes.
pub open spec fn show_environment_with(
    request: RequestView,
    letter: char,
    given: Seq<char>,
) -> RequestView {
    match request {
        RequestOf::ShowEnvironment { format, name } => RequestOf::ShowEnvironment {
            format: if letter == 'F' {
                Some(given)
            } else {
                format
            },
            name: if letter == ' ' {
                Some(given)
            } else {
                name
            },
        },
        other => other,
    }
}

/// Each option of `show-environment` changes what it is there for, and nothing else.
pub proof fn law_show_environment_options(before: Seq<Seq<char>>, letter: char, given: Seq<char>)
    requires
        ran_through(options::scanned(before, show_environment_grammar()), show_environment_grammar()),
    ensures
        setting::show_environment_invocation(seq![]) == Ok::<InvocationView, Seq<char>>(
            InvocationView {
                request: RequestOf::ShowEnvironment { format: None, name: None },
                attach: false,
                source: None,
            },
        ),
        setting::show_environment_invocation(before) matches Ok(bare)
            ==> (letter == 'g' || letter == 's')
            ==> setting::show_environment_invocation(before + switch(letter)) == Ok::<
            InvocationView,
            Seq<char>,
        >(InvocationView { request: show_environment_with(bare.request, letter, given), ..bare }),
        setting::show_environment_invocation(before) matches Ok(bare)
            ==> (letter == 'F' || letter == 't')
            ==> setting::show_environment_invocation(before + valued(letter, given)) == Ok::<
            InvocationView,
            Seq<char>,
        >(InvocationView { request: show_environment_with(bare.request, letter, given), ..bare }),
        setting::show_environment_invocation(before) matches Ok(bare)
            ==> letter == options::OPERAND && !options::starts_with_dash(given)
            ==> setting::show_environment_invocation(before + seq![given]) == Ok::<
            InvocationView,
            Seq<char>,
        >(InvocationView { request: show_environment_with(bare.request, letter, given), ..bare }),
{
    let grammar = show_environment_grammar();
    reveal_strlit("gs");
    reveal_strlit("Ft");
    reveal_strlit("F");
    reveal_strlit(" ");
    reveal_strlit("");
    if letter == 'g' {
        assert("gs"@[0] == 'g');
        lemma_switch(before, letter, grammar);
    }
    if letter == 's' {
        assert("gs"@[1] == 's');
        lemma_switch(before, letter, grammar);
    }
    if letter == 'F' {
        assert("Ft"@[0] == 'F');
        assert("F"@[0] == 'F');
        lemma_value(before, letter, given, grammar);
    }
    if letter == 't' {
        assert("Ft"@[1] == 't');
        lemma_value(before, letter, given, grammar);
    }
    if letter == options::OPERAND && !options::starts_with_dash(given) {
        assert(" "@[0] == ' ');
        lemma_operand(before, given, grammar);
    }
}

/// The options that `display-message` has.
pub open spec fn display_message_grammar() -> Grammar {
    Grammar {
        separator: true,
        dashes: Dashes::Any,
        ..options::options("pv", "t", Operands::Each, "")
    }
}

/// What one more option, or operand, of `display-message` changes.
pub open spec fn display_message_with(
    request: RequestView,
    letter: char,
    given: Seq<char>,
) -> RequestView {
    match request {
        RequestOf::DisplayMessage { target, format } => RequestOf::DisplayMessage {
            target: if letter == 't' {
                Some(given)
            } else {
                target
            },
            format,
        },
        other => other,
    }
}

/// Each option of `display-message` changes what it is there for, and nothing else.
pub proof fn law_display_message_options(before: Seq<Seq<char>>, letter: char, given: Seq<char>)
    requires
        ran_through(options::scanned(before, display_message_grammar()), display_message_grammar()),
    ensures
        setting::display_message_invocation(before) matches Ok(bare)
            ==> (letter == 'p' || letter == 'v')
            ==> setting::display_message_invocation(before + switch(letter)) == Ok::<
            InvocationView,
            Seq<char>,
        >(InvocationView { request: display_message_with(bare.request, letter, given), ..bare }),
        setting::display_message_invocation(before) matches Ok(bare) ==> (letter == 't')
            ==> setting::display_message_invocation(before + valued(letter, given)) == Ok::<
            InvocationView,
            Seq<char>,
        >(InvocationView { request: display_message_with(bare.request, letter, given), ..bare }),
{
    let grammar = display_message_grammar();
    reveal_strlit("pv");
    reveal_strlit("t");
    reveal_strlit(" ");
    reveal_strlit("");
    if letter == 'p' {
        assert("pv"@[0] == 'p');
        lemma_switch(before, letter, grammar);
    }
    if letter == 'v' {
        assert("pv"@[1] == 'v');
        lemma_switch(before, letter, grammar);
    }
    if letter == 't' {
        assert("t"@[0] == 't');
        lemma_value(before, letter, given, grammar);
    }
}

/// The options that `set-option` has.
pub open spec fn set_option_grammar() -> Grammar {
    Grammar {
        cluster: "gswpuq",
        cluster_head: "-",
        separator: true,
        separator_value: true,
        ..options::options("gswpuq", "t", Operands::Each, "unknown set-option option: ")
    }
}

/// What one more option, or operand, of `set-option` changes.
pub open spec fn set_option_with(
    request: RequestView,
    letter: char,
    given: Seq<char>,
) -> RequestView {
    match request {
        RequestOf::SetOption { target, scope, key, value, unset } => RequestOf::SetOption {
            target: if letter == 't' {
                Some(given)
            } else {
                target
            },
            scope: if letter == 'g' {
                Some(OptionScope::Global)
            } else if letter == 's' {
                Some(OptionScope::Session)
            } else if letter == 'w' {
                Some(OptionScope::Window)
            } else if letter == 'p' {
                Some(OptionScope::Pane)
            } else {
                scope
            },
            key,
            value,
            unset: unset || letter == 'u',
        },
        other => other,
    }
}

/// Each option of `set-option` changes what it is there for, and nothing else.
pub proof fn law_set_option_options(before: Seq<Seq<char>>, letter: char, given: Seq<char>)
    requires
        ran_through(options::scanned(before, set_option_grammar()), set_option_grammar()),
        given != "--"@,
    ensures
        setting::set_option_invocation(before) matches Ok(bare)
            ==> (letter == 'g' || letter == 's' || letter == 'w' || letter == 'p'
            || letter == 'u' || letter == 'q')
            ==> setting::set_option_invocation(before + switch(letter)) == Ok::<
            InvocationView,
            Seq<char>,
        >(InvocationView { request: set_option_with(bare.request, letter, given), ..bare }),
        setting::set_option_invocation(before) matches Ok(bare) ==> (letter == 't')
            ==> setting::set_option_invocation(before + valued(letter, given)) == Ok::<
            InvocationView,
            Seq<char>,
        >(InvocationView { request: set_option_with(bare.request, letter, given), ..bare }),
{
    let grammar = set_option_grammar();
    reveal_strlit("gswpuq");
    reveal_strlit("t");
    reveal_strlit("-");
    reveal_strlit("gswp");
    reveal_strlit("");
    if letter == 'g' {
        assert("gswpuq"@[0] == 'g');
        assert("gswp"@[0] == 'g');
        lemma_switch(before, letter, grammar);
    }
    if letter == 's' {
        assert("gswpuq"@[1] == 's');
        assert("gswp"@[1] == 's');
        lemma_switch(before, letter, grammar);
    }
    if letter == 'w' {
        assert("gswpuq"@[2] == 'w');
        assert("gswp"@[2] == 'w');
        lemma_switch(before, letter, grammar);
    }
    if letter == 'p' {
        assert("gswpuq"@[3] == 'p');
        assert("gswp"@[3] == 'p');
        lemma_switch(before, letter, grammar);
    }
    if letter == 'u' {
        assert("gswpuq"@[4] == 'u');
        lemma_switch(before, letter, grammar);
    }
    if letter == 'q' {
        assert("gswpuq"@[5] == 'q');
        lemma_switch(before, letter, grammar);
    }
    if letter == 't' {
        assert("t"@[0] == 't');
        lemma_value(before, letter, given, grammar);
    }
}

/// The options that `set-environment` has.
pub open spec fn set_environment_grammar() -> Grammar {
    Grammar {
        separator: true,
        separator_value: true,
        ..options::options("gsru", "", Operands::Each, "unknown set-environment option: ")
    }
}

/// What one more option, or operand, of `set-environment` changes.
pub open spec fn set_environment_with(request: RequestView, letter: char) -> RequestView {
    match request {
        RequestOf::SetEnvironment { name, value, remove } => RequestOf::SetEnvironment {
            name,
            value,
            remove: remove || letter == 'r' || letter == 'u',
        },
        other => other,
    }
}

/// Each option of `set-environment` changes what it is there for, and nothing else.
pub proof fn law_set_environment_options(before: Seq<Seq<char>>, letter: char)
    requires
        ran_through(options::scanned(before, set_environment_grammar()), set_environment_grammar()),
    ensures
        setting::set_environment_invocation(before) matches Ok(bare)
            ==> (letter == 'r' || letter == 'u' || letter == 'g' || letter == 's')
            ==> setting::set_environment_invocation(before + switch(letter)) == Ok::<
            InvocationView,
            Seq<char>,
        >(InvocationView { request: set_environment_with(bare.request, letter), ..bare }),
{
    let grammar = set_environment_grammar();
    reveal_strlit("gsru");
    reveal_strlit("");
    if letter == 'r' {
        assert("gsru"@[2] == 'r');
        lemma_switch(before, letter, grammar);
    }
    if letter == 'u' {
        assert("gsru"@[3] == 'u');
        lemma_switch(before, letter, grammar);
    }
    if letter == 'g' {
        assert("gsru"@[0] == 'g');
        lemma_switch(before, letter, grammar);
    }
    if letter == 's' {
        assert("gsru"@[1] == 's');
        lemma_switch(before, letter, grammar);
    }
}

} // verus!
