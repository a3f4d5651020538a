//! Which of several errors is reported, and what is no error.

use vstd::prelude::*;

use crate::command::invocation::InvocationView;
use crate::command::items;
use crate::command::laws::{self, ran_through};
use crate::command::option_laws::{
    self, lemma_pushed, lemma_switch, switch, valued,
};
use crate::command::options::{self, Grammar, ItemView, Operands};
use crate::command::request_laws::plain;
use crate::command::{buffer, keys, pane, parse, session, window};
use crate::protocol::request::{RequestOf, RequestView};
use crate::text;

verus! {

/// What was read of arguments stays, whatever comes behind.
proof fn lemma_items_grow(
    arguments: Seq<Seq<char>>,
    grammar: Grammar,
    at: int,
    items: Seq<ItemView>,
)
    ensures
        ({
            let all = options::scanned_from(arguments, grammar, at, items).items;
            &&& all.len() >= items.len()
            &&& all.take(items.len() as int) == items
        }),
    decreases arguments.len() - at,
{
    let all = options::scanned_from(arguments, grammar, at, items).items;
    if at >= arguments.len() {
        assert(all.take(items.len() as int) =~= items);
    } else {
        match options::step(arguments, grammar, at, items) {
            options::Step::Stop { scan } => {
                assert(scan.items.len() >= items.len());
                assert(scan.items.take(items.len() as int) =~= items);
            },
            options::Step::Go { items: more, taken } => {
                assert(more.take(items.len() as int) =~= items);
                lemma_items_grow(
                    arguments,
                    grammar,
                    if taken {
                        at + 2
                    } else {
                        at + 1
                    },
                    more,
                );
                assert(all.take(more.len() as int).take(items.len() as int) =~= all.take(
                    items.len() as int,
                ));
            },
        }
    }
}

proof fn lemma_first_item(letter: char, value: Seq<char>, more: Seq<Seq<char>>, grammar: Grammar)
    requires
        grammar.values@.contains(letter),
        !grammar.switches@.contains(letter),
        grammar.gated@.len() == 0,
        letter != '-',
    ensures
        ({
            let items = options::scanned(valued(letter, value) + more, grammar).items;
            items.len() > 0 && items[0] == options::value_item(letter, value)
        }),
{
    let arguments = valued(letter, value) + more;
    let none = Seq::<ItemView>::empty();
    let first = none.push(options::value_item(letter, value));
    reveal_strlit("--");
    assert("--"@[1] == '-');
    assert(arguments[0] == seq!['-', letter] && arguments[1] == value);
    assert(seq!['-', letter][1] == letter);
    let all = options::scanned(arguments, grammar).items;
    if grammar.separator_value && value == "--"@ {
        assert(all == first);
    } else {
        assert(all == options::scanned_from(arguments, grammar, 2, first).items);
        lemma_items_grow(arguments, grammar, 2, first);
        assert(all.take(1)[0] == all[0]);
    }
}

proof fn lemma_first_problem(
    items: Seq<ItemView>,
    problem: spec_fn(ItemView) -> Option<Seq<char>>,
    position: int,
)
    requires
        0 <= position < items.len(),
        problem(items[position]) is Some,
        forall|i: int| 0 <= i < position ==> problem(#[trigger] items[i]) is None,
    ensures
        items::first_problem(items, problem) == problem(items[position]),
    decreases items.len(),
{
    let front = items.drop_last();
    if position < front.len() {
        lemma_first_problem(front, problem, position);
    } else {
        lemma_no_problem(front, problem);
    }
}

proof fn lemma_no_problem(items: Seq<ItemView>, problem: spec_fn(ItemView) -> Option<Seq<char>>)
    requires
        forall|i: int| 0 <= i < items.len() ==> problem(#[trigger] items[i]) is None,
    ensures
        items::first_problem(items, problem) is None,
    decreases items.len(),
{
    if items.len() > 0 {
        lemma_no_problem(items.drop_last(), problem);
    }
}

/// A value that is wrong is reported before anything that stands behind it, and the
/// first of several that are.
pub proof fn law_first_error_is_reported(
    scan: options::ScanView,
    problem: spec_fn(ItemView) -> Option<Seq<char>>,
    position: int,
)
    requires
        0 <= position <= scan.items.len(),
        forall|i: int| 0 <= i < position ==> problem(#[trigger] scan.items[i]) is None,
    ensures
        position < scan.items.len() && problem(scan.items[position]) is Some ==> items::refusal(
            scan,
            problem,
        ) == problem(scan.items[position]),
        position == scan.items.len() ==> items::refusal(scan, problem) == scan.error,
{
    if position < scan.items.len() && problem(scan.items[position]) is Some {
        lemma_first_problem(scan.items, problem, position);
    }
    if position == scan.items.len() {
        lemma_no_problem(scan.items, problem);
    }
}

/// A size that is none is refused whatever stands behind it, and so is a line.
pub proof fn law_wrong_values_are_refused_at_once(
    value: Seq<char>,
    more: Seq<Seq<char>>,
    cwd: Option<Seq<char>>,
)
    ensures
        session::dimension(value, "-x"@) matches Err(error) ==> session::attach_invocation(
            valued('x', value) + more,
        ) == Err::<InvocationView, Seq<char>>(error),
        session::dimension(value, "-y"@) matches Err(error) ==> session::attach_invocation(
            valued('y', value) + more,
        ) == Err::<InvocationView, Seq<char>>(error),
        session::dimension(value, "-x"@) matches Err(error) ==> session::new_session_invocation(
            valued('x', value) + more,
            cwd,
        ) == Err::<InvocationView, Seq<char>>(error),
        session::dimension(value, "-y"@) matches Err(error) ==> session::new_session_invocation(
            valued('y', value) + more,
            cwd,
        ) == Err::<InvocationView, Seq<char>>(error),
        pane::capture_offset(value) matches Err(error) ==> pane::capture_pane_invocation(
            valued('S', value) + more,
        ) == Err::<InvocationView, Seq<char>>(error),
        pane::capture_offset(value) matches Err(error) ==> pane::capture_pane_invocation(
            valued('E', value) + more,
        ) == Err::<InvocationView, Seq<char>>(error),
{
    let attach = option_laws::attach_grammar();
    let new = option_laws::new_session_grammar();
    let capture = option_laws::capture_pane_grammar();
    lemma_grammars();
    lemma_first_item('x', value, more, attach);
    lemma_first_item('y', value, more, attach);
    lemma_first_item('x', value, more, new);
    lemma_first_item('y', value, more, new);
    lemma_first_item('S', value, more, capture);
    lemma_first_item('E', value, more, capture);
    let wrong = |item: ItemView| session::dimension_problem(item);
    let unread = |item: ItemView| pane::capture_pane_problem(item);
    if session::dimension(value, "-x"@) is Err {
        lemma_first_problem(options::scanned(valued('x', value) + more, attach).items, wrong, 0);
        lemma_first_problem(options::scanned(valued('x', value) + more, new).items, wrong, 0);
    }
    if session::dimension(value, "-y"@) is Err {
        lemma_first_problem(options::scanned(valued('y', value) + more, attach).items, wrong, 0);
        lemma_first_problem(options::scanned(valued('y', value) + more, new).items, wrong, 0);
    }
    if pane::capture_offset(value) is Err {
        lemma_first_problem(options::scanned(valued('S', value) + more, capture).items, unread, 0);
        lemma_first_problem(options::scanned(valued('E', value) + more, capture).items, unread, 0);
    }
}

#[verifier::spinoff_prover]
proof fn lemma_grammars()
    ensures
        option_laws::attach_grammar().values@.contains('x'),
        option_laws::attach_grammar().values@.contains('y'),
        option_laws::attach_grammar().gated@.len() == 0,
        !option_laws::attach_grammar().switches@.contains('x'),
        !option_laws::attach_grammar().switches@.contains('y'),
        option_laws::new_session_grammar().values@.contains('x'),
        option_laws::new_session_grammar().values@.contains('y'),
        option_laws::new_session_grammar().gated@.len() == 0,
        !option_laws::new_session_grammar().switches@.contains('x'),
        !option_laws::new_session_grammar().switches@.contains('y'),
        option_laws::capture_pane_grammar().values@.contains('S'),
        option_laws::capture_pane_grammar().values@.contains('E'),
        option_laws::capture_pane_grammar().gated@.len() == 0,
        !option_laws::capture_pane_grammar().switches@.contains('S'),
        !option_laws::capture_pane_grammar().switches@.contains('E'),
{
    reveal_strlit("");
    reveal_strlit("txy");
    reveal_strlit("dAPE");
    reveal_strlit("tFsncxy");
    reveal_strlit("peJNH");
    reveal_strlit("tSE");
    assert("txy"@[1] == 'x' && "txy"@[2] == 'y');
    assert("tFsncxy"@[5] == 'x' && "tFsncxy"@[6] == 'y');
    assert("tSE"@[1] == 'S' && "tSE"@[2] == 'E');
}

/// Another window cannot be asked for behind a direction; before it, it is where to
/// start.
pub proof fn law_navigation_conflicts(before: Seq<Seq<char>>, letter: char)
    requires
        ran_through(options::scanned(before, select_window_grammar()), select_window_grammar()),
        letter == 'n' || letter == 'p',
    ensures
        window::select_window_invocation(before + switch(letter) + switch('l')) == Err::<
            InvocationView,
            Seq<char>,
        >("select-window accepts only one navigation option"@),
        window::select_window_invocation(switch('l') + switch('n')) == plain(
            RequestOf::NextWindow { target: Some("!"@) },
        ),
        window::select_window_invocation(switch('l') + switch('p')) == plain(
            RequestOf::PreviousWindow { target: Some("!"@) },
        ),
{
    let grammar = select_window_grammar();
    let none = Seq::<Seq<char>>::empty();
    reveal_strlit("");
    reveal_strlit("npl");
    reveal_strlit("t");
    reveal_strlit("np");
    reveal_strlit("tl ");
    assert("npl"@[0] == 'n' && "npl"@[1] == 'p' && "npl"@[2] == 'l');
    assert("np"@[0] == 'n' && "np"@[1] == 'p');
    assert("tl "@[1] == 'l');
    let first = before + switch(letter);
    lemma_switch(before, letter, grammar);
    lemma_switch(first, 'l', grammar);
    let items = options::scanned(first + switch('l'), grammar).items;
    let last = items.len() - 1;
    assert(items[last].flag == 'l');
    assert(items[last - 1].flag == letter);
    assert(window::conflicting_navigation(items));
    lemma_switch(none, 'l', grammar);
    assert(none + switch('l') =~= switch('l'));
    lemma_switch(switch('l'), 'n', grammar);
    lemma_switch(switch('l'), 'p', grammar);
}

/// The options of `select-window`.
pub open spec fn select_window_grammar() -> Grammar {
    options::options("npl", "t", Operands::Each, "unknown select-window option: ")
}

/// A buffer is loaded and saved through a file, or a dash; other text that starts
/// with a dash is an option, and refused where there is no such.
pub proof fn law_only_a_dash_is_a_file(value: Seq<char>)
    requires
        options::starts_with_dash(value),
        value.len() >= 2,
        value[1] != 'a' && value[1] != 'b',
    ensures
        buffer::load_buffer_invocation(seq![value]) == Err::<InvocationView, Seq<char>>(
            "unknown load-buffer option: "@ + value,
        ),
        buffer::save_buffer_invocation(seq![value]) == Err::<InvocationView, Seq<char>>(
            "unknown save-buffer option: "@ + value,
        ),
{
    reveal_strlit("");
    reveal_strlit("a");
    reveal_strlit("b");
    assert(""@.len() == 0);
    assert("a"@.len() == 1 && "a"@[0] == 'a' && "b"@.len() == 1 && "b"@[0] == 'b');
    assert(seq![value][0] == value);
    reveal_with_fuel(options::scanned_from, 2);
}

/// The data of a buffer goes into the request that loads it, and into no other.
pub proof fn law_data_is_loaded(
    request: RequestView,
    name: Option<Seq<char>>,
    before: Seq<u8>,
    data: Seq<u8>,
)
    ensures
        ({
            let loaded: RequestView = RequestOf::LoadBuffer { name, data };
            parse::with_data(RequestOf::LoadBuffer { name, data: before }, data) == loaded
        }),
        !(request is LoadBuffer) ==> parse::with_data(request, data) == request,
{
}

/// A delay can stand behind `-N` and `-Z` of `display-panes` too, and says nothing
/// there either.
pub proof fn law_joined_delays_are_ignored(before: Seq<Seq<char>>, delay: Seq<char>)
    requires
        ran_through(
            options::scanned(before, option_laws::display_panes_grammar()),
            option_laws::display_panes_grammar(),
        ),
        !options::starts_with_dash(delay),
    ensures
        pane::display_panes_invocation(before + seq![seq!['-', 'N', 'd'], delay])
            == pane::display_panes_invocation(before + switch('N')),
        pane::display_panes_invocation(before + seq![seq!['-', 'Z', 'd'], delay])
            == pane::display_panes_invocation(before + switch('Z')),
{
    let grammar = option_laws::display_panes_grammar();
    reveal_strlit("");
    reveal_strlit("ZkN");
    reveal_strlit("-d");
    reveal_strlit("-Nd");
    reveal_strlit("-Zd");
    assert("ZkN"@[0] == 'Z' && "ZkN"@[2] == 'N');
    assert("-Nd"@ =~= seq!['-', 'N', 'd']);
    assert("-Zd"@ =~= seq!['-', 'Z', 'd']);
    lemma_joined_delay(before, 'N', delay, grammar);
    lemma_joined_delay(before, 'Z', delay, grammar);
}

proof fn lemma_joined_delay(
    before: Seq<Seq<char>>,
    letter: char,
    delay: Seq<char>,
    grammar: Grammar,
)
    requires
        ran_through(options::scanned(before, grammar), grammar),
        grammar == option_laws::display_panes_grammar(),
        grammar.switches@.contains(letter),
        letter != '-',
        options::is_delay(grammar, seq!['-', letter, 'd']),
        !options::starts_with_dash(delay),
    ensures
        options::scanned(before + seq![seq!['-', letter, 'd'], delay], grammar)
            == options::scanned(before + switch(letter), grammar),
{
    let items = options::scanned(before, grammar).items;
    let value = seq!['-', letter, 'd'];
    let pair = seq![value, delay];
    let all = before + pair;
    let at = before.len() as int;
    lemma_switch(before, letter, grammar);
    laws::lemma_run_through(before, pair, grammar, 0, seq![]);
    assert(pair[0] == value && pair[1] == delay);
    assert(all[at] == value && all[at + 1] == delay);
    assert(value[1] == letter && value.len() == 3);
    reveal_strlit("--");
    assert("--"@.len() == 2);
    assert(options::step(all, grammar, at, items) == (options::Step::Go {
        items: items.push(options::switch_item(letter)),
        taken: true,
    }));
    lemma_pushed(items, options::switch_item(letter));
    reveal_with_fuel(options::scanned_from, 3);
    assert(options::scanned(before, grammar).tail =~= seq![]);
}

/// What is said of a value that is no number.
pub proof fn law_wrong_numbers_are_named(value: Seq<char>, flag: Seq<char>)
    ensures
        text::unsigned_number(value, 65535) is None || text::unsigned_number(value, 65535)
            == Some(0nat) ==> session::dimension(value, flag) == Err::<u16, Seq<char>>(
            flag + " requires a positive integer"@,
        ),
        text::signed_number(value) is None && value != "-"@ ==> pane::capture_offset(value)
            == Err::<i32, Seq<char>>("capture-pane offset requires an integer"@),
        text::unsigned_number(value, 65535) is None && !value.contains('%') ==> pane::resize_value(
            value,
        ) == Err::<(u16, bool), Seq<char>>("resize-pane size requires an integer"@),
        text::signed_number(value) is None ==> pane::resize_pane_problem(
            options::value_item(options::OPERAND, value),
        ) == Some("resize-pane count requires an integer"@),
        keys::repeat_count(value) is None ==> keys::send_keys_problem(
            options::value_item('N', value),
        ) == Some("-N requires a positive integer"@),
{
    if value.len() > 0 && value.last() == '%' {
        assert(value.contains(value.last()));
    }
}

/// A pane that is to be empty takes no command, and one with the empty text for its
/// command is to be empty; any other runs its command.
pub proof fn law_empty_panes_run_nothing(command: Seq<Seq<char>>, empty: bool)
    ensures
        session::pane_command(seq![seq![]], empty) == Ok::<(Seq<Seq<char>>, bool), Seq<char>>(
            (seq![], true),
        ),
        command.len() > 0 && command[0].len() > 0 ==> session::pane_command(command, true) == Err::<
            (Seq<Seq<char>>, bool),
            Seq<char>,
        >("command cannot be given for empty pane"@),
        command.len() >= 2 ==> session::pane_command(command, true) == Err::<
            (Seq<Seq<char>>, bool),
            Seq<char>,
        >("command cannot be given for empty pane"@),
        command.len() != 1 || command[0].len() > 0 ==> session::pane_command(command, false)
            == Ok::<(Seq<Seq<char>>, bool), Seq<char>>((command, false)),
        session::pane_command(seq![], true) == Ok::<(Seq<Seq<char>>, bool), Seq<char>>(
            (seq![], true),
        ),
{
}

/// A command that needs a target says so where there is none.
pub proof fn law_targets_are_required(arguments: Seq<Seq<char>>, target: Seq<char>)
    ensures
        session::target_in(arguments) == Ok::<Option<Seq<char>>, Seq<char>>(None)
            ==> session::target_required_in(arguments) == Err::<Seq<char>, Seq<char>>(
            "-t target is required"@,
        ),
        session::target_in(arguments) == Ok::<Option<Seq<char>>, Seq<char>>(Some(target))
            ==> session::target_required_in(arguments) == Ok::<Seq<char>, Seq<char>>(target),
        session::target_in(arguments) matches Err(error) ==> session::target_required_in(arguments)
            == Err::<Seq<char>, Seq<char>>(error),
{
}

} // verus!
