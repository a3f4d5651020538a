//! What holds of all command lines.

use vstd::prelude::*;

use crate::command::invocation::{self, InvocationView};
use crate::command::items;
use crate::command::keys;
use crate::command::options::{self, Grammar, ItemView, Operands, ScanView, Step};
use crate::command::session;
use crate::command::setting;
use crate::protocol::request::{RequestOf, RequestView};

verus! {

/// Whether all arguments were options with their values, or operands, and none
/// of the values was taken for a separator.
pub open spec fn ran_through(scan: ScanView, grammar: Grammar) -> bool {
    &&& scan.error is None
    &&& scan.tail.len() == 0
    &&& !scan.separated
    &&& grammar.separator_value ==> forall|i: int|
        0 <= i < scan.items.len() ==> (#[trigger] scan.items[i]).value != "--"@
}

/// What ends a scan without an error, a tail or a separator is a value that is
/// taken for a separator.
proof fn lemma_stop(
    arguments: Seq<Seq<char>>,
    grammar: Grammar,
    at: int,
    items: Seq<ItemView>,
    scan: ScanView,
)
    requires
        0 <= at < arguments.len(),
        options::step(arguments, grammar, at, items) == (Step::Stop { scan }),
        scan.error is None,
        scan.tail.len() == 0,
        !scan.separated,
    ensures
        grammar.separator_value,
        scan.items.len() > 0,
        scan.items.last().value == "--"@,
{
    assert(arguments.skip(at).len() == arguments.len() - at);
    let value = arguments[at];
    let item = options::value_item(value[1], arguments[at + 1]);
    assert(items.push(item).last() == item);
}

/// Whether arguments end with an option that has no value, but needs one.
pub open spec fn waits_for_value(arguments: Seq<Seq<char>>, scan: ScanView) -> bool {
    arguments.len() > 0 && scan.error == Some(arguments.last() + " requires an argument"@)
}

/// What an argument does is the same with more arguments behind those that are
/// there, unless it ends them.
proof fn lemma_step_with_more(
    before: Seq<Seq<char>>,
    more: Seq<Seq<char>>,
    grammar: Grammar,
    at: int,
    items: Seq<ItemView>,
)
    requires
        0 <= at < before.len(),
        more.len() > 0,
        grammar.delays ==> options::starts_with_dash(more[0]),
    ensures
        match options::step(before, grammar, at, items) {
            Step::Go { items: next, taken } => {
                &&& options::step(before + more, grammar, at, items)
                    == options::step(before, grammar, at, items)
                &&& taken ==> at + 2 <= before.len()
            },
            Step::Stop { scan } => {
                ||| scan.error is None
                ||| waits_for_value(before, scan)
                ||| options::step(before + more, grammar, at, items)
                    == options::step(before, grammar, at, items)
            },
        },
{
    let all = before + more;
    assert(all[at] == before[at]);
    if at + 1 < before.len() {
        assert(all[at + 1] == before[at + 1]);
    } else {
        assert(before.last() == before[at]);
        assert(all[at + 1] == more[0]);
    }
}

/// Arguments that were all scanned leave the scan where those behind them start.
pub proof fn lemma_run_through(
    before: Seq<Seq<char>>,
    more: Seq<Seq<char>>,
    grammar: Grammar,
    at: int,
    items: Seq<ItemView>,
)
    requires
        0 <= at <= before.len(),
        more.len() > 0,
        grammar.delays ==> options::starts_with_dash(more[0]),
        ran_through(options::scanned_from(before, grammar, at, items), grammar),
    ensures
        options::scanned_from(before + more, grammar, at, items) == options::scanned_from(
            before + more,
            grammar,
            before.len() as int,
            options::scanned_from(before, grammar, at, items).items,
        ),
    decreases before.len() - at,
{
    if at < before.len() {
        lemma_step_with_more(before, more, grammar, at, items);
        match options::step(before, grammar, at, items) {
            Step::Stop { scan } => {
                lemma_stop(before, grammar, at, items, scan);
                assert(scan.items[scan.items.len() - 1].value != "--"@);
            },
            Step::Go { items: next, taken } => {
                let step = if taken {
                    at + 2
                } else {
                    at + 1
                };
                lemma_run_through(before, more, grammar, step, next);
            },
        }
    }
}

/// Arguments that are refused are refused whatever stands behind them, but for a
/// value that is missing at their end.
proof fn lemma_refusal_stays(
    before: Seq<Seq<char>>,
    more: Seq<Seq<char>>,
    grammar: Grammar,
    at: int,
    items: Seq<ItemView>,
)
    requires
        0 <= at <= before.len(),
        more.len() > 0,
        grammar.delays ==> options::starts_with_dash(more[0]),
        options::scanned_from(before, grammar, at, items).error is Some,
        !waits_for_value(before, options::scanned_from(before, grammar, at, items)),
    ensures
        options::scanned_from(before + more, grammar, at, items) == options::scanned_from(
            before,
            grammar,
            at,
            items,
        ),
    decreases before.len() - at,
{
    if at < before.len() {
        lemma_step_with_more(before, more, grammar, at, items);
        match options::step(before, grammar, at, items) {
            Step::Stop { .. } => {},
            Step::Go { items: next, taken } => {
                let step = if taken {
                    at + 2
                } else {
                    at + 1
                };
                lemma_refusal_stays(before, more, grammar, step, next);
            },
        }
    }
}

/// Whatever stands behind `--` is taken as it is, also what looks like an option.
pub proof fn law_text_behind_the_separator_is_kept(
    before: Seq<Seq<char>>,
    rest: Seq<Seq<char>>,
    grammar: Grammar,
)
    requires
        grammar.separator,
        ran_through(options::scanned(before, grammar), grammar),
    ensures
        options::scanned(before + seq!["--"@] + rest, grammar) == (ScanView {
            items: options::scanned(before, grammar).items,
            tail: rest,
            separated: true,
            error: None,
        }),
{
    let more = seq!["--"@] + rest;
    let all = before + more;
    let length = before.len() as int;
    reveal_strlit("--");
    assert(more[0] == "--"@);
    lemma_run_through(before, more, grammar, 0, seq![]);
    assert(all =~= before + seq!["--"@] + rest);
    assert(all[length] == "--"@);
    assert(all.skip(length + 1) =~= rest);
}

proof fn lemma_same_rest(
    one: Seq<Seq<char>>,
    other: Seq<Seq<char>>,
    grammar: Grammar,
    at: int,
    other_at: int,
    items: Seq<ItemView>,
)
    requires
        0 <= at <= one.len(),
        0 <= other_at <= other.len(),
        one.skip(at) == other.skip(other_at),
    ensures
        options::scanned_from(one, grammar, at, items) == options::scanned_from(
            other,
            grammar,
            other_at,
            items,
        ),
    decreases one.len() - at,
{
    assert(one.skip(at).len() == one.len() - at);
    assert(other.skip(other_at).len() == other.len() - other_at);
    if at < one.len() {
        assert(one.skip(at)[0] == one[at]);
        assert(other.skip(other_at)[0] == other[other_at]);
        if at + 1 < one.len() {
            assert(one.skip(at)[1] == one[at + 1]);
            assert(other.skip(other_at)[1] == other[other_at + 1]);
            assert(one.skip(at + 2) =~= one.skip(at).skip(2));
            assert(other.skip(other_at + 2) =~= other.skip(other_at).skip(2));
        }
        assert(one.skip(at + 1) =~= one.skip(at).skip(1));
        assert(other.skip(other_at + 1) =~= other.skip(other_at).skip(1));
        assert(options::step(one, grammar, at, items) == options::step(
            other,
            grammar,
            other_at,
            items,
        ));
        match options::step(one, grammar, at, items) {
            Step::Stop { .. } => {},
            Step::Go { items: more, taken } => {
                if taken {
                    lemma_same_rest(one, other, grammar, at + 2, other_at + 2, more);
                } else {
                    lemma_same_rest(one, other, grammar, at + 1, other_at + 1, more);
                }
            },
        }
    }
}

/// An option whose value may stand in the same argument says the same either
/// way, behind any arguments that were all scanned.
pub proof fn law_attached_value_is_a_separate_one(
    before: Seq<Seq<char>>,
    rest: Seq<Seq<char>>,
    grammar: Grammar,
    flag: char,
    value: Seq<char>,
)
    requires
        ran_through(options::scanned(before, grammar), grammar),
        grammar.values@.contains(flag),
        grammar.attached@.contains(flag),
        !grammar.switches@.contains(flag),
        !grammar.gated@.contains(flag),
        value.len() > 0,
        grammar.separator ==> flag != '-',
        grammar.separator_value ==> value != "--"@,
        grammar.joined ==> flag != 'd' || value[0] != 's' || value.len() < 2,
        !options::is_delay(grammar, seq!['-', flag] + value),
    ensures
        options::scanned(before + (seq![seq!['-', flag] + value] + rest), grammar)
            == options::scanned(before + (seq![seq!['-', flag], value] + rest), grammar),
{
    let joint = seq!['-', flag] + value;
    let at = before.len() as int;
    let one = before + (seq![joint] + rest);
    let other = before + (seq![seq!['-', flag], value] + rest);
    let items = options::scanned(before, grammar).items;
    let more = items.push(options::value_item(flag, value));
    reveal_strlit("--");
    reveal_strlit("-ds");
    assert((seq![joint] + rest)[0] == joint);
    assert((seq![seq!['-', flag], value] + rest)[0] == seq!['-', flag]);
    assert(one[at] == joint);
    assert(joint[0] == '-' && joint[1] == flag && joint.len() > 2);
    assert(joint.skip(2) =~= value);
    assert(joint.take(3)[1] == flag && joint.take(3)[2] == value[0]);
    assert("-ds"@[1] == 'd' && "-ds"@[2] == 's');
    assert(other[at] == seq!['-', flag] && other[at + 1] == value);
    assert(seq!['-', flag][1] == flag && "--"@[1] == '-');
    assert(options::step(one, grammar, at, items) == (Step::Go { items: more, taken: false }));
    assert(options::step(other, grammar, at, items) == (Step::Go { items: more, taken: true }));
    assert(one.skip(at + 1) =~= rest);
    assert(other.skip(at + 2) =~= rest);
    lemma_same_rest(one, other, grammar, at + 1, at + 2, more);
    lemma_run_through(before, seq![joint] + rest, grammar, 0, seq![]);
    lemma_run_through(before, seq![seq!['-', flag], value] + rest, grammar, 0, seq![]);
}

/// A size that is glued to its option is one that stands behind it, at any place
/// in the arguments of `attach` where an option can stand.
pub proof fn law_attach_takes_glued_sizes(
    before: Seq<Seq<char>>,
    rest: Seq<Seq<char>>,
    flag: char,
    value: Seq<char>,
)
    requires
        flag == 'x' || flag == 'y',
        value.len() > 0,
        !waits_for_value(before, session::attach_scan(before)),
    ensures
        session::attach_invocation(before + (seq![seq!['-', flag] + value] + rest))
            == session::attach_invocation(before + (seq![seq!['-', flag], value] + rest)),
{
    let grammar = Grammar {
        attached: "xy",
        ..options::options("", "txy", Operands::Each, "unknown attach option: ")
    };
    reveal_strlit("");
    reveal_strlit("xy");
    reveal_strlit("txy");
    assert("xy"@[0] == 'x' && "xy"@[1] == 'y');
    assert("txy"@[1] == 'x' && "txy"@[2] == 'y');
    if session::attach_scan(before).error is Some {
        lemma_refusal_stays(before, seq![seq!['-', flag] + value] + rest, grammar, 0, seq![]);
        lemma_refusal_stays(before, seq![seq!['-', flag], value] + rest, grammar, 0, seq![]);
    } else {
        lemma_scans_all(before, grammar, 0, seq![]);
        law_attached_value_is_a_separate_one(before, rest, grammar, flag, value);
    }
}

/// Without a separator, and with each operand by itself, arguments that are not
/// refused are all scanned.
proof fn lemma_scans_all(
    arguments: Seq<Seq<char>>,
    grammar: Grammar,
    at: int,
    items: Seq<ItemView>,
)
    requires
        0 <= at <= arguments.len(),
        !grammar.separator,
        !grammar.separator_value,
        grammar.operands != Operands::Rest,
        options::scanned_from(arguments, grammar, at, items).error is None,
    ensures
        ran_through(options::scanned_from(arguments, grammar, at, items), grammar),
    decreases arguments.len() - at,
{
    if at < arguments.len() {
        match options::step(arguments, grammar, at, items) {
            Step::Stop { .. } => {},
            Step::Go { items: next, taken } => {
                let step = if taken {
                    at + 2
                } else {
                    at + 1
                };
                lemma_scans_all(arguments, grammar, step, next);
            },
        }
    }
}

// ---------------------------------------------------------------------------
// Options that say nothing.

/// The options of `kill-session`.
pub open spec fn kill_session_grammar() -> Grammar {
    options::options("aCf", "t", Operands::Each, "unknown kill-session option: ")
}

/// Whether an item is one of the options of `kill-session` that say nothing.
pub open spec fn is_idle(item: ItemView) -> bool {
    item.flag == 'f' || item.flag == 'C'
}

/// The arguments of `kill-session` without the options `-f` and `-C`. What stands
/// behind `-t` is its value, and stays.
pub open spec fn without_idle(arguments: Seq<Seq<char>>) -> Seq<Seq<char>>
    decreases arguments.len(),
{
    if arguments.len() == 0 {
        seq![]
    } else if arguments[0] == "-t"@ && arguments.len() > 1 {
        arguments.take(2) + without_idle(arguments.skip(2))
    } else if arguments[0] == "-f"@ || arguments[0] == "-C"@ {
        without_idle(arguments.skip(1))
    } else {
        arguments.take(1) + without_idle(arguments.skip(1))
    }
}

/// The items without those that say nothing.
pub open spec fn telling(items: Seq<ItemView>) -> Seq<ItemView>
    decreases items.len(),
{
    if items.len() == 0 {
        seq![]
    } else if is_idle(items.last()) {
        telling(items.drop_last())
    } else {
        telling(items.drop_last()).push(items.last())
    }
}

proof fn lemma_telling_push(items: Seq<ItemView>, item: ItemView)
    ensures
        telling(items.push(item)) == if is_idle(item) {
            telling(items)
        } else {
            telling(items).push(item)
        },
{
    assert(items.push(item).drop_last() =~= items);
}

/// What the items that say nothing leave alone.
proof fn lemma_telling(items: Seq<ItemView>)
    ensures
        items::value_of(telling(items), "t "@) == items::value_of(items, "t "@),
        options::is_seen(telling(items), 'a') == options::is_seen(items, 'a'),
        !options::is_seen(telling(items), 'f'),
    decreases items.len(),
{
    reveal_strlit("t ");
    assert("t "@.len() == 2 && "t "@[0] == 't' && "t "@[1] == ' ');
    if items.len() > 0 {
        let front = items.drop_last();
        let item = items.last();
        lemma_telling(front);
        lemma_seen_push(front, item, 'a');
        assert(front.push(item) =~= items);
        if !is_idle(item) {
            let kept = telling(front);
            lemma_seen_push(kept, item, 'a');
            lemma_seen_push(kept, item, 'f');
            assert(kept.push(item).drop_last() =~= kept);
        }
    }
}

pub proof fn lemma_seen_push(items: Seq<ItemView>, item: ItemView, flag: char)
    ensures
        options::is_seen(items.push(item), flag) == (options::is_seen(items, flag) || item.flag
            == flag),
{
    let all = items.push(item);
    if options::is_seen(items, flag) {
        let i = choose|i: int| 0 <= i < items.len() && (#[trigger] items[i]).flag == flag;
        assert(all[i].flag == flag);
    }
    if item.flag == flag {
        assert(all[items.len() as int].flag == flag);
    }
    if options::is_seen(all, flag) {
        let i = choose|i: int| 0 <= i < all.len() && (#[trigger] all[i]).flag == flag;
        if i < items.len() {
            assert(items[i].flag == flag);
        }
    }
}

proof fn lemma_scan_without_idle(arguments: Seq<Seq<char>>, items: Seq<ItemView>)
    requires
        options::scanned_from(arguments, kill_session_grammar(), 0, items).error is None,
    ensures
        ({
            let grammar = kill_session_grammar();
            let scan = options::scanned_from(arguments, grammar, 0, items);
            let kept = options::scanned_from(without_idle(arguments), grammar, 0, telling(items));
            kept.error is None && kept.items == telling(scan.items)
        }),
    decreases arguments.len(),
{
    let grammar = kill_session_grammar();
    if arguments.len() > 0 {
        let value = arguments[0];
        let kept = without_idle(arguments);
        reveal_strlit("");
        reveal_strlit("aCf");
        reveal_strlit("t");
        reveal_strlit("-t");
        reveal_strlit("-f");
        reveal_strlit("-C");
        assert("aCf"@.len() == 3 && "aCf"@[0] == 'a' && "aCf"@[1] == 'C' && "aCf"@[2] == 'f');
        assert("t"@.len() == 1 && "t"@[0] == 't');
        assert("-t"@[0] == '-' && "-t"@[1] == 't' && "-t"@.len() == 2);
        assert("-f"@[0] == '-' && "-f"@[1] == 'f' && "-f"@.len() == 2);
        assert("-C"@[0] == '-' && "-C"@[1] == 'C' && "-C"@.len() == 2);
        assert(value.len() == 2 ==> value =~= seq![value[0], value[1]]);
        assert("-t"@ =~= seq!['-', 't'] && "-f"@ =~= seq!['-', 'f'] && "-C"@ =~= seq!['-', 'C']);
        match options::step(arguments, grammar, 0, items) {
            Step::Stop { .. } => {},
            Step::Go { items: more, taken } => {
                let item = more.last();
                assert(more =~= items.push(item));
                lemma_telling_push(items, item);
                let by = if taken {
                    2int
                } else {
                    1int
                };
                let rest = arguments.skip(by);
                assert(rest.skip(0) =~= rest);
                lemma_same_rest(arguments, rest, grammar, by, 0, more);
                lemma_scan_without_idle(rest, more);
                if value != "-f"@ && value != "-C"@ {
                    assert(kept == arguments.take(by) + without_idle(rest));
                    assert(kept[0] == value);
                    if taken {
                        assert(kept[1] == arguments[1]);
                    }
                    assert(kept.skip(by) =~= without_idle(rest).skip(0));
                    lemma_same_rest(kept, without_idle(rest), grammar, by, 0, telling(more));
                    assert(options::step(kept, grammar, 0, telling(items)) == (Step::Go {
                        items: telling(more),
                        taken,
                    }));
                }
            },
        }
    }
}

/// Where `kill-session` succeeds, `-f` and `-C` say nothing: without them it is
/// the same request.
pub proof fn law_kill_session_ignores_idle_options(arguments: Seq<Seq<char>>)
    requires
        session::kill_session_invocation(arguments) is Ok,
    ensures
        session::kill_session_invocation(without_idle(arguments))
            == session::kill_session_invocation(arguments),
{
    let none = Seq::<ItemView>::empty();
    assert(telling(none) =~= none);
    lemma_scan_without_idle(arguments, none);
    lemma_telling(options::scanned(arguments, kill_session_grammar()).items);
}

// ---------------------------------------------------------------------------
// Switches that stand together.

/// An argument for each switch.
pub open spec fn one_by_one(letters: Seq<char>) -> Seq<Seq<char>> {
    letters.map_values(|letter: char| seq!['-', letter])
}

proof fn lemma_all_listed(letters: Seq<char>, list: Seq<char>)
    requires
        forall|i: int| 0 <= i < letters.len() ==> list.contains(#[trigger] letters[i]),
    ensures
        options::first_unlisted(letters, list) is None,
    decreases letters.len(),
{
    if letters.len() > 0 {
        let front = letters.drop_last();
        assert forall|i: int| 0 <= i < front.len() implies list.contains(#[trigger] front[i]) by {
            assert(front[i] == letters[i]);
        }
        lemma_all_listed(front, list);
        assert(list.contains(letters[letters.len() - 1]));
    }
}

proof fn lemma_switches_one_by_one(
    letters: Seq<char>,
    before: Seq<Seq<char>>,
    rest: Seq<Seq<char>>,
    grammar: Grammar,
    at: int,
    items: Seq<ItemView>,
)
    requires
        0 <= at <= letters.len(),
        forall|i: int|
            0 <= i < letters.len() ==> grammar.switches@.contains(#[trigger] letters[i]),
        grammar.separator ==> !grammar.switches@.contains('-'),
    ensures
        ({
            let all = before + (one_by_one(letters) + rest);
            options::scanned_from(
                all,
                grammar,
                before.len() + at,
                items + options::switch_items(letters.take(at)),
            ) == options::scanned_from(
                all,
                grammar,
                (before.len() + letters.len()) as int,
                items + options::switch_items(letters),
            )
        }),
    decreases letters.len() - at,
{
    let all = before + (one_by_one(letters) + rest);
    if at < letters.len() {
        let argument = all[before.len() + at];
        let so_far = items + options::switch_items(letters.take(at));
        assert(argument == one_by_one(letters)[at]);
        assert(argument == seq!['-', letters[at]]);
        assert(argument[0] == '-' && argument[1] == letters[at]);
        reveal_strlit("--");
        assert("--"@[1] == '-');
        assert(so_far.push(options::switch_item(letters[at])) =~= items + options::switch_items(
            letters.take(at + 1),
        ));
        lemma_switches_one_by_one(letters, before, rest, grammar, at + 1, items);
    } else {
        assert(letters.take(at) =~= letters);
    }
}

/// Switches that stand together in one argument are the same switches one by
/// one, behind any arguments that were all scanned.
pub proof fn law_cluster_is_its_switches(
    before: Seq<Seq<char>>,
    letters: Seq<char>,
    rest: Seq<Seq<char>>,
    grammar: Grammar,
)
    requires
        ran_through(options::scanned(before, grammar), grammar),
        grammar.cluster_head@ == "-"@,
        letters.len() >= 2,
        forall|i: int| 0 <= i < letters.len() ==> grammar.cluster@.contains(#[trigger] letters[i]),
        forall|i: int|
            0 <= i < letters.len() ==> grammar.switches@.contains(#[trigger] letters[i]),
        grammar.separator ==> !grammar.switches@.contains('-'),
        !grammar.attached@.contains(letters[0]),
        !grammar.joined,
        !grammar.delays,
    ensures
        options::scanned(before + (seq![seq!['-'] + letters] + rest), grammar) == options::scanned(
            before + (one_by_one(letters) + rest),
            grammar,
        ),
{
    let joint = seq!['-'] + letters;
    let at = before.len() as int;
    let one = before + (seq![joint] + rest);
    let other = before + (one_by_one(letters) + rest);
    let items = options::scanned(before, grammar).items;
    let more = items + options::switch_items(letters);
    reveal_strlit("-");
    reveal_strlit("--");
    assert("-"@ =~= seq!['-']);
    assert(one[at] == joint);
    assert(joint[0] == '-' && joint[1] == letters[0] && joint.len() > 2);
    assert(joint.take(1) =~= "-"@);
    assert(joint.skip(1) =~= letters);
    assert(grammar.cluster@.contains(letters[0]));
    lemma_all_listed(letters, grammar.cluster@);
    assert(options::step(one, grammar, at, items) == (Step::Go { items: more, taken: false }));
    lemma_run_through(before, seq![joint] + rest, grammar, 0, seq![]);
    lemma_run_through(before, one_by_one(letters) + rest, grammar, 0, seq![]);
    assert(items + options::switch_items(letters.take(0)) =~= items);
    lemma_switches_one_by_one(letters, before, rest, grammar, 0, items);
    assert(one.skip(at + 1) =~= rest);
    assert(other.skip(at + letters.len()) =~= rest);
    lemma_same_rest(one, other, grammar, at + 1, at + letters.len(), more);
}

/// The options of `set-option`.
pub open spec fn set_option_grammar() -> Grammar {
    Grammar {
        cluster: "gswpuq",
        cluster_head: "-",
        separator: true,
        separator_value: true,
        ..options::options("gswpuq", "t", Operands::Each, "unknown set-option option: ")
    }
}

/// A cluster of switches of `set-option` is the same as the switches one by one.
pub proof fn law_set_option_takes_clusters(
    before: Seq<Seq<char>>,
    letters: Seq<char>,
    rest: Seq<Seq<char>>,
)
    requires
        ran_through(options::scanned(before, set_option_grammar()), set_option_grammar()),
        letters.len() >= 2,
        forall|i: int| 0 <= i < letters.len() ==> "gswpuq"@.contains(#[trigger] letters[i]),
    ensures
        setting::set_option_invocation(before + (seq![seq!['-'] + letters] + rest))
            == setting::set_option_invocation(before + (one_by_one(letters) + rest)),
{
    reveal_strlit("");
    reveal_strlit("gswpuq");
    law_cluster_is_its_switches(before, letters, rest, set_option_grammar());
}

/// What a cluster of switches with a key, and a value or none, sets: the last of
/// the scopes counts, and only what is unset needs no value.
pub proof fn law_set_option_by_letters(letters: Seq<char>, key: Seq<char>, value: Option<Seq<char>>)
    requires
        letters.len() >= 2,
        forall|i: int| 0 <= i < letters.len() ==> "gswpuq"@.contains(#[trigger] letters[i]),
        !options::starts_with_dash(key),
        value matches Some(text) ==> !options::starts_with_dash(text),
    ensures
        ({
            let operands = match value {
                Some(text) => seq![key, text],
                None => seq![key],
            };
            setting::set_option_invocation(seq![seq!['-'] + letters] + operands) == if value is None
                && !letters.contains('u') {
                Err("set-option requires a value"@)
            } else {
                invocation::plainly(
                    RequestOf::SetOption {
                        target: None,
                        scope: setting::scope_in(options::switch_items(letters)),
                        key,
                        value: setting::or_empty(value),
                        unset: letters.contains('u'),
                    },
                )
            }
        }),
{
    let operands = match value {
        Some(text) => seq![key, text],
        None => seq![key],
    };
    let joint = seq!['-'] + letters;
    let all = seq![joint] + operands;
    let grammar = set_option_grammar();
    let none = Seq::<ItemView>::empty();
    let switches = options::switch_items(letters);
    reveal_strlit("");
    reveal_strlit("-");
    reveal_strlit("--");
    reveal_strlit("t");
    reveal_strlit("gswp");
    reveal_strlit("gswpuq");
    assert("-"@ =~= seq!['-']);
    assert(all[0] == joint && all[1] == key);
    assert(joint[0] == '-' && joint[1] == letters[0] && joint.len() > 2);
    assert(joint.take(1) =~= "-"@);
    assert(joint.skip(1) =~= letters);
    lemma_all_listed(letters, grammar.cluster@);
    assert(none + switches =~= switches);
    assert(options::step(all, grammar, 0, none) == (Step::Go { items: switches, taken: false }));
    let with_key = switches.push(options::value_item(options::OPERAND, key));
    assert("--"@[0] == '-');
    assert(options::step(all, grammar, 1, switches) == (Step::Go {
        items: with_key,
        taken: false,
    }));
    reveal_with_fuel(options::scanned_from, 4);
    lemma_switches_hold(letters, switches, letters.len() as int);
    lemma_seen_push(switches, options::value_item(options::OPERAND, key), 'u');
    assert(with_key.drop_last() =~= switches);
    assert(!"gswp"@.contains(options::OPERAND));
    assert(!"t"@.contains(options::OPERAND));
    assert(items::operands_of(with_key) =~= seq![key]);
    match value {
        Some(text) => {
            assert(all[2] == text);
            let item = options::value_item(options::OPERAND, text);
            let whole = with_key.push(item);
            assert(options::step(all, grammar, 2, with_key) == (Step::Go {
                items: whole,
                taken: false,
            }));
            lemma_seen_push(with_key, item, 'u');
            assert(whole.drop_last() =~= with_key);
            assert(items::operands_of(whole) =~= seq![key, text]);
        },
        None => {},
    }
    assert(items::operands_of(options::scanned(all, grammar).items) + Seq::<Seq<char>>::empty()
        =~= operands);
}

/// What items without values hold.
proof fn lemma_switches_hold(letters: Seq<char>, switches: Seq<ItemView>, count: int)
    requires
        switches == options::switch_items(letters),
        0 <= count <= letters.len(),
        forall|i: int| 0 <= i < letters.len() ==> "gswpuq"@.contains(#[trigger] letters[i]),
    ensures
        items::operands_of(switches.take(count)) == Seq::<Seq<char>>::empty(),
        items::last_of(switches.take(count), "t"@) is None,
        options::is_seen(switches, 'u') == letters.contains('u'),
        switches.take(letters.len() as int) == switches,
    decreases count,
{
    reveal_strlit("t");
    reveal_strlit("gswpuq");
    assert("t"@.len() == 1 && "t"@[0] == 't');
    assert(switches.take(letters.len() as int) =~= switches);
    assert forall|i: int| 0 <= i < letters.len() implies (#[trigger] switches[i]).flag
        == letters[i] by {}
    if letters.contains('u') {
        let i = choose|i: int| 0 <= i < letters.len() && letters[i] == 'u';
        assert(switches[i].flag == 'u');
    }
    if options::is_seen(switches, 'u') {
        let i = choose|i: int| 0 <= i < switches.len() && (#[trigger] switches[i]).flag == 'u';
        assert(letters[i] == 'u');
    }
    if count > 0 {
        lemma_switches_hold(letters, switches, count - 1);
        assert(switches.take(count).drop_last() =~= switches.take(count - 1));
        assert(switches.take(count).last() == switches[count - 1]);
        assert("gswpuq"@.contains(letters[count - 1]));
    }
}

/// Of an option that is given more than once, the last counts.
pub proof fn law_last_option_counts(
    before: Seq<ItemView>,
    item: ItemView,
    after: Seq<ItemView>,
    flags: Seq<char>,
)
    requires
        flags.contains(item.flag),
        forall|i: int| 0 <= i < after.len() ==> !flags.contains((#[trigger] after[i]).flag),
    ensures
        items::last_of(before.push(item) + after, flags) == Some(item),
        items::value_of(before.push(item) + after, flags) == Some(item.value),
    decreases after.len(),
{
    let all = before.push(item) + after;
    if after.len() > 0 {
        assert(all.last() == after.last());
        assert(all.drop_last() =~= before.push(item) + after.drop_last());
        law_last_option_counts(before, item, after.drop_last(), flags);
    } else {
        assert(all =~= before.push(item));
    }
}

/// The options of a new session.
pub open spec fn new_session_grammar() -> Grammar {
    Grammar {
        attached: "snxy",
        joined: true,
        separator: true,
        separator_value: true,
        ..options::options("dAPE", "tFsncxy", Operands::Rest, "unknown new-session option: ")
    }
}

/// The request for a new session with another command.
pub open spec fn with_command(
    request: RequestView,
    command: Seq<Seq<char>>,
    empty: bool,
) -> RequestView {
    match request {
        RequestOf::NewSession {
            name,
            detached,
            attach_existing,
            group_target,
            format,
            window_name,
            empty: _,
            command: _,
            cwd,
            size,
        } => RequestOf::NewSession {
            name,
            detached,
            attach_existing,
            group_target,
            format,
            window_name,
            empty,
            command,
            cwd,
            size,
        },
        other => other,
    }
}

/// A new session runs exactly the command behind `--`, and everything else of
/// it is as without a command.
pub proof fn law_new_session_keeps_its_command(
    before: Seq<Seq<char>>,
    command: Seq<Seq<char>>,
    cwd: Option<Seq<char>>,
)
    requires
        ran_through(session::new_session_scan(before), new_session_grammar()),
    ensures
        ({
            let whole = session::new_session_invocation(before + seq!["--"@] + command, cwd);
            let empty = options::is_seen(session::new_session_scan(before).items, 'E');
            match session::new_session_invocation(before, cwd) {
                Ok(bare) => match session::pane_command(command, empty) {
                    Ok((kept, stays_empty)) => whole == Ok::<InvocationView, Seq<char>>(
                        InvocationView {
                            request: with_command(bare.request, kept, stays_empty),
                            ..bare
                        },
                    ),
                    Err(error) => whole == Err::<InvocationView, Seq<char>>(error),
                },
                Err(error) => whole == Err::<InvocationView, Seq<char>>(error),
            }
        }),
{
    law_text_behind_the_separator_is_kept(before, command, new_session_grammar());
}

/// Keys are sent in the order in which they are given.
pub proof fn law_keys_are_sent_in_order(first: Seq<Seq<char>>, second: Seq<Seq<char>>)
    ensures
        keys::sent_by_all(first + second) == keys::sent_by_all(first) + keys::sent_by_all(second),
    decreases second.len(),
{
    if second.len() > 0 {
        assert((first + second).drop_last() =~= first + second.drop_last());
        law_keys_are_sent_in_order(first, second.drop_last());
        assert(keys::sent_by_all(first + second) =~= keys::sent_by_all(first) + keys::sent_by_all(
            second,
        ));
    } else {
        assert(first + second =~= first);
        assert(keys::sent_by_all(first) + keys::sent_by_all(second) =~= keys::sent_by_all(first));
    }
}

/// Keys that are repeated are sent as often as if they were given so often.
pub proof fn law_repeats_add_up(bytes: Seq<u8>, first: nat, second: nat)
    ensures
        keys::repeated(bytes, first + second) == keys::repeated(bytes, first) + keys::repeated(
            bytes,
            second,
        ),
    decreases second,
{
    if second > 0 {
        law_repeats_add_up(bytes, first, (second - 1) as nat);
        assert(keys::repeated(bytes, first + second) =~= keys::repeated(bytes, first)
            + keys::repeated(bytes, second));
    } else {
        assert(keys::repeated(bytes, first) + keys::repeated(bytes, second) =~= keys::repeated(
            bytes,
            first,
        ));
    }
}

} // verus!
