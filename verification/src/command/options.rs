//! Scanning the arguments of a command for options.
//!
//! A command describes its options by a [`Grammar`]. Scanning turns the
//! arguments into a list of items, one for each option and operand, in the order
//! in which they were given.

use vstd::prelude::*;

use crate::protocol::wire;
use crate::text::{self, characters, concat, same_text, string_of, strings_from};

verus! {

/// What stands for the option letter in an item that is an operand.
pub const OPERAND: char = ' ';

/// What arguments that are no options are.
#[derive(Debug, Clone, Copy, PartialEq, Eq, Structural)]
pub enum Operands {
    /// Not accepted.
    Refused,
    /// Each is an operand, and options may follow.
    Each,
    /// The first ends the options; it and what follows are the tail.
    Rest,
}

/// Which arguments that start with a dash, and are no options, are taken as
/// operands.
#[derive(Debug, Clone, Copy, PartialEq, Eq, Structural)]
pub enum Dashes {
    Refused,
    /// A dash alone.
    Alone,
    /// Any, once the option of the given letter was seen.
    After(char),
    Any,
}

/// The options of a command. Strings of letters list options.
pub struct Grammar {
    /// Options that take no value.
    pub switches: &'static str,
    /// Options that take the next argument as their value.
    pub values: &'static str,
    /// Options whose value may also stand in the same argument.
    pub attached: &'static str,
    /// Switches that are known only behind the option `gate`.
    pub gated: &'static str,
    pub gate: char,
    /// Switches that may stand together in one argument, behind `cluster_head`.
    pub cluster: &'static str,
    pub cluster_head: &'static str,
    /// Whether `-ds` may stand for `-d` and an attached `-s`.
    pub joined: bool,
    /// Whether `-d`, `-Nd` and `-Zd` take a delay, which may be left out.
    pub delays: bool,
    /// Whether `--` ends the options.
    pub separator: bool,
    /// Whether a value that reads `--` ends the options too, without a tail.
    pub separator_value: bool,
    pub operands: Operands,
    pub dashes: Dashes,
    /// What an argument that is refused is reported behind.
    pub unknown: &'static str,
}

/// The grammar of a command with plain options only.
#[verifier::allow_in_spec]
pub fn options(
    switches: &'static str,
    values: &'static str,
    operands: Operands,
    unknown: &'static str,
) -> Grammar
    returns
        (Grammar {
            switches,
            values,
            attached: "",
            gated: "",
            gate: OPERAND,
            cluster: "",
            cluster_head: "",
            joined: false,
            delays: false,
            separator: false,
            separator_value: false,
            operands,
            dashes: Dashes::Refused,
            unknown,
        }),
{
    Grammar {
        switches,
        values,
        attached: "",
        gated: "",
        gate: OPERAND,
        cluster: "",
        cluster_head: "",
        joined: false,
        delays: false,
        separator: false,
        separator_value: false,
        operands,
        dashes: Dashes::Refused,
        unknown,
    }
}

/// One option or operand: its letter, and its value.
pub struct Item {
    pub flag: char,
    pub value: String,
}

pub ghost struct ItemView {
    pub flag: char,
    pub value: Seq<char>,
}

impl View for Item {
    type V = ItemView;

    open spec fn view(&self) -> ItemView {
        ItemView { flag: self.flag, value: self.value@ }
    }
}

pub open spec fn item_views(items: Seq<Item>) -> Seq<ItemView> {
    items.map_values(|item: Item| item@)
}

/// What scanning gives: the items up to where it stopped, the arguments that
/// follow them, whether a separator stands between, and what was refused there.
pub struct Scan {
    pub items: Vec<Item>,
    pub tail: Vec<String>,
    pub separated: bool,
    pub error: Option<String>,
}

pub ghost struct ScanView {
    pub items: Seq<ItemView>,
    pub tail: Seq<Seq<char>>,
    pub separated: bool,
    pub error: Option<Seq<char>>,
}

impl View for Scan {
    type V = ScanView;

    open spec fn view(&self) -> ScanView {
        ScanView {
            items: item_views(self.items@),
            tail: text::texts(self.tail@),
            separated: self.separated,
            error: wire::text_view(self.error),
        }
    }
}

/// Whether an option is among the items.
pub open spec fn is_seen(items: Seq<ItemView>, flag: char) -> bool {
    exists|i: int| 0 <= i < items.len() && (#[trigger] items[i]).flag == flag
}

pub open spec fn starts_with_dash(value: Seq<char>) -> bool {
    value.len() > 0 && value[0] == '-'
}

/// Whether an argument is a dash and one letter.
pub open spec fn is_option(value: Seq<char>) -> bool {
    value.len() == 2 && value[0] == '-'
}

pub open spec fn is_switch(grammar: Grammar, items: Seq<ItemView>, flag: char) -> bool {
    ||| grammar.switches@.contains(flag)
    ||| grammar.gated@.contains(flag) && is_seen(items, grammar.gate)
}

pub open spec fn is_cluster(grammar: Grammar, value: Seq<char>) -> bool {
    &&& grammar.cluster@.len() > 0
    &&& value.len() > 2
    &&& value.len() > grammar.cluster_head@.len()
    &&& value.take(grammar.cluster_head@.len() as int) == grammar.cluster_head@
}

/// The first letter that is not in the list.
pub open spec fn first_unlisted(letters: Seq<char>, list: Seq<char>) -> Option<char>
    decreases letters.len(),
{
    if letters.len() == 0 {
        None
    } else {
        match first_unlisted(letters.drop_last(), list) {
            Some(letter) => Some(letter),
            None => if list.contains(letters.last()) {
                None
            } else {
                Some(letters.last())
            },
        }
    }
}

/// An option without a value.
pub open spec fn switch_item(letter: char) -> ItemView {
    ItemView { flag: letter, value: Seq::empty() }
}

/// An option with its value, or an operand.
pub open spec fn value_item(letter: char, value: Seq<char>) -> ItemView {
    ItemView { flag: letter, value }
}

/// One item without a value for each letter.
pub open spec fn switch_items(letters: Seq<char>) -> Seq<ItemView> {
    letters.map_values(|letter: char| switch_item(letter))
}

pub open spec fn is_delay(grammar: Grammar, value: Seq<char>) -> bool {
    grammar.delays && (value == "-d"@ || value == "-Nd"@ || value == "-Zd"@)
}

pub open spec fn is_operand(grammar: Grammar, items: Seq<ItemView>, value: Seq<char>) -> bool {
    !starts_with_dash(value) || match grammar.dashes {
        Dashes::Refused => false,
        Dashes::Alone => value.len() == 1,
        Dashes::After(flag) => is_seen(items, flag),
        Dashes::Any => true,
    }
}

/// What one argument does: it adds items, with the next argument as a value or
/// not, or it ends the scan.
pub ghost enum Step {
    Go { items: Seq<ItemView>, taken: bool },
    Stop { scan: ScanView },
}

pub open spec fn stopped(items: Seq<ItemView>, tail: Seq<Seq<char>>, separated: bool) -> Step {
    Step::Stop { scan: ScanView { items, tail, separated, error: None } }
}

pub open spec fn refused(items: Seq<ItemView>, error: Seq<char>) -> Step {
    Step::Stop { scan: ScanView { items, tail: seq![], separated: false, error: Some(error) } }
}

pub open spec fn step(
    arguments: Seq<Seq<char>>,
    grammar: Grammar,
    at: int,
    items: Seq<ItemView>,
) -> Step {
    let value = arguments[at];
    let has_next = at + 1 < arguments.len();
    if grammar.separator && value == "--"@ {
        stopped(items, arguments.skip(at + 1), true)
    } else if is_option(value) && is_switch(grammar, items, value[1]) {
        Step::Go { items: items.push(switch_item(value[1])), taken: false }
    } else if is_option(value) && grammar.values@.contains(value[1]) {
        if !has_next {
            refused(items, value + " requires an argument"@)
        } else {
            let more = items.push(value_item(value[1], arguments[at + 1]));
            if grammar.separator_value && arguments[at + 1] == "--"@ {
                stopped(more, seq![], false)
            } else {
                Step::Go { items: more, taken: true }
            }
        }
    } else if grammar.joined && value.len() > 3 && value.take(3) == "-ds"@ {
        Step::Go {
            items: items.push(switch_item('d')).push(value_item('s', value.skip(3))),
            taken: false,
        }
    } else if is_delay(grammar, value) {
        Step::Go {
            items: items.push(switch_item(value[1])),
            taken: has_next && !starts_with_dash(arguments[at + 1]),
        }
    } else if starts_with_dash(value) && value.len() > 2 && grammar.attached@.contains(value[1]) {
        Step::Go { items: items.push(value_item(value[1], value.skip(2))), taken: false }
    } else if is_cluster(grammar, value) {
        let letters = value.skip(grammar.cluster_head@.len() as int);
        match first_unlisted(letters, grammar.cluster@) {
            Some(letter) => refused(items, grammar.unknown@ + seq!['-', letter]),
            None => Step::Go { items: items + switch_items(letters), taken: false },
        }
    } else if !is_operand(grammar, items, value) {
        refused(items, grammar.unknown@ + value)
    } else {
        match grammar.operands {
            Operands::Refused => refused(items, grammar.unknown@ + value),
            Operands::Each => Step::Go {
                items: items.push(value_item(OPERAND, value)),
                taken: false,
            },
            Operands::Rest => stopped(items, arguments.skip(at), false),
        }
    }
}

/// Scanning from a position on, with the items that came before it.
pub open spec fn scanned_from(
    arguments: Seq<Seq<char>>,
    grammar: Grammar,
    at: int,
    items: Seq<ItemView>,
) -> ScanView
    decreases arguments.len() - at,
{
    if at >= arguments.len() {
        ScanView { items, tail: seq![], separated: false, error: None }
    } else {
        match step(arguments, grammar, at, items) {
            Step::Stop { scan } => scan,
            Step::Go { items: more, taken } => if taken {
                scanned_from(arguments, grammar, at + 2, more)
            } else {
                scanned_from(arguments, grammar, at + 1, more)
            },
        }
    }
}

pub open spec fn scanned(arguments: Seq<Seq<char>>, grammar: Grammar) -> ScanView {
    scanned_from(arguments, grammar, 0, seq![])
}

/// Whether a letter is in a list.
pub fn is_listed(list: &str, letter: char) -> (listed: bool)
    ensures
        listed == list@.contains(letter),
{
    let letters = characters(list);
    let mut index: usize = 0;
    while index < letters.len()
        invariant
            index <= letters@.len(),
            letters@ == list@,
            forall|i: int| 0 <= i < index ==> letters@[i] != letter,
        decreases letters@.len() - index,
    {
        if letters[index] == letter {
            assert(list@[index as int] == letter);
            return true;
        }
        index += 1;
    }
    false
}

pub fn seen(items: &Vec<Item>, flag: char) -> (found: bool)
    ensures
        found == is_seen(item_views(items@), flag),
{
    let ghost views = item_views(items@);
    let mut index: usize = 0;
    while index < items.len()
        invariant
            index <= items@.len(),
            views == item_views(items@),
            forall|i: int| 0 <= i < index ==> (#[trigger] views[i]).flag != flag,
        decreases items@.len() - index,
    {
        assert(views[index as int].flag == items@[index as int].flag);
        if items[index].flag == flag {
            return true;
        }
        index += 1;
    }
    false
}

fn push_item(items: &mut Vec<Item>, flag: char, value: String)
    ensures
        item_views(final(items)@) == item_views(old(items)@).push(ItemView { flag, value: value@ }),
{
    items.push(Item { flag, value });
    assert(item_views(items@) =~= item_views(old(items)@).push(ItemView { flag, value: value@ }));
}

/// Where the letters of a cluster end, or the first that is not listed.
fn unlisted(letters: &Vec<char>, start: usize, list: &str) -> (found: Option<char>)
    requires
        start <= letters@.len(),
    ensures
        found == first_unlisted(letters@.skip(start as int), list@),
{
    let ghost all = letters@.skip(start as int);
    assert(all.take(0) =~= seq![]);
    let mut index = start;
    while index < letters.len()
        invariant
            start <= index <= letters@.len(),
            all == letters@.skip(start as int),
            first_unlisted(all.take(index - start), list@) is None,
        decreases letters@.len() - index,
    {
        let letter = letters[index];
        assert(all.take(index - start + 1).drop_last() =~= all.take(index - start));
        assert(all.take(index - start + 1).last() == letter);
        if !is_listed(list, letter) {
            proof {
                lemma_first_unlisted(all, index - start + 1, list@);
            }
            return Some(letter);
        }
        index += 1;
    }
    assert(all.take(index - start) =~= all);
    None
}

proof fn lemma_first_unlisted(letters: Seq<char>, count: int, list: Seq<char>)
    requires
        0 <= count <= letters.len(),
        first_unlisted(letters.take(count), list) is Some,
    ensures
        first_unlisted(letters, list) == first_unlisted(letters.take(count), list),
    decreases letters.len(),
{
    if count < letters.len() {
        assert(letters.drop_last().take(count) =~= letters.take(count));
        lemma_first_unlisted(letters.drop_last(), count, list);
    } else {
        assert(letters.take(count) =~= letters);
    }
}

fn push_switches(items: &mut Vec<Item>, letters: &Vec<char>, start: usize)
    requires
        start <= letters@.len(),
    ensures
        item_views(final(items)@) == item_views(old(items)@) + switch_items(
            letters@.skip(start as int),
        ),
{
    let ghost all = letters@.skip(start as int);
    let mut index = start;
    while index < letters.len()
        invariant
            start <= index <= letters@.len(),
            all == letters@.skip(start as int),
            item_views(items@) =~= item_views(old(items)@) + switch_items(all.take(index - start)),
        decreases letters@.len() - index,
    {
        push_item(items, letters[index], String::new());
        assert(switch_items(all.take(index - start + 1)) =~= switch_items(
            all.take(index - start),
        ).push(switch_item(letters@[index as int])));
        index += 1;
    }
    assert(all.take(index - start) =~= all);
}

fn begins_with(value: &Vec<char>, head: &str) -> (result: bool)
    ensures
        result == (value@.len() >= head@.len() && value@.take(head@.len() as int) == head@),
{
    let start = characters(head);
    if value.len() < start.len() {
        return false;
    }
    let mut index: usize = 0;
    while index < start.len()
        invariant
            index <= start@.len() <= value@.len(),
            start@ == head@,
            forall|i: int| 0 <= i < index ==> value@[i] == start@[i],
        decreases start@.len() - index,
    {
        if value[index] != start[index] {
            assert(value@.take(head@.len() as int)[index as int] != head@[index as int]);
            return false;
        }
        index += 1;
    }
    assert(value@.take(head@.len() as int) =~= head@);
    true
}

pub fn dashed(value: &str) -> (result: bool)
    ensures
        result == starts_with_dash(value@),
{
    let list = characters(value);
    list.len() > 0 && list[0] == '-'
}

/// The argument that is the value of an option.
pub fn argument<'a>(arguments: &'a [String], index: usize, flag: &str) -> (result: Result<
    &'a str,
    String,
>)
    ensures
        index < arguments@.len() ==> (result matches Ok(value) && value@ == arguments@[index as int]@),
        index >= arguments@.len() ==> (result matches Err(error) && error@ == flag@
            + " requires an argument"@),
{
    if index < arguments.len() {
        Ok(arguments[index].as_str())
    } else {
        Err(concat(flag, " requires an argument"))
    }
}

fn stop(items: Vec<Item>, tail: Vec<String>, separated: bool) -> (scan: Scan)
    ensures
        stopped(item_views(items@), text::texts(tail@), separated) == (Step::Stop { scan: scan@ }),
{
    Scan { items, tail, separated, error: None }
}

fn refuse(items: Vec<Item>, error: String) -> (scan: Scan)
    ensures
        refused(item_views(items@), error@) == (Step::Stop { scan: scan@ }),
{
    let tail: Vec<String> = Vec::new();
    assert(text::texts(tail@) =~= seq![]);
    Scan { items, tail, separated: false, error: Some(error) }
}

/// Scans the arguments of a command.
pub fn scan(arguments: &[String], grammar: &Grammar) -> (result: Scan)
    ensures
        result@ == scanned(text::texts(arguments@), *grammar),
{
    let ghost all = text::texts(arguments@);
    let mut items: Vec<Item> = Vec::new();
    assert(item_views(items@) =~= seq![]);
    let mut at: usize = 0;
    while at < arguments.len()
        invariant
            at <= arguments@.len(),
            all == text::texts(arguments@),
            scanned(all, *grammar) == scanned_from(all, *grammar, at as int, item_views(items@)),
        decreases arguments@.len() - at,
    {
        let ghost before = item_views(items@);
        let text = arguments[at].as_str();
        let value = characters(text);
        assert(all[at as int] == value@);
        let option = value.len() == 2 && value[0] == '-';
        let dash = value.len() > 0 && value[0] == '-';
        if grammar.separator && same_text(text, "--") {
            return stop(items, strings_from(arguments, at + 1), true);
        }
        if option && (is_listed(grammar.switches, value[1]) || (is_listed(grammar.gated, value[1])
            && seen(&items, grammar.gate))) {
            push_item(&mut items, value[1], String::new());
            at += 1;
            continue;
        }
        if option && is_listed(grammar.values, value[1]) {
            let chosen = match argument(arguments, at + 1, text) {
                Ok(chosen) => chosen,
                Err(error) => return refuse(items, error),
            };
            assert(all[at + 1] == arguments@[at + 1]@);
            push_item(&mut items, value[1], chosen.to_owned());
            if grammar.separator_value && same_text(chosen, "--") {
                let tail: Vec<String> = Vec::new();
                assert(text::texts(tail@) =~= seq![]);
                return stop(items, tail, false);
            }
            at += 2;
            continue;
        }
        if grammar.joined && value.len() > 3 && begins_with(&value, "-ds") {
            proof {
                reveal_strlit("-ds");
            }
            push_item(&mut items, 'd', String::new());
            push_item(&mut items, 's', string_of(&value, 3, value.len()));
            at += 1;
            continue;
        }
        if grammar.delays && (same_text(text, "-d") || same_text(text, "-Nd") || same_text(
            text,
            "-Zd",
        )) {
            proof {
                reveal_strlit("-d");
                reveal_strlit("-Nd");
                reveal_strlit("-Zd");
            }
            push_item(&mut items, value[1], String::new());
            if at + 1 < arguments.len() {
                assert(all[at + 1] == arguments@[at + 1]@);
                if !dashed(arguments[at + 1].as_str()) {
                    at += 1;
                }
            }
            at += 1;
            continue;
        }
        if dash && value.len() > 2 && is_listed(grammar.attached, value[1]) {
            push_item(&mut items, value[1], string_of(&value, 2, value.len()));
            at += 1;
            continue;
        }
        let head = characters(grammar.cluster_head);
        let cluster = characters(grammar.cluster);
        if cluster.len() > 0 && value.len() > 2 && value.len() > head.len() && begins_with(
            &value,
            grammar.cluster_head,
        ) {
            match unlisted(&value, head.len(), grammar.cluster) {
                Some(letter) => {
                    let mut error = concat(grammar.unknown, "-");
                    error.push(letter);
                    proof {
                        reveal_strlit("-");
                        assert(error@ =~= grammar.unknown@ + seq!['-', letter]);
                    }
                    return refuse(items, error);
                },
                None => {
                    push_switches(&mut items, &value, head.len());
                    at += 1;
                    continue;
                },
            }
        }
        let operand = !dash || match grammar.dashes {
            Dashes::Refused => false,
            Dashes::Alone => value.len() == 1,
            Dashes::After(flag) => seen(&items, flag),
            Dashes::Any => true,
        };
        if !operand {
            return refuse(items, concat(grammar.unknown, text));
        }
        match grammar.operands {
            Operands::Refused => return refuse(items, concat(grammar.unknown, text)),
            Operands::Each => {
                push_item(&mut items, OPERAND, arguments[at].clone());
                at += 1;
            },
            Operands::Rest => return stop(items, strings_from(arguments, at), false),
        }
    }
    let tail: Vec<String> = Vec::new();
    assert(text::texts(tail@) =~= seq![]);
    stop(items, tail, false)
}

} // verus!
